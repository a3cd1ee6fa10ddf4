//! The way of one record: how it is read, what is sent for it, and when its
//! offset is stored.
//!
//! A record is driven by steps. A `MessageStep` says what to do next, and what
//! came of it decides the step after that.
use crate::error::{self, MappingError, MappingErrorView, ProcessingError, ProcessingErrorView};
use crate::mapper::{self, DummyMapper};
use crate::text;
use rdkafka::message::FromBytes;
use vstd::prelude::*;
use vstd::utf8;

verus! {

/// The time that a record carries, in milliseconds since the epoch.
#[derive(Clone, Copy, Debug)]
pub enum Timestamp {
    /// The record carries no time.
    NotAvailable,
    /// The time at which the record was made.
    CreateTime(i64),
    /// The time at which the broker appended the record.
    LogAppendTime(i64),
}

/// A record as it came from the input topic.
#[derive(Debug)]
pub struct InboundMessage {
    pub key: Option<Vec<u8>>,
    pub payload: Option<Vec<u8>>,
    pub timestamp: Timestamp,
}

/// A record for the output topic.
#[derive(Debug)]
pub struct OutputRecord {
    pub topic: String,
    pub key: String,
    pub payload: String,
    pub timestamp: Option<i64>,
}

/// What is done next for a record.
#[derive(Debug)]
pub enum MessageStep {
    /// Send this record and wait for its delivery.
    Produce(OutputRecord),
    /// Store the offset of the inbound record. `produced` tells whether an output
    /// record was delivered for it.
    StoreOffset { produced: bool },
    /// The record is done with. `counted` tells whether it counts as processed.
    Done { result: Result<(), ProcessingError>, counted: bool },
}

/// What an `InboundMessage` holds.
pub struct InboundMessageView {
    pub key: Option<Seq<u8>>,
    pub payload: Option<Seq<u8>>,
    pub timestamp: Timestamp,
}

/// What an `OutputRecord` holds.
pub struct OutputRecordView {
    pub topic: Seq<char>,
    pub key: Seq<char>,
    pub payload: Seq<char>,
    pub timestamp: Option<i64>,
}

/// What a `MessageStep` says.
pub enum MessageStepView {
    Produce(OutputRecordView),
    StoreOffset { produced: bool },
    Done { result: Result<(), ProcessingErrorView>, counted: bool },
}

/// What came of a step.
pub enum MessageReply {
    /// The output record was delivered, or was not.
    Sent { delivered: bool },
    /// The offset was stored, or the client failed with this text.
    Stored(Result<(), Seq<char>>),
}

/// The bytes of a field that may be absent.
pub open spec fn optional_bytes(field: Option<Vec<u8>>) -> Option<Seq<u8>> {
    match field {
        Some(bytes) => Some(bytes@),
        None => None,
    }
}

impl View for InboundMessage {
    type V = InboundMessageView;

    open spec fn view(&self) -> InboundMessageView {
        InboundMessageView {
            key: optional_bytes(self.key),
            payload: optional_bytes(self.payload),
            timestamp: self.timestamp,
        }
    }
}

impl View for OutputRecord {
    type V = OutputRecordView;

    open spec fn view(&self) -> OutputRecordView {
        OutputRecordView {
            topic: self.topic@,
            key: self.key@,
            payload: self.payload@,
            timestamp: self.timestamp,
        }
    }
}

impl View for MessageStep {
    type V = MessageStepView;

    open spec fn view(&self) -> MessageStepView {
        match *self {
            MessageStep::Produce(record) => MessageStepView::Produce(record@),
            MessageStep::StoreOffset { produced } => MessageStepView::StoreOffset { produced },
            MessageStep::Done { result, counted } => MessageStepView::Done {
                result: error::outcome(result),
                counted,
            },
        }
    }
}

/// What a mapper returned, with its texts told by their views.
pub open spec fn mapped_view(mapped: Result<Option<String>, MappingError>) -> Result<
    Option<Seq<char>>,
    MappingErrorView,
> {
    match mapped {
        Ok(payload) => Ok(text::optional_text(payload)),
        Err(e) => Err(e@),
    }
}

/// What storing an offset came to, with the text of a failure told by its view.
pub open spec fn store_view(result: Result<(), String>) -> Result<(), Seq<char>> {
    match result {
        Ok(()) => Ok(()),
        Err(text) => Err(text@),
    }
}

/// The milliseconds that a timestamp stands for; the client marks an unknown
/// time by minus one.
pub open spec fn millis(timestamp: Timestamp) -> Option<i64> {
    match timestamp {
        Timestamp::NotAvailable => None,
        Timestamp::CreateTime(t) | Timestamp::LogAppendTime(t) => if t == -1 {
            None
        } else {
            Some(t)
        },
    }
}

/// The text of a field, where it is there and holds UTF-8.
pub open spec fn readable(field: Option<Seq<u8>>) -> Option<Seq<char>> {
    match field {
        Some(bytes) => if utf8::valid_utf8(bytes) {
            Some(utf8::decode_utf8(bytes))
        } else {
            None
        },
        None => None,
    }
}

/// The key under which a record goes on: its own where that is readable, else the
/// empty text.
pub open spec fn key_text(message: InboundMessageView) -> Seq<char> {
    match readable(message.key) {
        Some(text) => text,
        None => seq![],
    }
}

/// The step for a record whose payload was mapped to `mapped`.
pub open spec fn routed(
    mapped: Result<Option<Seq<char>>, MappingErrorView>,
    key: Seq<char>,
    timestamp: Option<i64>,
    output_topic: Seq<char>,
) -> MessageStepView {
    match mapped {
        Ok(Some(payload)) => MessageStepView::Produce(
            OutputRecordView { topic: output_topic, key, payload, timestamp },
        ),
        Ok(None) => MessageStepView::StoreOffset { produced: false },
        Err(_) => MessageStepView::Done {
            result: Err(
                ProcessingErrorView::Mapping(MappingErrorView::Other("unknown payload"@)),
            ),
            counted: false,
        },
    }
}

/// The step with which a record begins. One without a readable payload is left
/// alone.
pub open spec fn first_message_step(
    message: InboundMessageView,
    output_topic: Seq<char>,
) -> MessageStepView {
    match readable(message.payload) {
        Some(payload) => routed(
            Ok(Some(mapper::mapped(payload))),
            key_text(message),
            millis(message.timestamp),
            output_topic,
        ),
        None => MessageStepView::Done { result: Ok(()), counted: false },
    }
}

/// The step after an output record was sent: an undelivered record is given up.
pub open spec fn sent(delivered: bool) -> MessageStepView {
    if delivered {
        MessageStepView::StoreOffset { produced: true }
    } else {
        MessageStepView::Done { result: Ok(()), counted: false }
    }
}

/// The step after an offset was stored, or was not.
pub open spec fn stored(produced: bool, result: Result<(), Seq<char>>) -> MessageStepView {
    match result {
        Ok(()) => MessageStepView::Done { result: Ok(()), counted: produced },
        Err(text) => MessageStepView::Done {
            result: Err(ProcessingErrorView::Kafka(text)),
            counted: false,
        },
    }
}

/// The step at which a record that began with `first` stands after `replies`, or
/// `None` where some reply cannot come of the step before it.
pub open spec fn message_replay(first: MessageStepView, replies: Seq<MessageReply>) -> Option<
    MessageStepView,
>
    decreases replies.len(),
{
    if replies.len() == 0 {
        Some(first)
    } else {
        match (message_replay(first, replies.drop_last()), replies.last()) {
            (Some(MessageStepView::Produce(_)), MessageReply::Sent { delivered }) => Some(
                sent(delivered),
            ),
            (
                Some(MessageStepView::StoreOffset { produced }),
                MessageReply::Stored(result),
            ) => Some(stored(produced, result)),
            _ => None,
        }
    }
}

/// Reads bytes as text, by rdkafka's `<str as FromBytes>::from_bytes`.
///
/// That call hands the bytes to the standard library's UTF-8 check: it gives the
/// text that they encode where they are valid UTF-8, and an error where they are
/// not. The error itself is dropped here.
#[verifier::external_body]
fn text_from_bytes(bytes: &[u8]) -> (r: Option<&str>)
    ensures
        r is Some <==> utf8::valid_utf8(bytes@),
        r matches Some(text) ==> text@ == utf8::decode_utf8(bytes@),
{
    <str as FromBytes>::from_bytes(bytes).ok()
}

/// The milliseconds of a timestamp, by rdkafka's `Timestamp::to_millis`.
///
/// That call gives the time that the timestamp holds, and `None` where it holds
/// none or holds minus one.
#[verifier::external_body]
fn timestamp_millis(timestamp: Timestamp) -> (r: Option<i64>)
    ensures
        r == millis(timestamp),
{
    match timestamp {
        Timestamp::NotAvailable => rdkafka::Timestamp::NotAvailable,
        Timestamp::CreateTime(t) => rdkafka::Timestamp::CreateTime(t),
        Timestamp::LogAppendTime(t) => rdkafka::Timestamp::LogAppendTime(t),
    }.to_millis()
}

/// The text of one field of a record.
fn field_text(field: &Option<Vec<u8>>) -> (r: Option<String>)
    ensures
        text::optional_text(r) == readable(optional_bytes(*field)),
{
    match field {
        Some(bytes) => match text_from_bytes(bytes.as_slice()) {
            Some(text) => Some(text.to_owned()),
            None => None,
        },
        None => None,
    }
}

/// Reads the key and the payload of a record. An absent or unreadable key is read
/// as the empty text, an absent or unreadable payload as none.
pub fn deserialize_message(message: &InboundMessage) -> (r: (String, Option<String>))
    ensures
        r.0@ == key_text(message@),
        text::optional_text(r.1) == readable(message@.payload),
{
    let key = match field_text(&message.key) {
        Some(text) => text,
        None => String::new(),
    };
    (key, field_text(&message.payload))
}

/// Decides what is done for a record, given what the mapper made of its payload.
pub fn route(
    mapped: Result<Option<String>, MappingError>,
    key: String,
    timestamp: Option<i64>,
    output_topic: &str,
) -> (r: MessageStep)
    ensures
        r@ == routed(mapped_view(mapped), key@, timestamp, output_topic@),
{
    match mapped {
        Ok(Some(payload)) => MessageStep::Produce(
            OutputRecord { topic: output_topic.to_owned(), key, payload, timestamp },
        ),
        Ok(None) => MessageStep::StoreOffset { produced: false },
        Err(_) => MessageStep::Done {
            result: Err(
                ProcessingError::Mapping(MappingError::Other("unknown payload".to_owned())),
            ),
            counted: false,
        },
    }
}

/// Begins the processing of a record: reads it, maps its payload and decides the
/// first step.
pub fn process_message(
    message: &InboundMessage,
    mapper: &DummyMapper,
    output_topic: &str,
) -> (r: MessageStep)
    ensures
        r@ == first_message_step(message@, output_topic@),
{
    let (key, payload) = deserialize_message(message);
    match payload {
        Some(payload) => route(
            mapper.map(&payload),
            key,
            timestamp_millis(message.timestamp),
            output_topic,
        ),
        None => MessageStep::Done { result: Ok(()), counted: false },
    }
}

/// The step after `Produce`.
pub fn after_send(delivered: bool) -> (r: MessageStep)
    ensures
        r@ == sent(delivered),
{
    if delivered {
        MessageStep::StoreOffset { produced: true }
    } else {
        MessageStep::Done { result: Ok(()), counted: false }
    }
}

/// The step after `StoreOffset`.
pub fn after_store(produced: bool, result: Result<(), String>) -> (r: MessageStep)
    ensures
        r@ == stored(produced, store_view(result)),
{
    match result {
        Ok(()) => MessageStep::Done { result: Ok(()), counted: produced },
        Err(text) => MessageStep::Done {
            result: Err(ProcessingError::Kafka(text)),
            counted: false,
        },
    }
}

/// An offset is stored only once the output record was delivered, and a record
/// counts as processed exactly when its output was delivered and its offset
/// stored. A record that was not delivered leaves its offset as it was.
pub proof fn offsets_follow_delivery(
    payload: Seq<char>,
    key: Seq<char>,
    timestamp: Option<i64>,
    output_topic: Seq<char>,
    replies: Seq<MessageReply>,
)
    requires
        message_replay(routed(Ok(Some(payload)), key, timestamp, output_topic), replies) is Some,
    ensures
        match message_replay(routed(Ok(Some(payload)), key, timestamp, output_topic), replies)->0 {
            MessageStepView::Produce(record) => {
                &&& replies.len() == 0
                &&& record == OutputRecordView { topic: output_topic, key, payload, timestamp }
            },
            MessageStepView::StoreOffset { produced } => {
                &&& produced
                &&& replies == seq![MessageReply::Sent { delivered: true }]
            },
            MessageStepView::Done { result, counted } => {
                ||| replies == seq![MessageReply::Sent { delivered: false }] && result is Ok
                    && !counted
                ||| replies.len() == 2 && replies[0] == (MessageReply::Sent { delivered: true }) && (
                replies[1] matches MessageReply::Stored(outcome) && (match outcome {
                    Ok(()) => result is Ok && counted,
                    Err(text) => result == Err::<(), _>(ProcessingErrorView::Kafka(text))
                        && !counted,
                }))
            },
        },
{
    let first = routed(Ok(Some(payload)), key, timestamp, output_topic);
    lemma_replay_prefixes(first, replies);
    if replies.len() > 0 {
        assert(replies.take(0) =~= seq![]);
        assert(replies.take(1).drop_last() =~= replies.take(0));
    }
    if replies.len() > 1 {
        assert(replies.take(2).drop_last() =~= replies.take(1));
    }
    if replies.len() > 2 {
        assert(replies.take(3).drop_last() =~= replies.take(2));
        assert(false);
    }
    assert(replies.take(replies.len() as int) =~= replies);
}

/// Where a history of replies can be replayed, so can each of its beginnings.
proof fn lemma_replay_prefixes(first: MessageStepView, replies: Seq<MessageReply>)
    requires
        message_replay(first, replies) is Some,
    ensures
        forall|n: int|
            0 <= n <= replies.len() ==> message_replay(first, #[trigger] replies.take(n)) is Some,
    decreases replies.len(),
{
    assert(replies.take(replies.len() as int) =~= replies);
    if replies.len() > 0 {
        lemma_replay_prefixes(first, replies.drop_last());
        assert forall|n: int| 0 <= n <= replies.len() implies message_replay(
            first,
            #[trigger] replies.take(n),
        ) is Some by {
            if n < replies.len() {
                assert(replies.drop_last().take(n) =~= replies.take(n));
            }
        }
    }
}

/// A record that the mapper drops has its offset stored, is answered by no output
/// record, and never counts as processed.
pub proof fn dropped_records_are_only_stored(
    key: Seq<char>,
    timestamp: Option<i64>,
    output_topic: Seq<char>,
    replies: Seq<MessageReply>,
)
    requires
        message_replay(routed(Ok(None), key, timestamp, output_topic), replies) is Some,
    ensures
        replies.len() == 0 ==> message_replay(
            routed(Ok(None), key, timestamp, output_topic),
            replies,
        ) == Some(MessageStepView::StoreOffset { produced: false }),
        replies.len() > 0 ==> {
            &&& replies.len() == 1
            &&& replies[0] matches MessageReply::Stored(result) && message_replay(
                routed(Ok(None), key, timestamp, output_topic),
                replies,
            ) == Some(stored(false, result))
        },
        message_replay(
            routed(Ok(None), key, timestamp, output_topic),
            replies,
        )->0 matches MessageStepView::Done { counted, .. } ==> !counted,
{
    let first = routed(Ok(None), key, timestamp, output_topic);
    lemma_replay_prefixes(first, replies);
    if replies.len() > 0 {
        assert(replies.take(0) =~= seq![]);
        assert(replies.take(1).drop_last() =~= replies.take(0));
    }
    if replies.len() > 1 {
        assert(replies.take(2).drop_last() =~= replies.take(1));
        assert(false);
    }
    assert(replies.take(replies.len() as int) =~= replies);
}

/// A record without a payload, or with one that is no text, is done with at once:
/// nothing is sent, no offset is stored, and nothing is reported.
pub proof fn tombstones_are_left_alone(
    message: InboundMessageView,
    output_topic: Seq<char>,
    replies: Seq<MessageReply>,
)
    requires
        message.payload matches Some(bytes) ==> !utf8::valid_utf8(bytes),
    ensures
        first_message_step(message, output_topic) == (MessageStepView::Done {
            result: Ok(()),
            counted: false,
        }),
        replies.len() > 0 ==> message_replay(
            first_message_step(message, output_topic),
            replies,
        ) is None,
    decreases replies.len(),
{
    if replies.len() > 0 {
        tombstones_are_left_alone(message, output_topic, replies.drop_last());
    }
}

/// A text that was written as UTF-8 is read as that text.
pub proof fn written_text_is_readable(text: Seq<char>)
    ensures
        readable(Some(utf8::encode_utf8(text))) == Some(text),
{
    utf8::encode_utf8_valid_utf8(text);
    utf8::encode_utf8_decode_utf8(text);
}

/// Every text payload is answered by one output record. It goes to the output
/// topic with the key and the time of the inbound record, its payload starts with
/// the marker of mapped payloads, and a reader of the output topic reads that
/// payload.
pub proof fn text_payloads_are_mapped(
    message: InboundMessageView,
    payload: Seq<char>,
    output_topic: Seq<char>,
)
    requires
        message.payload == Some(utf8::encode_utf8(payload)),
    ensures
        first_message_step(message, output_topic) == MessageStepView::Produce(
            OutputRecordView {
                topic: output_topic,
                key: key_text(message),
                payload: mapper::mapped(payload),
                timestamp: millis(message.timestamp),
            },
        ),
        "Mapped payload:"@.is_prefix_of(mapper::mapped(payload)),
        readable(Some(utf8::encode_utf8(mapper::mapped(payload)))) == Some(mapper::mapped(payload)),
{
    written_text_is_readable(payload);
    written_text_is_readable(mapper::mapped(payload));
    mapper::mapped_keeps_payload(payload);
}

/// A record whose key is the UTF-8 encoding of a text is read with that text for
/// its key, and its output record carries that key. Any other key is read as the
/// empty text.
pub proof fn text_keys_are_kept(
    message: InboundMessageView,
    key: Seq<char>,
    payload: Seq<char>,
    output_topic: Seq<char>,
)
    requires
        message.payload == Some(utf8::encode_utf8(payload)),
    ensures
        message.key == Some(utf8::encode_utf8(key)) ==> {
            &&& key_text(message) == key
            &&& first_message_step(message, output_topic) matches MessageStepView::Produce(record)
                && record.key == key
        },
        (message.key matches Some(bytes) ==> !utf8::valid_utf8(bytes)) ==> {
            &&& key_text(message).len() == 0
            &&& first_message_step(message, output_topic) matches MessageStepView::Produce(record)
                && record.key.len() == 0
        },
{
    written_text_is_readable(key);
    written_text_is_readable(payload);
}

/// The key of a record is read alike whatever else the record holds.
pub proof fn key_alone_decides_the_key(a: InboundMessageView, b: InboundMessageView)
    requires
        a.key == b.key,
    ensures
        key_text(a) == key_text(b),
        a.key is None ==> key_text(a).len() == 0,
        a.key matches Some(bytes) ==> (if utf8::valid_utf8(bytes) {
            utf8::encode_utf8(key_text(a)) == bytes
        } else {
            key_text(a).len() == 0
        }),
{
    match a.key {
        Some(bytes) => {
            if utf8::valid_utf8(bytes) {
                utf8::decode_utf8_encode_utf8(bytes);
            }
        },
        None => {},
    }
}

/// Records with different text keys go on under different keys.
pub proof fn text_keys_stay_apart(
    a: InboundMessageView,
    b: InboundMessageView,
    key_a: Seq<char>,
    key_b: Seq<char>,
)
    requires
        a.key == Some(utf8::encode_utf8(key_a)),
        b.key == Some(utf8::encode_utf8(key_b)),
        key_text(a) == key_text(b),
    ensures
        key_a == key_b,
{
    written_text_is_readable(key_a);
    written_text_is_readable(key_b);
}

/// A field is read as a text exactly where it is there and is UTF-8, and the text
/// is the one that its bytes encode.
pub proof fn fields_are_read_as_they_were_written(bytes: Seq<u8>)
    ensures
        readable(None) is None,
        readable(Some(bytes)) is Some <==> utf8::valid_utf8(bytes),
        readable(Some(bytes)) matches Some(text) ==> utf8::encode_utf8(text) == bytes,
{
    if utf8::valid_utf8(bytes) {
        utf8::decode_utf8_encode_utf8(bytes);
    }
}

/// A time is kept as it is, whoever set it, and only a missing time, or the mark of
/// one, is none.
pub proof fn times_are_kept(time: i64)
    ensures
        millis(Timestamp::NotAvailable) is None,
        millis(Timestamp::CreateTime(time)) == millis(Timestamp::LogAppendTime(time)),
        millis(Timestamp::CreateTime(time)) is None <==> time == -1,
        millis(Timestamp::CreateTime(time)) matches Some(t) ==> t == time,
{
}

/// The output record of a text payload goes to the output topic and carries the
/// marker and the payload, whatever key and time the record has; a known time goes
/// with it and an unknown one does not.
pub proof fn output_record_of_a_text_payload(
    message: InboundMessageView,
    payload: Seq<char>,
    output_topic: Seq<char>,
)
    requires
        message.payload == Some(utf8::encode_utf8(payload)),
    ensures
        first_message_step(message, output_topic) matches MessageStepView::Produce(record) && {
            &&& record.topic == output_topic
            &&& record.payload.len() == 16 + payload.len()
            &&& record.payload.take(16) == "Mapped payload: "@
            &&& record.payload.skip(16) == payload
            &&& match message.timestamp {
                Timestamp::NotAvailable => record.timestamp is None,
                Timestamp::CreateTime(t) | Timestamp::LogAppendTime(t) => {
                    &&& t == -1 ==> record.timestamp is None
                    &&& t != -1 ==> record.timestamp == Some(t)
                },
            }
        },
{
    written_text_is_readable(payload);
    mapper::mapped_is_marker_then_payload(payload);
}

/// What the mapper made of a payload decides what is done: a mapped payload is
/// sent as it is, under the given key, time and topic; a dropped one has its offset
/// stored; a failed one is reported, in the same words whatever the failure was.
pub proof fn mapping_decides_the_route(
    payload: Seq<char>,
    failure: MappingErrorView,
    key: Seq<char>,
    timestamp: Option<i64>,
    output_topic: Seq<char>,
)
    ensures
        routed(Ok(Some(payload)), key, timestamp, output_topic) matches MessageStepView::Produce(
            record,
        ) && record.payload == payload && record.key == key && record.timestamp == timestamp
            && record.topic == output_topic,
        routed(Ok(None), key, timestamp, output_topic) == (MessageStepView::StoreOffset {
            produced: false,
        }),
        routed(Err(failure), key, timestamp, output_topic) matches MessageStepView::Done {
            result: Err(ProcessingErrorView::Mapping(MappingErrorView::Other(text))),
            counted: false,
        } && text == "unknown payload"@,
{
}

/// After a record was sent, its offset is stored where it was delivered, and
/// nothing more is done where it was not.
pub proof fn delivery_decides_the_store(first: MessageStepView, replies: Seq<MessageReply>)
    requires
        message_replay(first, replies) matches Some(step) && step is Produce,
    ensures
        message_replay(first, replies.push(MessageReply::Sent { delivered: true })) == Some(
            MessageStepView::StoreOffset { produced: true },
        ),
        message_replay(first, replies.push(MessageReply::Sent { delivered: false })) == Some(
            MessageStepView::Done { result: Ok(()), counted: false },
        ),
{
    assert(replies.push(MessageReply::Sent { delivered: true }).drop_last() =~= replies);
    assert(replies.push(MessageReply::Sent { delivered: false }).drop_last() =~= replies);
}

/// After an offset was stored the record is done with, and counts where it was
/// produced; where it could not be stored, the client's words are reported and the
/// record does not count.
pub proof fn storing_ends_the_record(
    first: MessageStepView,
    replies: Seq<MessageReply>,
    produced: bool,
    failure: Seq<char>,
)
    requires
        message_replay(first, replies) == Some(MessageStepView::StoreOffset { produced }),
    ensures
        message_replay(first, replies.push(MessageReply::Stored(Ok(())))) == Some(
            MessageStepView::Done { result: Ok(()), counted: produced },
        ),
        message_replay(first, replies.push(MessageReply::Stored(Err(failure)))) == Some(
            MessageStepView::Done {
                result: Err(ProcessingErrorView::Kafka(failure)),
                counted: false,
            },
        ),
{
    assert(replies.push(MessageReply::Stored(Ok(()))).drop_last() =~= replies);
    assert(replies.push(MessageReply::Stored(Err(failure))).drop_last() =~= replies);
}

/// A record begins at its first step, and one that is done with takes no reply.
pub proof fn records_begin_and_end(
    first: MessageStepView,
    replies: Seq<MessageReply>,
    reply: MessageReply,
)
    ensures
        message_replay(first, seq![]) == Some(first),
        message_replay(first, replies) matches Some(step) && step is Done ==> message_replay(
            first,
            replies.push(reply),
        ) is None,
{
    assert(replies.push(reply).drop_last() =~= replies);
}

/// The view of a record holds its bytes and its time.
pub proof fn message_views_tell_the_record(message: InboundMessage, bytes: Vec<u8>)
    ensures
        message.key is None ==> message@.key is None,
        message.key == Some(bytes) ==> message@.key == Some(bytes@),
        message.payload is None ==> message@.payload is None,
        message.payload == Some(bytes) ==> message@.payload == Some(bytes@),
        message@.timestamp == message.timestamp,
        optional_bytes(None) is None,
        optional_bytes(Some(bytes)) == Some(bytes@),
{
}

/// The view of a step tells the step and all that it holds.
pub proof fn step_views_tell_the_step(step: MessageStep)
    ensures
        match step {
            MessageStep::Produce(record) => step@ matches MessageStepView::Produce(view)
                && view.topic == record.topic@ && view.key == record.key@ && view.payload
                == record.payload@ && view.timestamp == record.timestamp,
            MessageStep::StoreOffset { produced } => step@ == (MessageStepView::StoreOffset {
                produced,
            }),
            MessageStep::Done { result: Ok(()), counted } => step@ == (MessageStepView::Done {
                result: Ok(()),
                counted,
            }),
            MessageStep::Done { result: Err(e), counted } => step@ == (MessageStepView::Done {
                result: Err(e@),
                counted,
            }),
        },
{
}

/// The views of what a mapper or the client returned tell success from failure and
/// keep the texts.
pub proof fn reply_views_tell_the_reply(text: String, failure: MappingError)
    ensures
        mapped_view(Ok(None)) == Ok::<Option<Seq<char>>, MappingErrorView>(None),
        mapped_view(Ok(Some(text))) == Ok::<Option<Seq<char>>, MappingErrorView>(Some(text@)),
        mapped_view(Err(failure)) == Err::<Option<Seq<char>>, MappingErrorView>(failure@),
        store_view(Ok(())) == Ok::<(), Seq<char>>(()),
        store_view(Err(text)) == Err::<(), Seq<char>>(text@),
{
}

/// Only a delivery leads to a stored offset, only a stored offset of a produced
/// record makes it count, and only a failed store is reported, in the client's
/// words.
pub proof fn replies_are_decisive(delivered: bool, produced: bool, result: Result<(), Seq<char>>)
    ensures
        delivered ==> sent(delivered) == (MessageStepView::StoreOffset { produced: true }),
        !delivered ==> sent(delivered) == (MessageStepView::Done {
            result: Ok(()),
            counted: false,
        }),
        stored(produced, result) matches MessageStepView::Done { result: reported, counted } && {
            &&& counted <==> produced && result is Ok
            &&& reported is Ok <==> result is Ok
            &&& result matches Err(failure) ==> reported == Err::<(), _>(
                ProcessingErrorView::Kafka(failure),
            )
        },
{
}

} // verus!
