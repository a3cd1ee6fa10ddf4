//! The life of the consumers: how many there are, what each is called, and when
//! one restarts or stops.
//!
//! A consumer is driven by steps. A `RunStep` says what to do next, and the
//! `RunEvent` that came of it decides the step after that.
use crate::config::{Kafka, KafkaView};
use crate::error::{self, MappingErrorView, ProcessingError, ProcessingErrorView};
use crate::message::{self, MessageStepView};
use crate::text;
use vstd::prelude::*;

verus! {

/// How long a consumer waits before it subscribes again, in seconds.
pub const RESTART_DELAY_SECS: u64 = 10;

/// What a consumer does next.
#[derive(Debug)]
pub enum RunStep {
    /// Create a consumer under this instance id and subscribe it to the topic.
    Subscribe { instance_id: String, topic: String },
    /// Process the records of the subscription, watching for cancellation.
    Stream,
    /// Unsubscribe, then wait for the delay, watching for cancellation.
    Restart { delay_secs: u64 },
    /// End this consumer, after unsubscribing and after cancelling every
    /// consumer where so told.
    Stop { unsubscribe: bool, cancel_all: bool },
}

/// What came of a step.
#[derive(Debug)]
pub enum RunEvent {
    /// The subscription was accepted.
    Subscribed,
    /// The subscription was refused.
    SubscribeFailed,
    /// The consumers were cancelled.
    Cancelled,
    /// The stream of records ended, by itself or with the first error.
    StreamEnded(Result<(), ProcessingError>),
    /// The delay passed.
    DelayElapsed,
}

/// What a `RunStep` says.
#[verifier::ext_equal]
pub enum RunStepView {
    Subscribe { instance_id: Seq<char>, topic: Seq<char> },
    Stream,
    Restart { delay_secs: int },
    Stop { unsubscribe: bool, cancel_all: bool },
}

/// What a `RunEvent` says.
pub enum RunEventView {
    Subscribed,
    SubscribeFailed,
    Cancelled,
    StreamEnded(Result<(), ProcessingErrorView>),
    DelayElapsed,
}

impl View for RunStep {
    type V = RunStepView;

    open spec fn view(&self) -> RunStepView {
        match *self {
            RunStep::Subscribe { instance_id, topic } => RunStepView::Subscribe {
                instance_id: instance_id@,
                topic: topic@,
            },
            RunStep::Stream => RunStepView::Stream,
            RunStep::Restart { delay_secs } => RunStepView::Restart {
                delay_secs: delay_secs as int,
            },
            RunStep::Stop { unsubscribe, cancel_all } => RunStepView::Stop {
                unsubscribe,
                cancel_all,
            },
        }
    }
}

impl View for RunEvent {
    type V = RunEventView;

    open spec fn view(&self) -> RunEventView {
        match *self {
            RunEvent::Subscribed => RunEventView::Subscribed,
            RunEvent::SubscribeFailed => RunEventView::SubscribeFailed,
            RunEvent::Cancelled => RunEventView::Cancelled,
            RunEvent::StreamEnded(result) => RunEventView::StreamEnded(error::outcome(result)),
            RunEvent::DelayElapsed => RunEventView::DelayElapsed,
        }
    }
}

/// The instance id of consumer `id` in `group`.
pub open spec fn instance_name(group: Seq<char>, id: int) -> Seq<char> {
    group + "_"@ + text::decimal(id)
}

/// The step with which consumer `id` begins.
pub open spec fn first_run_step(config: KafkaView, id: int) -> RunStepView {
    RunStepView::Subscribe {
        instance_id: instance_name(config.consumer_group, id),
        topic: config.input_topic,
    }
}

/// Whether `event` can come of `step`.
pub open spec fn event_fits(step: RunStepView, event: RunEventView) -> bool {
    match step {
        RunStepView::Subscribe { .. } => event is Subscribed || event is SubscribeFailed,
        RunStepView::Stream => event is Cancelled || event is StreamEnded,
        RunStepView::Restart { .. } => event is Cancelled || event is DelayElapsed,
        RunStepView::Stop { .. } => false,
    }
}

/// The step of consumer `id` that `event` leads to.
pub open spec fn run_step_after(config: KafkaView, id: int, event: RunEventView) -> RunStepView {
    match event {
        RunEventView::Subscribed => RunStepView::Stream,
        RunEventView::StreamEnded(Err(ProcessingErrorView::Mapping(_))) => RunStepView::Stop {
            unsubscribe: true,
            cancel_all: true,
        },
        RunEventView::StreamEnded(Err(ProcessingErrorView::Kafka(_))) => RunStepView::Restart {
            delay_secs: RESTART_DELAY_SECS as int,
        },
        RunEventView::DelayElapsed => first_run_step(config, id),
        RunEventView::SubscribeFailed
        | RunEventView::Cancelled
        | RunEventView::StreamEnded(Ok(())) => RunStepView::Stop {
            unsubscribe: false,
            cancel_all: false,
        },
    }
}

/// The step at which consumer `id` stands after `events`, or `None` where some
/// event cannot come of the step before it.
pub open spec fn run_replay(config: KafkaView, id: int, events: Seq<RunEventView>) -> Option<
    RunStepView,
>
    decreases events.len(),
{
    if events.len() == 0 {
        Some(first_run_step(config, id))
    } else {
        match run_replay(config, id, events.drop_last()) {
            Some(step) => if event_fits(step, events.last()) {
                Some(run_step_after(config, id, events.last()))
            } else {
                None
            },
            None => None,
        }
    }
}

/// Whether `step` cancels every consumer.
pub open spec fn cancels_all(step: RunStepView) -> bool {
    step matches RunStepView::Stop { cancel_all, .. } && cancel_all
}

/// Whether `event` is the end of the stream at a payload that could not be
/// mapped.
pub open spec fn mapping_failure(event: RunEventView) -> bool {
    event matches RunEventView::StreamEnded(Err(e)) && e is Mapping
}

/// Whether `event` is the end of the stream at a failure of the client.
pub open spec fn client_failure(event: RunEventView) -> bool {
    event matches RunEventView::StreamEnded(Err(e)) && e is Kafka
}

/// The ids of the consumers that `num_partitions` partitions get: one for each,
/// counted from one.
pub open spec fn ids(num_partitions: int) -> Seq<i32> {
    Seq::new(
        if num_partitions < 0 {
            0
        } else {
            num_partitions as nat
        },
        |i: int| (i + 1) as i32,
    )
}

/// The ids of the consumers to start for `num_partitions` partitions.
pub fn consumer_ids(num_partitions: i32) -> (r: Vec<i32>)
    ensures
        r@ == ids(num_partitions as int),
{
    let mut out: Vec<i32> = Vec::new();
    let mut id: i32 = 0;
    while id < num_partitions
        invariant
            0 <= id,
            id <= num_partitions || id == 0,
            out@ == ids(id as int),
        decreases num_partitions - id,
    {
        id = id + 1;
        out.push(id);
        assert(out@ =~= ids(id as int));
    }
    out
}

/// The instance id of consumer `id` in the group `group`.
pub fn instance_id(group: &str, id: i32) -> (r: String)
    ensures
        r@ == instance_name(group@, id as int),
{
    let number = text::decimal_text(id as i64);
    group.to_owned().concat("_").concat(number.as_str())
}

/// The step with which consumer `id` begins.
pub fn first_step(config: &Kafka, id: i32) -> (r: RunStep)
    ensures
        r@ == first_run_step(config@, id as int),
{
    RunStep::Subscribe {
        instance_id: instance_id(config.consumer_group.as_str(), id),
        topic: config.input_topic.clone(),
    }
}

/// The next step of consumer `id`, given what came of its last one.
///
/// A mapping failure ends every consumer, a client failure only delays this one,
/// and anything else that ends a step early ends this one alone.
pub fn next_step(config: &Kafka, id: i32, event: RunEvent) -> (r: RunStep)
    ensures
        r@ == run_step_after(config@, id as int, event@),
{
    match event {
        RunEvent::Subscribed => RunStep::Stream,
        RunEvent::SubscribeFailed => RunStep::Stop { unsubscribe: false, cancel_all: false },
        RunEvent::Cancelled => RunStep::Stop { unsubscribe: false, cancel_all: false },
        RunEvent::StreamEnded(Err(ProcessingError::Mapping(_))) => RunStep::Stop {
            unsubscribe: true,
            cancel_all: true,
        },
        RunEvent::StreamEnded(Err(ProcessingError::Kafka(_))) => RunStep::Restart {
            delay_secs: RESTART_DELAY_SECS,
        },
        RunEvent::StreamEnded(Ok(())) => RunStep::Stop { unsubscribe: false, cancel_all: false },
        RunEvent::DelayElapsed => first_step(config, id),
    }
}

/// The latency sample for a record that took `elapsed` milliseconds.
pub open spec fn latency_sample(elapsed: int) -> int {
    elapsed % 0x1_0000_0000_0000_0000
}

/// The latency sample for a record that took `elapsed` milliseconds: the low
/// bits of the number.
pub fn latency_millis(elapsed: u128) -> (r: u64)
    ensures
        r as int == elapsed as int % 0x1_0000_0000_0000_0000,
        r as int == latency_sample(elapsed as int),
{
    assert(elapsed as u64 == elapsed % 0x1_0000_0000_0000_0000) by (bit_vector);
    #[verifier::truncate]
    (elapsed as u64)
}

/// A consumer that stopped takes no further step.
pub proof fn stop_is_final(
    config: KafkaView,
    id: int,
    events: Seq<RunEventView>,
    event: RunEventView,
)
    requires
        run_replay(config, id, events) matches Some(step) && step is Stop,
    ensures
        run_replay(config, id, events.push(event)) is None,
{
    assert(events.push(event).drop_last() =~= events);
}

/// The consumers are all cancelled at a mapping failure and at nothing else.
pub proof fn only_mapping_failures_cancel_all(config: KafkaView, id: int, events: Seq<RunEventView>)
    requires
        run_replay(config, id, events) is Some,
    ensures
        cancels_all(run_replay(config, id, events)->0) <==> events.len() > 0 && mapping_failure(
            events.last(),
        ),
{
}

/// A consumer always subscribes under the same instance id to the same topic.
pub proof fn subscriptions_are_alike(config: KafkaView, id: int, events: Seq<RunEventView>)
    requires
        run_replay(config, id, events) matches Some(step) && step is Subscribe,
    ensures
        run_replay(config, id, events) == Some(first_run_step(config, id)),
{
}

/// A consumer subscribes again only after it unsubscribed and waited for the
/// restart delay, and it does so only after a client failure.
pub proof fn resubscribing_waits(config: KafkaView, id: int, events: Seq<RunEventView>)
    requires
        events.len() > 0,
        run_replay(config, id, events) matches Some(step) && step is Subscribe,
    ensures
        events.len() >= 2,
        events.last() is DelayElapsed,
        run_replay(config, id, events.drop_last()) == Some(
            RunStepView::Restart { delay_secs: RESTART_DELAY_SECS as int },
        ),
        client_failure(events.drop_last().last()),
{
    assert(event_fits(run_replay(config, id, events.drop_last())->0, events.last()));
}

/// A client failure ends no consumer: once the delay has passed, the consumer
/// stands where it began.
pub proof fn client_failure_recovers(
    config: KafkaView,
    id: int,
    events: Seq<RunEventView>,
    failure: Seq<char>,
)
    requires
        run_replay(config, id, events) == Some(RunStepView::Stream),
    ensures
        run_replay(
            config,
            id,
            events.push(
                RunEventView::StreamEnded(Err(ProcessingErrorView::Kafka(failure))),
            ).push(RunEventView::DelayElapsed),
        ) == Some(first_run_step(config, id)),
{
    let failed = events.push(RunEventView::StreamEnded(Err(ProcessingErrorView::Kafka(failure))));
    assert(failed.drop_last() =~= events);
    assert(run_replay(config, id, failed) is Some);
    assert(failed.push(RunEventView::DelayElapsed).drop_last() =~= failed);
}

/// A cancelled consumer stops, whether it streams or waits, and it disturbs no
/// other.
pub proof fn cancellation_stops(config: KafkaView, id: int, events: Seq<RunEventView>)
    requires
        run_replay(config, id, events) matches Some(step) && (step is Stream || step is Restart),
    ensures
        run_replay(config, id, events.push(RunEventView::Cancelled)) == Some(
            RunStepView::Stop { unsubscribe: false, cancel_all: false },
        ),
{
    assert(events.push(RunEventView::Cancelled).drop_last() =~= events);
}

/// Consumers of one group with different ids have different instance ids.
pub proof fn instance_names_differ(group: Seq<char>, a: int, b: int)
    requires
        a != b,
    ensures
        instance_name(group, a) != instance_name(group, b),
{
    if instance_name(group, a) == instance_name(group, b) {
        let start = (group + "_"@).len() as int;
        assert(instance_name(group, a).skip(start) =~= text::decimal(a));
        assert(instance_name(group, b).skip(start) =~= text::decimal(b));
        text::decimal_injective(a, b);
    }
}

/// There is one consumer for each partition, and no two of them share an
/// instance id.
pub proof fn consumers_are_distinct(config: KafkaView)
    requires
        config.num_partitions <= i32::MAX,
    ensures
        config.num_partitions >= 0 ==> ids(config.num_partitions).len() == config.num_partitions,
        config.num_partitions < 0 ==> ids(config.num_partitions).len() == 0,
        forall|i: int, j: int|
            #![trigger ids(config.num_partitions)[i], ids(config.num_partitions)[j]]
            0 <= i < j < ids(config.num_partitions).len() ==> instance_name(
                config.consumer_group,
                ids(config.num_partitions)[i] as int,
            ) != instance_name(config.consumer_group, ids(config.num_partitions)[j] as int),
{
    let all = ids(config.num_partitions);
    assert forall|i: int, j: int|
        #![trigger all[i], all[j]]
        0 <= i < j < all.len() implies instance_name(config.consumer_group, all[i] as int)
        != instance_name(config.consumer_group, all[j] as int) by {
        instance_names_differ(config.consumer_group, all[i] as int, all[j] as int);
    }
}

/// A payload that cannot be mapped ends this consumer and every other one.
pub proof fn unmapped_payload_stops_everyone(
    config: KafkaView,
    id: int,
    failure: MappingErrorView,
    key: Seq<char>,
    timestamp: Option<i64>,
)
    ensures
        message::routed(Err(failure), key, timestamp, config.output_topic) matches
            MessageStepView::Done { result, counted } && !counted && run_step_after(
            config,
            id,
            RunEventView::StreamEnded(result),
        ) == (RunStepView::Stop { unsubscribe: true, cancel_all: true }),
{
}

/// An offset that cannot be stored restarts this consumer after the delay.
pub proof fn unstored_offset_restarts(
    config: KafkaView,
    id: int,
    produced: bool,
    failure: Seq<char>,
)
    ensures
        message::stored(produced, Err(failure)) matches MessageStepView::Done { result, counted }
            && !counted && run_step_after(config, id, RunEventView::StreamEnded(result)) == (
        RunStepView::Restart { delay_secs: RESTART_DELAY_SECS as int }),
{
}

/// Every consumer, whatever its id, begins by subscribing, and each subscription
/// that it ever makes is to the input topic, under the group's name, an underscore
/// and its id.
pub proof fn subscriptions_read_the_input_topic(
    config: KafkaView,
    id: int,
    events: Seq<RunEventView>,
)
    ensures
        run_replay(config, id, seq![]) matches Some(step) && step is Subscribe,
        run_replay(config, id, events) matches Some(RunStepView::Subscribe { instance_id, topic })
            ==> {
            &&& topic == config.input_topic
            &&& instance_id == instance_name(config.consumer_group, id)
            &&& instance_id.len() > config.consumer_group.len() + 1
            &&& instance_id.take(config.consumer_group.len() as int) == config.consumer_group
            &&& instance_id[config.consumer_group.len() as int] == '_'
            &&& text::parsed(instance_id.skip(config.consumer_group.len() as int + 1)) == id
        },
{
    instance_names_come_apart(config.consumer_group, id);
}

/// An instance id can be taken apart again: the group, an underscore, the id.
pub proof fn instance_names_come_apart(group: Seq<char>, id: int)
    ensures
        instance_name(group, id).len() > group.len() + 1,
        instance_name(group, id).take(group.len() as int) == group,
        instance_name(group, id)[group.len() as int] == '_',
        instance_name(group, id).skip(group.len() as int + 1) == text::decimal(id),
        text::parsed(instance_name(group, id).skip(group.len() as int + 1)) == id,
{
    reveal_strlit("_");
    text::decimal_is_plain(id);
    text::decimal_is_read_back(id);
    assert(instance_name(group, id).take(group.len() as int) =~= group);
    assert(instance_name(group, id).skip(group.len() as int + 1) =~= text::decimal(id));
}

/// An accepted subscription leads every consumer to its stream; a refused one ends
/// it.
pub proof fn accepted_subscriptions_stream(config: KafkaView, id: int, events: Seq<RunEventView>)
    requires
        run_replay(config, id, events) matches Some(step) && step is Subscribe,
    ensures
        run_replay(config, id, events.push(RunEventView::Subscribed)) == Some(RunStepView::Stream),
        run_replay(config, id, events.push(RunEventView::SubscribeFailed)) == Some(
            RunStepView::Stop { unsubscribe: false, cancel_all: false },
        ),
{
    assert(events.push(RunEventView::Subscribed).drop_last() =~= events);
    assert(events.push(RunEventView::SubscribeFailed).drop_last() =~= events);
}

/// The end of the stream decides how a consumer goes on: a mapping failure ends it
/// and all others, a client failure has it wait ten seconds, and an end without
/// failure, or a cancellation, ends it alone.
pub proof fn ended_streams_are_told_apart(
    config: KafkaView,
    id: int,
    events: Seq<RunEventView>,
    mapping: MappingErrorView,
    failure: Seq<char>,
)
    requires
        run_replay(config, id, events) == Some(RunStepView::Stream),
    ensures
        run_replay(
            config,
            id,
            events.push(RunEventView::StreamEnded(Err(ProcessingErrorView::Mapping(mapping)))),
        ) == Some(RunStepView::Stop { unsubscribe: true, cancel_all: true }),
        run_replay(
            config,
            id,
            events.push(RunEventView::StreamEnded(Err(ProcessingErrorView::Kafka(failure)))),
        ) == Some(RunStepView::Restart { delay_secs: 10 }),
        run_replay(config, id, events.push(RunEventView::StreamEnded(Ok(())))) == Some(
            RunStepView::Stop { unsubscribe: false, cancel_all: false },
        ),
        run_replay(config, id, events.push(RunEventView::Cancelled)) == Some(
            RunStepView::Stop { unsubscribe: false, cancel_all: false },
        ),
{
    let a = RunEventView::StreamEnded(Err(ProcessingErrorView::Mapping(mapping)));
    let b = RunEventView::StreamEnded(Err(ProcessingErrorView::Kafka(failure)));
    assert(events.push(a).drop_last() =~= events);
    assert(events.push(b).drop_last() =~= events);
    assert(events.push(RunEventView::StreamEnded(Ok(()))).drop_last() =~= events);
    assert(events.push(RunEventView::Cancelled).drop_last() =~= events);
}

/// A consumer that waited subscribes again, exactly as it did at first; one that
/// is cancelled while it waits ends alone.
pub proof fn waiting_consumers_return(config: KafkaView, id: int, events: Seq<RunEventView>)
    requires
        run_replay(config, id, events) matches Some(step) && step is Restart,
    ensures
        run_replay(config, id, events.push(RunEventView::DelayElapsed)) == run_replay(
            config,
            id,
            seq![],
        ),
        run_replay(config, id, events.push(RunEventView::Cancelled)) == Some(
            RunStepView::Stop { unsubscribe: false, cancel_all: false },
        ),
{
    assert(events.push(RunEventView::DelayElapsed).drop_last() =~= events);
    assert(events.push(RunEventView::Cancelled).drop_last() =~= events);
}

/// What follows an event does not depend on which consumer it is or how it is
/// configured, but for the subscription after a delay, which is that with which the
/// consumer began. The consumer's own failures and those of the client are told
/// apart by their kind alone.
pub proof fn events_mean_the_same_to_all(
    config: KafkaView,
    id: int,
    other_config: KafkaView,
    other_id: int,
    event: RunEventView,
)
    ensures
        !(event is DelayElapsed) ==> run_step_after(config, id, event) == run_step_after(
            other_config,
            other_id,
            event,
        ),
        event is DelayElapsed ==> Some(run_step_after(config, id, event)) == run_replay(
            config,
            id,
            seq![],
        ),
        event is Subscribed <==> run_step_after(config, id, event) is Stream,
        event is DelayElapsed <==> run_step_after(config, id, event) is Subscribe,
        (event matches RunEventView::StreamEnded(Err(ProcessingErrorView::Kafka(_)))) <==> (
        run_step_after(config, id, event) is Restart),
        run_step_after(config, id, event) matches RunStepView::Restart { delay_secs } ==> delay_secs
            == 10,
        run_step_after(config, id, event) matches RunStepView::Stop { unsubscribe, cancel_all } ==> {
            &&& unsubscribe == cancel_all
            &&& cancel_all == (event matches RunEventView::StreamEnded(
                Err(ProcessingErrorView::Mapping(_)),
            ))
        },
{
}

/// The ids of the consumers are the numbers from one to the number of partitions,
/// each once and in ascending order.
pub proof fn ids_are_the_numbers_from_one(num_partitions: int, id: int)
    requires
        num_partitions <= i32::MAX,
    ensures
        (exists|i: int| 0 <= i < ids(num_partitions).len() && #[trigger] ids(num_partitions)[i] == id)
            <==> 1 <= id <= num_partitions,
        forall|i: int, j: int|
            0 <= i < j < ids(num_partitions).len() ==> ids(num_partitions)[i] < ids(
                num_partitions,
            )[j],
{
    if 1 <= id <= num_partitions {
        assert(ids(num_partitions)[id - 1] == id);
    }
}

/// A latency sample is the elapsed time, and starts again from zero where the time
/// no longer fits.
pub proof fn latency_samples_wrap(elapsed: int)
    requires
        elapsed >= 0,
    ensures
        elapsed <= u64::MAX ==> latency_sample(elapsed) == elapsed,
        latency_sample(elapsed + u64::MAX + 1) == latency_sample(elapsed),
        0 <= latency_sample(elapsed) <= u64::MAX,
{
}

/// The views of a step and of an event tell them, with all that they hold.
pub proof fn run_views_tell_steps_and_events(step: RunStep, event: RunEvent)
    ensures
        match step {
            RunStep::Subscribe { instance_id, topic } => step@ matches RunStepView::Subscribe {
                instance_id: name,
                topic: read,
            } && name == instance_id@ && read == topic@,
            RunStep::Stream => step@ is Stream,
            RunStep::Restart { delay_secs } => step@ == (RunStepView::Restart {
                delay_secs: delay_secs as int,
            }),
            RunStep::Stop { unsubscribe, cancel_all } => step@ == (RunStepView::Stop {
                unsubscribe,
                cancel_all,
            }),
        },
        match event {
            RunEvent::Subscribed => event@ is Subscribed,
            RunEvent::SubscribeFailed => event@ is SubscribeFailed,
            RunEvent::Cancelled => event@ is Cancelled,
            RunEvent::StreamEnded(Ok(())) => event@ == RunEventView::StreamEnded(Ok(())),
            RunEvent::StreamEnded(Err(e)) => event@ == RunEventView::StreamEnded(Err(e@)),
            RunEvent::DelayElapsed => event@ is DelayElapsed,
        },
{
}

} // verus!
