//! Lists of topic partitions, as readable text.
//!
//! A list is rendered topic by topic. The topics come in the order in which a hash
//! map is walked, so a list with several topics has several renderings; the
//! contracts say what holds of each of them.
use crate::text;
use itertools::Itertools;
use rdkafka::{Offset, TopicPartitionList};
use vstd::prelude::*;
use vstd::utf8;

verus! {

/// rdkafka's list of topic partitions.
#[verifier::external_type_specification]
#[verifier::external_body]
pub struct ExTopicPartitionList(TopicPartitionList);

/// An offset in a partition.
#[derive(Clone, Copy, Debug)]
pub enum PartitionOffset {
    /// The beginning of the partition.
    Beginning,
    /// The end of the partition.
    End,
    /// The offset that was stored last.
    Stored,
    /// No offset.
    Invalid,
    /// This very offset.
    At(i64),
    /// So many records before the end.
    Tail(i64),
}

/// An element of a list of topic partitions.
#[derive(Debug)]
pub struct TopicPartition {
    pub topic: String,
    pub partition: i32,
    pub offset: PartitionOffset,
}

/// What a `TopicPartition` holds.
pub struct TopicPartitionView {
    pub topic: Seq<char>,
    pub partition: i32,
    pub offset: PartitionOffset,
}

/// An element of a list as the client library keeps it, its topic in bytes.
pub struct ListedPartition {
    pub topic: Seq<u8>,
    pub partition: i32,
    pub offset: PartitionOffset,
}

impl View for TopicPartition {
    type V = TopicPartitionView;

    open spec fn view(&self) -> TopicPartitionView {
        TopicPartitionView {
            topic: self.topic@,
            partition: self.partition,
            offset: self.offset,
        }
    }
}

/// The elements that a list holds, in order.
pub uninterp spec fn list_contents(list: TopicPartitionList) -> Seq<ListedPartition>;

/// Whether every topic is UTF-8 text. So it is in every list that was built from
/// strings.
pub open spec fn topics_are_text(contents: Seq<ListedPartition>) -> bool {
    forall|i: int| 0 <= i < contents.len() ==> utf8::valid_utf8(#[trigger] contents[i].topic)
}

/// The elements of a list, with their topics as text.
pub open spec fn listed(contents: Seq<ListedPartition>) -> Seq<TopicPartitionView> {
    contents.map_values(
        |e: ListedPartition|
            TopicPartitionView {
                topic: utf8::decode_utf8(e.topic),
                partition: e.partition,
                offset: e.offset,
            },
    )
}

/// The views of elements.
pub open spec fn entry_views(entries: Seq<TopicPartition>) -> Seq<TopicPartitionView> {
    entries.map_values(|e: TopicPartition| e@)
}

/// The views of pairs of texts.
pub open spec fn pair_views(pairs: Seq<(String, String)>) -> Seq<(Seq<char>, Seq<char>)> {
    pairs.map_values(|p: (String, String)| (p.0@, p.1@))
}

/// The views of groups of texts.
pub open spec fn group_views(groups: Seq<(String, Vec<String>)>) -> Seq<
    (Seq<char>, Seq<Seq<char>>),
> {
    groups.map_values(|g: (String, Vec<String>)| (g.0@, text::texts(g.1@)))
}

/// The elements of a list, with the topics as text, read through rdkafka's
/// `TopicPartitionList::elements` and the `topic`, `partition` and `offset` of
/// each element.
///
/// Those calls give the elements in the order of the list. `topic` panics on bytes
/// that are not UTF-8, so such a list is left out. The library keeps no element
/// after this call and writes through none.
#[verifier::external_body]
fn elements(list: &TopicPartitionList) -> (r: Vec<TopicPartition>)
    requires
        topics_are_text(list_contents(*list)),
    ensures
        entry_views(r@) == listed(list_contents(*list)),
{
    list.elements().iter().map(|e| TopicPartition {
        topic: e.topic().to_owned(),
        partition: e.partition(),
        offset: match e.offset() {
            Offset::Beginning => PartitionOffset::Beginning,
            Offset::End => PartitionOffset::End,
            Offset::Stored => PartitionOffset::Stored,
            Offset::Invalid => PartitionOffset::Invalid,
            Offset::Offset(o) => PartitionOffset::At(o),
            Offset::OffsetTail(o) => PartitionOffset::Tail(o),
        },
    }).collect()
}

/// The pairs with the key `key`, in order.
pub open spec fn with_key(pairs: Seq<(Seq<char>, Seq<char>)>, key: Seq<char>) -> Seq<
    (Seq<char>, Seq<char>),
> {
    pairs.filter(|p: (Seq<char>, Seq<char>)| p.0 == key)
}

/// The values of all pairs, in order.
pub open spec fn all_values(pairs: Seq<(Seq<char>, Seq<char>)>) -> Seq<Seq<char>> {
    pairs.map_values(|p: (Seq<char>, Seq<char>)| p.1)
}

/// The values that `pairs` holds for `key`, in order.
pub open spec fn values_of(pairs: Seq<(Seq<char>, Seq<char>)>, key: Seq<char>) -> Seq<Seq<char>> {
    all_values(with_key(pairs, key))
}

/// Whether `groups` is a grouping of `pairs`: one group for each key that occurs,
/// with all the values for that key, in order.
pub open spec fn is_grouping(
    pairs: Seq<(Seq<char>, Seq<char>)>,
    groups: Seq<(Seq<char>, Seq<Seq<char>>)>,
) -> bool {
    &&& forall|i: int, j: int|
        0 <= i < j < groups.len() ==> (#[trigger] groups[i]).0 != (#[trigger] groups[j]).0
    &&& forall|i: int|
        0 <= i < groups.len() ==> (#[trigger] groups[i]).1 == values_of(pairs, groups[i].0)
            && groups[i].1.len() > 0
    &&& forall|k: int|
        0 <= k < pairs.len() ==> exists|i: int|
            0 <= i < groups.len() && (#[trigger] groups[i]).0 == (#[trigger] pairs[k]).0
}

/// Groups pairs by their first texts, by itertools' `Itertools::into_group_map`.
///
/// That call gives a hash map from each key to the values that came with it, in
/// the order in which they came. The groups are handed out in the order in which
/// the map is walked, of which nothing is said.
#[verifier::external_body]
fn group_by_key(pairs: Vec<(String, String)>) -> (r: Vec<(String, Vec<String>)>)
    ensures
        is_grouping(pair_views(pairs@), group_views(r@)),
{
    pairs.into_iter().into_group_map().into_iter().collect()
}

/// The topic and the partition number of each element.
pub open spec fn partition_pairs(entries: Seq<TopicPartitionView>) -> Seq<(Seq<char>, Seq<char>)> {
    entries.map_values(|e: TopicPartitionView| (e.topic, text::decimal(e.partition as int)))
}

/// The topic and the offset of each element that stands at a definite offset.
pub open spec fn offset_pairs(entries: Seq<TopicPartitionView>) -> Seq<(Seq<char>, Seq<char>)> {
    entries.filter(|e: TopicPartitionView| e.offset is At).map_values(
        |e: TopicPartitionView| (e.topic, text::decimal(e.offset->At_0 as int)),
    )
}

/// The text of one group.
pub open spec fn group_text(label: Seq<char>, group: (Seq<char>, Seq<Seq<char>>)) -> Seq<char> {
    "topic: "@ + group.0 + ", "@ + label + ": ["@ + text::spaced(group.1) + "]"@
}

/// The texts of the groups, one after the other.
pub open spec fn rendered(label: Seq<char>, groups: Seq<(Seq<char>, Seq<Seq<char>>)>) -> Seq<char>
    decreases groups.len(),
{
    if groups.len() == 0 {
        seq![]
    } else {
        rendered(label, groups.drop_last()) + group_text(label, groups.last())
    }
}

/// Whether `out` renders some grouping of `pairs`.
pub open spec fn renders(
    label: Seq<char>,
    pairs: Seq<(Seq<char>, Seq<char>)>,
    out: Seq<char>,
) -> bool {
    exists|groups: Seq<(Seq<char>, Seq<Seq<char>>)>|
        #[trigger] is_grouping(pairs, groups) && out == rendered(label, groups)
}

/// Whether `out` tells the partitions of `entries`, topic by topic.
pub open spec fn partitions_told(entries: Seq<TopicPartitionView>, out: Seq<char>) -> bool {
    renders("partition(s)"@, partition_pairs(entries), out)
}

/// Whether `out` tells the definite offsets of `entries`, topic by topic.
pub open spec fn offsets_told(entries: Seq<TopicPartitionView>, out: Seq<char>) -> bool {
    renders("offset(s)"@, offset_pairs(entries), out)
}

/// Renders groups of texts.
pub fn render_groups(label: &str, groups: &Vec<(String, Vec<String>)>) -> (r: String)
    ensures
        r@ == rendered(label@, group_views(groups@)),
{
    let mut out = String::new();
    for i in 0..groups.len()
        invariant
            out@ == rendered(label@, group_views(groups@).take(i as int)),
    {
        let ghost before = out@;
        let values = text::spaced_text(&groups[i].1);
        out.append("topic: ");
        out.append(groups[i].0.as_str());
        out.append(", ");
        out.append(label);
        out.append(": [");
        out.append(values.as_str());
        out.append("]");
        assert(group_views(groups@).take(i + 1).drop_last() =~= group_views(groups@).take(
            i as int,
        ));
        assert(out@ =~= before + group_text(label@, group_views(groups@)[i as int]));
    }
    assert(group_views(groups@).take(groups@.len() as int) =~= group_views(groups@));
    out
}

/// Renders the partitions of `entries`, topic by topic.
pub fn describe_partitions(entries: &Vec<TopicPartition>) -> (r: String)
    ensures
        renders("partition(s)"@, partition_pairs(entry_views(entries@)), r@),
        partitions_told(entry_views(entries@), r@),
{
    let mut pairs: Vec<(String, String)> = Vec::new();
    for i in 0..entries.len()
        invariant
            pair_views(pairs@) == partition_pairs(entry_views(entries@).take(i as int)),
    {
        let ghost before = pairs@;
        let ghost views = entry_views(entries@);
        let number = text::decimal_text(entries[i].partition as i64);
        pairs.push((entries[i].topic.clone(), number));
        proof {
            let added = (views[i as int].topic, text::decimal(views[i as int].partition as int));
            assert(pair_views(pairs@) =~= pair_views(before).push(added));
            assert(partition_pairs(views.take(i + 1)) =~= partition_pairs(
                views.take(i as int),
            ).push(added));
        }
    }
    assert(entry_views(entries@).take(entries@.len() as int) =~= entry_views(entries@));
    let groups = group_by_key(pairs);
    render_groups("partition(s)", &groups)
}

/// Renders the definite offsets of `entries`, topic by topic.
pub fn describe_offsets(entries: &Vec<TopicPartition>) -> (r: String)
    ensures
        renders("offset(s)"@, offset_pairs(entry_views(entries@)), r@),
        offsets_told(entry_views(entries@), r@),
{
    let mut pairs: Vec<(String, String)> = Vec::new();
    for i in 0..entries.len()
        invariant
            pair_views(pairs@) == offset_pairs(entry_views(entries@).take(i as int)),
    {
        let ghost before = pairs@;
        let ghost views = entry_views(entries@);
        proof {
            reveal(Seq::filter);
            assert(views.take(i + 1).drop_last() =~= views.take(i as int));
        }
        match entries[i].offset {
            PartitionOffset::At(offset) => {
                let number = text::decimal_text(offset);
                pairs.push((entries[i].topic.clone(), number));
                proof {
                    let added = (views[i as int].topic, text::decimal(offset as int));
                    assert(pair_views(pairs@) =~= pair_views(before).push(added));
                    assert(offset_pairs(views.take(i + 1)) =~= offset_pairs(
                        views.take(i as int),
                    ).push(added));
                }
            },
            _ => {},
        }
    }
    assert(entry_views(entries@).take(entries@.len() as int) =~= entry_views(entries@));
    let groups = group_by_key(pairs);
    render_groups("offset(s)", &groups)
}

/// Renders the partitions of a list, topic by topic.
pub fn format_topic_partitions(topic_parts: &TopicPartitionList) -> (r: String)
    requires
        topics_are_text(list_contents(*topic_parts)),
    ensures
        renders("partition(s)"@, partition_pairs(listed(list_contents(*topic_parts))), r@),
        partitions_told(listed(list_contents(*topic_parts)), r@),
{
    describe_partitions(&elements(topic_parts))
}

/// Renders the definite offsets of a list, topic by topic.
pub fn format_offsets_from_parts(topic_parts: &TopicPartitionList) -> (r: String)
    requires
        topics_are_text(list_contents(*topic_parts)),
    ensures
        renders("offset(s)"@, offset_pairs(listed(list_contents(*topic_parts))), r@),
        offsets_told(listed(list_contents(*topic_parts)), r@),
{
    describe_offsets(&elements(topic_parts))
}

/// A change in the partitions that a consumer reads.
pub enum RebalanceEvent<'a> {
    /// These partitions were assigned.
    Assign(&'a TopicPartitionList),
    /// These partitions were revoked.
    Revoke(&'a TopicPartitionList),
    /// The change failed with this text.
    Error(String),
}

/// Whether `out` tells of a change of partitions.
pub open spec fn rebalance_told(rebalance: RebalanceEvent, out: Seq<char>) -> bool {
    match rebalance {
        RebalanceEvent::Assign(list) => exists|inner: Seq<char>| #[trigger]
            renders("partition(s)"@, partition_pairs(listed(list_contents(*list))), inner) && out
                == "assign "@ + inner,
        RebalanceEvent::Revoke(list) => exists|inner: Seq<char>| #[trigger]
            renders("partition(s)"@, partition_pairs(listed(list_contents(*list))), inner) && out
                == "revoke "@ + inner,
        RebalanceEvent::Error(text) => out == "error: "@ + text@,
    }
}

/// Renders a change of partitions.
pub fn format_rebalance(rebalance: &RebalanceEvent) -> (r: String)
    requires
        rebalance matches RebalanceEvent::Assign(list) ==> topics_are_text(list_contents(**list)),
        rebalance matches RebalanceEvent::Revoke(list) ==> topics_are_text(list_contents(**list)),
    ensures
        match rebalance {
            RebalanceEvent::Assign(list) => exists|out: Seq<char>| #[trigger]
                renders("partition(s)"@, partition_pairs(listed(list_contents(**list))), out) && r@ == "assign "@
                    + out,
            RebalanceEvent::Revoke(list) => exists|out: Seq<char>| #[trigger]
                renders("partition(s)"@, partition_pairs(listed(list_contents(**list))), out) && r@ == "revoke "@
                    + out,
            RebalanceEvent::Error(text) => r@ == "error: "@ + text@,
        },
        rebalance_told(*rebalance, r@),
{
    match rebalance {
        RebalanceEvent::Assign(list) => {
            "assign ".to_owned().concat(format_topic_partitions(list).as_str())
        },
        RebalanceEvent::Revoke(list) => {
            "revoke ".to_owned().concat(format_topic_partitions(list).as_str())
        },
        RebalanceEvent::Error(text) => "error: ".to_owned().concat(text.as_str()),
    }
}

/// Two groupings of the same pairs hold the same groups and differ at most in
/// their order.
pub proof fn groupings_agree(
    pairs: Seq<(Seq<char>, Seq<char>)>,
    a: Seq<(Seq<char>, Seq<Seq<char>>)>,
    b: Seq<(Seq<char>, Seq<Seq<char>>)>,
)
    requires
        is_grouping(pairs, a),
        is_grouping(pairs, b),
    ensures
        a.no_duplicates(),
        a.len() == b.len(),
        a.to_set() == b.to_set(),
{
    lemma_groups_found(pairs, a, b);
    lemma_groups_found(pairs, b, a);
    assert(a.to_set() =~= b.to_set());
    a.unique_seq_to_set();
    b.unique_seq_to_set();
}

/// Each group of one grouping is a group of the other.
proof fn lemma_groups_found(
    pairs: Seq<(Seq<char>, Seq<char>)>,
    a: Seq<(Seq<char>, Seq<Seq<char>>)>,
    b: Seq<(Seq<char>, Seq<Seq<char>>)>,
)
    requires
        is_grouping(pairs, a),
        is_grouping(pairs, b),
    ensures
        forall|i: int| 0 <= i < a.len() ==> b.contains(#[trigger] a[i]),
{
    assert forall|i: int| 0 <= i < a.len() implies b.contains(#[trigger] a[i]) by {
        lemma_key_occurs(pairs, a[i].0);
        let k = choose|k: int| 0 <= k < pairs.len() && (#[trigger] pairs[k]).0 == a[i].0;
        let j = choose|j: int| 0 <= j < b.len() && (#[trigger] b[j]).0 == pairs[k].0;
        assert(b[j].1 == values_of(pairs, b[j].0));
        assert(b[j] == a[i]);
    }
}

/// A key that has a value occurs.
proof fn lemma_key_occurs(pairs: Seq<(Seq<char>, Seq<char>)>, key: Seq<char>)
    requires
        values_of(pairs, key).len() > 0,
    ensures
        exists|k: int| 0 <= k < pairs.len() && (#[trigger] pairs[k]).0 == key,
    decreases pairs.len(),
{
    reveal(Seq::filter);
    if pairs.last().0 == key {
        assert(pairs[pairs.len() - 1].0 == key);
    } else {
        lemma_key_occurs(pairs.drop_last(), key);
        let k = choose|k: int|
            0 <= k < pairs.drop_last().len() && (#[trigger] pairs.drop_last()[k]).0 == key;
        assert(pairs[k].0 == key);
    }
}

/// Where all pairs have one key, the pairs with that key are all the pairs.
proof fn lemma_single_key(pairs: Seq<(Seq<char>, Seq<char>)>, key: Seq<char>)
    requires
        forall|k: int| 0 <= k < pairs.len() ==> (#[trigger] pairs[k]).0 == key,
    ensures
        with_key(pairs, key) == pairs,
    decreases pairs.len(),
{
    reveal(Seq::filter);
    if pairs.len() > 0 {
        assert forall|k: int| 0 <= k < pairs.drop_last().len() implies (
        #[trigger] pairs.drop_last()[k]).0 == key by {
            assert(pairs[k].0 == key);
        }
        lemma_single_key(pairs.drop_last(), key);
        assert(pairs[pairs.len() - 1].0 == key);
    }
    assert(with_key(pairs, key) =~= pairs);
}

/// A list of a single topic has exactly one rendering.
pub proof fn one_topic_has_one_rendering(
    label: Seq<char>,
    pairs: Seq<(Seq<char>, Seq<char>)>,
    topic: Seq<char>,
    out: Seq<char>,
)
    requires
        pairs.len() > 0,
        forall|k: int| 0 <= k < pairs.len() ==> (#[trigger] pairs[k]).0 == topic,
        renders(label, pairs, out),
    ensures
        out == group_text(label, (topic, all_values(pairs))),
{
    let groups = choose|groups: Seq<(Seq<char>, Seq<Seq<char>>)>|
        #[trigger] is_grouping(pairs, groups) && out == rendered(label, groups);
    assert(pairs[0].0 == topic);
    assert forall|i: int| 0 <= i < groups.len() implies (#[trigger] groups[i]).0 == topic by {
        lemma_key_occurs(pairs, groups[i].0);
    }
    if groups.len() > 1 {
        assert(groups[0].0 != groups[1].0);
    }
    assert(groups.len() == 1);
    lemma_single_key(pairs, topic);
    assert(groups[0] == (topic, all_values(pairs)));
    assert(rendered(label, groups.drop_last()) =~= seq![]);
    assert(out =~= group_text(label, groups[0]));
}

/// A list of no elements has the empty text for its rendering.
pub proof fn nothing_renders_as_nothing(label: Seq<char>, out: Seq<char>)
    requires
        renders(label, seq![], out),
    ensures
        out.len() == 0,
{
    let pairs: Seq<(Seq<char>, Seq<char>)> = seq![];
    let groups = choose|groups: Seq<(Seq<char>, Seq<Seq<char>>)>|
        #[trigger] is_grouping(pairs, groups) && out == rendered(label, groups);
    if groups.len() > 0 {
        assert(groups[0].1.len() > 0);
        lemma_key_occurs(pairs, groups[0].0);
    }
}

/// The telling of a change is one word that says what happened, and then the
/// partitions, or the failure in its own words.
pub proof fn rebalances_say_what_happened(
    list: &TopicPartitionList,
    failure: String,
    out: Seq<char>,
)
    ensures
        rebalance_told(RebalanceEvent::Assign(list), out) ==> {
            &&& out.take(7) == "assign "@
            &&& renders(
                "partition(s)"@,
                partition_pairs(listed(list_contents(*list))),
                out.skip(7),
            )
        },
        rebalance_told(RebalanceEvent::Revoke(list), out) ==> {
            &&& out.take(7) == "revoke "@
            &&& renders(
                "partition(s)"@,
                partition_pairs(listed(list_contents(*list))),
                out.skip(7),
            )
        },
        rebalance_told(RebalanceEvent::Error(failure), out) ==> {
            &&& out.take(7) == "error: "@
            &&& out.skip(7) == failure@
        },
{
    reveal_strlit("assign ");
    reveal_strlit("revoke ");
    reveal_strlit("error: ");
    let pairs = partition_pairs(listed(list_contents(*list)));
    if rebalance_told(RebalanceEvent::Assign(list), out) {
        let inner = choose|inner: Seq<char>| #[trigger]
            renders("partition(s)"@, pairs, inner) && out == "assign "@ + inner;
        assert(out.take(7) =~= "assign "@);
        assert(out.skip(7) =~= inner);
    }
    if rebalance_told(RebalanceEvent::Revoke(list), out) {
        let inner = choose|inner: Seq<char>| #[trigger]
            renders("partition(s)"@, pairs, inner) && out == "revoke "@ + inner;
        assert(out.take(7) =~= "revoke "@);
        assert(out.skip(7) =~= inner);
    }
    if rebalance_told(RebalanceEvent::Error(failure), out) {
        assert(out.take(7) =~= "error: "@);
        assert(out.skip(7) =~= failure@);
    }
}

/// The views of elements, pairs and groups tell each of them, in order.
pub proof fn list_views_tell_the_elements(
    entries: Seq<TopicPartition>,
    pairs: Seq<(String, String)>,
    groups: Seq<(String, Vec<String>)>,
)
    ensures
        entry_views(entries).len() == entries.len(),
        forall|i: int|
            0 <= i < entries.len() ==> {
                &&& (#[trigger] entry_views(entries)[i]).topic == entries[i].topic@
                &&& entry_views(entries)[i].partition == entries[i].partition
                &&& entry_views(entries)[i].offset == entries[i].offset
            },
        pair_views(pairs).len() == pairs.len(),
        forall|i: int|
            0 <= i < pairs.len() ==> (#[trigger] pair_views(pairs)[i]).0 == pairs[i].0@
                && pair_views(pairs)[i].1 == pairs[i].1@,
        group_views(groups).len() == groups.len(),
        forall|i: int|
            0 <= i < groups.len() ==> (#[trigger] group_views(groups)[i]).0 == groups[i].0@
                && group_views(groups)[i].1 == text::texts(groups[i].1@),
{
}

/// The elements of a list keep their order, partitions and offsets, and their
/// topics are the texts that the bytes encode.
pub proof fn listed_elements_keep_their_place(contents: Seq<ListedPartition>)
    requires
        topics_are_text(contents),
    ensures
        listed(contents).len() == contents.len(),
        forall|i: int|
            0 <= i < contents.len() ==> {
                &&& (#[trigger] listed(contents)[i]).partition == contents[i].partition
                &&& listed(contents)[i].offset == contents[i].offset
                &&& utf8::encode_utf8(listed(contents)[i].topic) == contents[i].topic
            },
{
    assert forall|i: int| 0 <= i < contents.len() implies {
        &&& (#[trigger] listed(contents)[i]).partition == contents[i].partition
        &&& listed(contents)[i].offset == contents[i].offset
        &&& utf8::encode_utf8(listed(contents)[i].topic) == contents[i].topic
    } by {
        utf8::decode_utf8_encode_utf8(contents[i].topic);
    }
}

/// A list is fit for rendering exactly where each of its topics is text.
pub proof fn lists_of_texts_are_fit(contents: Seq<ListedPartition>, topics: Seq<Seq<char>>)
    requires
        topics.len() == contents.len(),
        forall|i: int|
            0 <= i < contents.len() ==> (#[trigger] contents[i]).topic == utf8::encode_utf8(
                topics[i],
            ),
    ensures
        topics_are_text(contents),
        forall|i: int| 0 <= i < contents.len() ==> (#[trigger] listed(contents)[i]).topic == topics[i],
{
    assert forall|i: int| 0 <= i < contents.len() implies utf8::valid_utf8(
        #[trigger] contents[i].topic,
    ) && listed(contents)[i].topic == topics[i] by {
        utf8::encode_utf8_valid_utf8(topics[i]);
        utf8::encode_utf8_decode_utf8(topics[i]);
    }
}

/// Each element of a list is told once, in its place, by its topic and the number
/// of its partition.
pub proof fn partitions_are_told_one_by_one(entries: Seq<TopicPartitionView>)
    ensures
        partition_pairs(entries).len() == entries.len(),
        forall|i: int|
            0 <= i < entries.len() ==> {
                &&& (#[trigger] partition_pairs(entries)[i]).0 == entries[i].topic
                &&& partition_pairs(entries)[i].1 == text::decimal(entries[i].partition as int)
                &&& text::parsed(partition_pairs(entries)[i].1) == entries[i].partition
            },
{
    assert forall|i: int| 0 <= i < entries.len() implies {
        &&& (#[trigger] partition_pairs(entries)[i]).0 == entries[i].topic
        &&& partition_pairs(entries)[i].1 == text::decimal(entries[i].partition as int)
        &&& text::parsed(partition_pairs(entries)[i].1) == entries[i].partition
    } by {
        text::decimal_is_read_back(entries[i].partition as int);
    }
}

/// An element at a definite offset is told by its topic and that offset, and any
/// other element is passed over.
pub proof fn definite_offsets_are_told(entry: TopicPartitionView)
    ensures
        entry.offset matches PartitionOffset::At(offset) ==> {
            &&& offset_pairs(seq![entry]).len() == 1
            &&& offset_pairs(seq![entry])[0].0 == entry.topic
            &&& offset_pairs(seq![entry])[0].1 == text::decimal(offset as int)
            &&& text::parsed(offset_pairs(seq![entry])[0].1) == offset
        },
        !(entry.offset is At) ==> offset_pairs(seq![entry]).len() == 0,
        offset_pairs(seq![]).len() == 0,
{
    reveal(Seq::filter);
    let none: Seq<TopicPartitionView> = seq![];
    assert(seq![entry].drop_last() =~= none);
    let told = |e: TopicPartitionView| e.offset is At;
    assert(none.filter(told) =~= none);
    if entry.offset is At {
        assert(seq![entry].filter(told) =~= seq![entry]);
        text::decimal_is_read_back(entry.offset->At_0 as int);
    } else {
        assert(seq![entry].filter(told) =~= none);
    }
}

/// What is told of a list is what is told of its beginning and then of its rest.
pub proof fn offsets_are_told_in_order(a: Seq<TopicPartitionView>, b: Seq<TopicPartitionView>)
    ensures
        offset_pairs(a + b) == offset_pairs(a) + offset_pairs(b),
{
    Seq::filter_distributes_over_add(a, b, |e: TopicPartitionView| e.offset is At);
    assert(offset_pairs(a + b) =~= offset_pairs(a) + offset_pairs(b));
}

/// The values for a key are those of the pairs with that key, in their order.
pub proof fn values_follow_their_key(
    a: Seq<(Seq<char>, Seq<char>)>,
    b: Seq<(Seq<char>, Seq<char>)>,
    pair: (Seq<char>, Seq<char>),
    key: Seq<char>,
)
    ensures
        values_of(seq![], key).len() == 0,
        pair.0 == key ==> values_of(seq![pair], key) == seq![pair.1],
        pair.0 != key ==> values_of(seq![pair], key).len() == 0,
        values_of(a + b, key) == values_of(a, key) + values_of(b, key),
{
    reveal(Seq::filter);
    let none: Seq<(Seq<char>, Seq<char>)> = seq![];
    assert(seq![pair].drop_last() =~= none);
    assert(with_key(none, key) =~= none);
    if pair.0 == key {
        assert(with_key(seq![pair], key) =~= seq![pair]);
        assert(values_of(seq![pair], key) =~= seq![pair.1]);
    } else {
        assert(with_key(seq![pair], key) =~= none);
    }
    Seq::filter_distributes_over_add(a, b, |p: (Seq<char>, Seq<char>)| p.0 == key);
    assert(values_of(a + b, key) =~= values_of(a, key) + values_of(b, key));
}

/// Groups are rendered one after the other, with nothing between them.
pub proof fn groups_are_rendered_one_by_one(
    label: Seq<char>,
    a: Seq<(Seq<char>, Seq<Seq<char>>)>,
    b: Seq<(Seq<char>, Seq<Seq<char>>)>,
)
    ensures
        rendered(label, a + b) == rendered(label, a) + rendered(label, b),
    decreases b.len(),
{
    if b.len() == 0 {
        assert(a + b =~= a);
        assert(rendered(label, a + b) =~= rendered(label, a) + rendered(label, b));
    } else {
        assert((a + b).drop_last() =~= a + b.drop_last());
        groups_are_rendered_one_by_one(label, a, b.drop_last());
        assert(rendered(label, a + b) =~= rendered(label, a) + rendered(label, b));
    }
}

/// A single group is rendered as its topic and, in brackets behind the label, its
/// values; no groups are rendered as the empty text.
pub proof fn one_group_is_rendered_in_full(
    label: Seq<char>,
    topic: Seq<char>,
    values: Seq<Seq<char>>,
)
    ensures
        rendered(label, seq![(topic, values)]) == "topic: "@ + topic + ", "@ + label + ": ["@
            + text::spaced(values) + "]"@,
        rendered(label, seq![]).len() == 0,
{
    let groups = seq![(topic, values)];
    assert(rendered(label, groups.drop_last()) =~= seq![]);
    assert(rendered(label, groups) =~= "topic: "@ + topic + ", "@ + label + ": ["@ + text::spaced(
        values,
    ) + "]"@);
}

/// A rendering tells of each topic that occurs once, and of nothing else: it is the
/// texts of these topics in some order, each with all its values in their order.
pub proof fn renderings_tell_each_topic_once(
    label: Seq<char>,
    pairs: Seq<(Seq<char>, Seq<char>)>,
    out: Seq<char>,
) -> (topics: Seq<Seq<char>>)
    requires
        renders(label, pairs, out),
    ensures
        topics.no_duplicates(),
        forall|k: int| 0 <= k < pairs.len() ==> topics.contains((#[trigger] pairs[k]).0),
        forall|i: int|
            0 <= i < topics.len() ==> values_of(pairs, #[trigger] topics[i]).len() > 0,
        out == topics.map_values(
            |topic: Seq<char>|
                "topic: "@ + topic + ", "@ + label + ": ["@ + text::spaced(values_of(pairs, topic))
                    + "]"@,
        ).flatten(),
{
    let groups = choose|groups: Seq<(Seq<char>, Seq<Seq<char>>)>|
        #[trigger] is_grouping(pairs, groups) && out == rendered(label, groups);
    let topics = groups.map_values(|g: (Seq<char>, Seq<Seq<char>>)| g.0);
    let block = |topic: Seq<char>|
        "topic: "@ + topic + ", "@ + label + ": ["@ + text::spaced(values_of(pairs, topic)) + "]"@;
    assert forall|k: int| 0 <= k < pairs.len() implies topics.contains((#[trigger] pairs[k]).0) by {
        let i = choose|i: int|
            0 <= i < groups.len() && (#[trigger] groups[i]).0 == pairs[k].0;
        assert(topics[i] == pairs[k].0);
    }
    assert forall|i: int| 0 <= i < topics.len() implies values_of(
        pairs,
        #[trigger] topics[i],
    ).len() > 0 by {
        assert(groups[i].1.len() > 0);
    }
    lemma_rendered_is_flat(label, pairs, groups, block);
    let blocks = groups.map_values(|g: (Seq<char>, Seq<Seq<char>>)| block(g.0));
    assert(topics.map_values(block) =~= blocks);
    topics
}

/// A rendering is the texts of its groups, one after the other.
proof fn lemma_rendered_is_flat(
    label: Seq<char>,
    pairs: Seq<(Seq<char>, Seq<char>)>,
    groups: Seq<(Seq<char>, Seq<Seq<char>>)>,
    block: spec_fn(Seq<char>) -> Seq<char>,
)
    requires
        forall|i: int|
            0 <= i < groups.len() ==> (#[trigger] groups[i]).1 == values_of(pairs, groups[i].0),
        forall|topic: Seq<char>| #[trigger]
            block(topic) == "topic: "@ + topic + ", "@ + label + ": ["@ + text::spaced(
                values_of(pairs, topic),
            ) + "]"@,
    ensures
        rendered(label, groups) == groups.map_values(
            |g: (Seq<char>, Seq<Seq<char>>)| block(g.0),
        ).flatten(),
    decreases groups.len(),
{
    let blocks = groups.map_values(|g: (Seq<char>, Seq<Seq<char>>)| block(g.0));
    blocks.lemma_flatten_and_flatten_alt_are_equivalent();
    if groups.len() > 0 {
        let rest = groups.drop_last();
        assert forall|i: int| 0 <= i < rest.len() implies (#[trigger] rest[i]).1 == values_of(
            pairs,
            rest[i].0,
        ) by {
            assert(rest[i] == groups[i]);
        }
        lemma_rendered_is_flat(label, pairs, rest, block);
        let rest_blocks = rest.map_values(|g: (Seq<char>, Seq<Seq<char>>)| block(g.0));
        rest_blocks.lemma_flatten_and_flatten_alt_are_equivalent();
        assert(blocks.drop_last() =~= rest_blocks);
        assert(groups[groups.len() - 1].1 == values_of(pairs, groups.last().0));
        assert(blocks.last() == group_text(label, groups.last()));
    }
}

/// The partitions of a list of one topic are told as the topic and the partition
/// numbers, each once and in order, with a space between them.
pub proof fn partitions_of_one_topic(
    entries: Seq<TopicPartitionView>,
    topic: Seq<char>,
    out: Seq<char>,
)
    requires
        entries.len() > 0,
        forall|i: int| 0 <= i < entries.len() ==> (#[trigger] entries[i]).topic == topic,
        partitions_told(entries, out),
    ensures
        out == "topic: "@ + topic + ", partition(s): ["@ + text::spaced(
            entries.map_values(|e: TopicPartitionView| text::decimal(e.partition as int)),
        ) + "]"@,
{
    reveal_strlit(", partition(s): [");
    reveal_strlit(", ");
    reveal_strlit("partition(s)");
    reveal_strlit(": [");
    let pairs = partition_pairs(entries);
    assert forall|k: int| 0 <= k < pairs.len() implies (#[trigger] pairs[k]).0 == topic by {
        assert(entries[k].topic == topic);
    }
    one_topic_has_one_rendering("partition(s)"@, pairs, topic, out);
    assert(all_values(pairs) =~= entries.map_values(
        |e: TopicPartitionView| text::decimal(e.partition as int),
    ));
    assert(", partition(s): ["@ =~= ", "@ + "partition(s)"@ + ": ["@);
    assert(out =~= "topic: "@ + topic + ", partition(s): ["@ + text::spaced(all_values(pairs))
        + "]"@);
}

/// The definite offsets of a list of one topic are told as the topic and the
/// offsets, each once and in order, with a space between them.
pub proof fn offsets_of_one_topic(
    entries: Seq<TopicPartitionView>,
    topic: Seq<char>,
    offsets: Seq<i64>,
    out: Seq<char>,
)
    requires
        entries.len() > 0,
        offsets.len() == entries.len(),
        forall|i: int| 0 <= i < entries.len() ==> (#[trigger] entries[i]).topic == topic,
        forall|i: int|
            0 <= i < entries.len() ==> (#[trigger] entries[i]).offset == PartitionOffset::At(
                offsets[i],
            ),
        offsets_told(entries, out),
    ensures
        out == "topic: "@ + topic + ", offset(s): ["@ + text::spaced(
            offsets.map_values(|o: i64| text::decimal(o as int)),
        ) + "]"@,
{
    reveal_strlit(", offset(s): [");
    reveal_strlit(", ");
    reveal_strlit("offset(s)");
    reveal_strlit(": [");
    lemma_all_definite(entries);
    let pairs = offset_pairs(entries);
    assert forall|k: int| 0 <= k < pairs.len() implies (#[trigger] pairs[k]).0 == topic by {
        assert(entries[k].topic == topic);
    }
    one_topic_has_one_rendering("offset(s)"@, pairs, topic, out);
    assert forall|k: int| 0 <= k < pairs.len() implies (#[trigger] pairs[k]).1 == text::decimal(
        offsets[k] as int,
    ) by {
        assert(entries[k].offset == PartitionOffset::At(offsets[k]));
    }
    assert(all_values(pairs) =~= offsets.map_values(|o: i64| text::decimal(o as int)));
    assert(", offset(s): ["@ =~= ", "@ + "offset(s)"@ + ": ["@);
    assert(out =~= "topic: "@ + topic + ", offset(s): ["@ + text::spaced(all_values(pairs)) + "]"@);
}

/// Where every element stands at a definite offset, none is passed over.
proof fn lemma_all_definite(entries: Seq<TopicPartitionView>)
    requires
        forall|i: int| 0 <= i < entries.len() ==> (#[trigger] entries[i]).offset is At,
    ensures
        offset_pairs(entries).len() == entries.len(),
        forall|i: int|
            0 <= i < entries.len() ==> #[trigger] offset_pairs(entries)[i] == (
                entries[i].topic,
                text::decimal(entries[i].offset->At_0 as int),
            ),
    decreases entries.len(),
{
    if entries.len() > 0 {
        let rest = entries.drop_last();
        let last = entries.last();
        assert forall|i: int| 0 <= i < rest.len() implies (#[trigger] rest[i]).offset is At by {
            assert(entries[i].offset is At);
        }
        lemma_all_definite(rest);
        assert(entries[entries.len() - 1].offset is At);
        offsets_are_told_in_order(rest, seq![last]);
        definite_offsets_are_told(last);
        assert(entries =~= rest + seq![last]);
        assert forall|i: int| 0 <= i < entries.len() implies #[trigger] offset_pairs(entries)[i]
            == (entries[i].topic, text::decimal(entries[i].offset->At_0 as int)) by {
            if i < rest.len() {
                assert(offset_pairs(rest)[i] == (
                    rest[i].topic,
                    text::decimal(rest[i].offset->At_0 as int),
                ));
            }
        }
    } else {
        reveal(Seq::filter);
    }
}

/// What is told of a list renders all its partitions, or all its definite offsets,
/// under the label for them.
pub proof fn tellings_are_renderings(entries: Seq<TopicPartitionView>, out: Seq<char>)
    ensures
        partitions_told(entries, out) ==> renders("partition(s)"@, partition_pairs(entries), out),
        offsets_told(entries, out) ==> renders("offset(s)"@, offset_pairs(entries), out),
{
}

} // verus!
