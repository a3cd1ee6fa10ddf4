use kafka_rust_mapper_base::partitions::{
    describe_offsets, describe_partitions, format_offsets_from_parts, format_rebalance,
    format_topic_partitions, render_groups, PartitionOffset, RebalanceEvent, TopicPartition,
};
use kafka_rust_mapper_base::text::{decimal_text, spaced_text};
use rdkafka::{Offset, TopicPartitionList};

fn list(elements: &[(&str, i32, Offset)]) -> TopicPartitionList {
    let mut list = TopicPartitionList::new();
    for (topic, partition, offset) in elements {
        list.add_partition_offset(topic, *partition, *offset).unwrap();
    }
    list
}

#[test]
fn partitions_of_one_topic() {
    let l = list(&[
        ("input", 2, Offset::Invalid),
        ("input", 0, Offset::Beginning),
        ("input", 11, Offset::Offset(4)),
    ]);
    assert_eq!(format_topic_partitions(&l), "topic: input, partition(s): [2 0 11]");
}

#[test]
fn partitions_of_two_topics() {
    let l = list(&[
        ("a", 0, Offset::Invalid),
        ("b", 5, Offset::Invalid),
        ("a", 1, Offset::Invalid),
    ]);
    let a = "topic: a, partition(s): [0 1]";
    let b = "topic: b, partition(s): [5]";
    let text = format_topic_partitions(&l);
    assert!(text == format!("{}{}", a, b) || text == format!("{}{}", b, a));
}

#[test]
fn empty_list_has_no_text() {
    let l = TopicPartitionList::new();
    assert_eq!(format_topic_partitions(&l), "");
    assert_eq!(format_offsets_from_parts(&l), "");
}

#[test]
fn only_definite_offsets_are_shown() {
    let l = list(&[
        ("input", 0, Offset::Offset(17)),
        ("input", 1, Offset::Beginning),
        ("input", 2, Offset::End),
        ("input", 3, Offset::Stored),
        ("input", 4, Offset::Invalid),
        ("input", 5, Offset::OffsetTail(3)),
        ("input", 6, Offset::Offset(9007199254740993)),
        ("other", 0, Offset::End),
    ]);
    assert_eq!(
        format_offsets_from_parts(&l),
        "topic: input, offset(s): [17 9007199254740993]"
    );
}

#[test]
fn rebalances_are_told_apart() {
    let l = list(&[("input", 1, Offset::Invalid)]);
    assert_eq!(
        format_rebalance(&RebalanceEvent::Assign(&l)),
        "assign topic: input, partition(s): [1]"
    );
    assert_eq!(
        format_rebalance(&RebalanceEvent::Revoke(&l)),
        "revoke topic: input, partition(s): [1]"
    );
    assert_eq!(
        format_rebalance(&RebalanceEvent::Error("broken".to_string())),
        "error: broken"
    );
}

#[test]
fn plain_elements_render_alike() {
    let entries = vec![
        TopicPartition {
            topic: "t".to_string(),
            partition: -1,
            offset: PartitionOffset::At(i64::MIN),
        },
        TopicPartition { topic: "t".to_string(), partition: 7, offset: PartitionOffset::Tail(2) },
    ];
    assert_eq!(describe_partitions(&entries), "topic: t, partition(s): [-1 7]");
    assert_eq!(describe_offsets(&entries), "topic: t, offset(s): [-9223372036854775808]");
}

#[test]
fn groups_are_rendered_in_order() {
    let groups = vec![
        ("x".to_string(), vec!["1".to_string(), "2".to_string()]),
        ("y".to_string(), vec![]),
    ];
    assert_eq!(render_groups("l", &groups), "topic: x, l: [1 2]topic: y, l: []");
}

#[test]
fn numbers_are_written_in_decimal() {
    for n in [0, 1, 9, 10, 11, 99, 100, -1, -10, i64::MAX, i64::MIN] {
        assert_eq!(decimal_text(n), n.to_string());
    }
}

#[test]
fn lists_are_separated_by_spaces() {
    assert_eq!(spaced_text(&vec![]), "");
    assert_eq!(spaced_text(&vec!["a".to_string()]), "a");
    assert_eq!(
        spaced_text(&vec!["a".to_string(), "".to_string(), "b".to_string()]),
        "a  b"
    );
}
