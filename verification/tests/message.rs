use kafka_rust_mapper_base::error::{MappingError, ProcessingError};
use kafka_rust_mapper_base::mapper::DummyMapper;
use kafka_rust_mapper_base::message::{
    after_send, after_store, deserialize_message, process_message, route, InboundMessage,
    MessageStep, OutputRecord, Timestamp,
};
use kafka_rust_mapper_base::run::{consumer_ids, first_step, next_step, RunEvent, RunStep};
use kafka_rust_mapper_base::config::Kafka;

fn inbound(key: Option<&[u8]>, payload: Option<&[u8]>, timestamp: Timestamp) -> InboundMessage {
    InboundMessage {
        key: key.map(|k| k.to_vec()),
        payload: payload.map(|p| p.to_vec()),
        timestamp,
    }
}

fn produced(step: MessageStep) -> OutputRecord {
    match step {
        MessageStep::Produce(record) => record,
        other => panic!("expected a record to produce, got {:?}", other),
    }
}

#[test]
fn test_run() {
    const INPUT_TOPIC: &str = "input_topic";
    const OUTPUT_TOPIC: &str = "output_topic";

    let config = Kafka {
        brokers: String::from("localhost:9092"),
        offset_reset: String::from("earliest"),
        security_protocol: String::from("plaintext"),
        consumer_group: String::from("test"),
        input_topic: INPUT_TOPIC.to_owned(),
        output_topic: OUTPUT_TOPIC.to_owned(),
        num_partitions: 1,
        ssl: None,
    };
    let mapper = DummyMapper::new().unwrap();

    let ids = consumer_ids(config.num_partitions);
    assert_eq!(ids, vec![1]);
    match first_step(&config, ids[0]) {
        RunStep::Subscribe { instance_id, topic } => {
            assert_eq!(instance_id, "test_1");
            assert_eq!(topic, INPUT_TOPIC);
        }
        other => panic!("expected a subscription, got {:?}", other),
    }
    assert!(matches!(next_step(&config, ids[0], RunEvent::Subscribed), RunStep::Stream));

    // input data
    let message = inbound(Some(b"test"), Some(b"test message"), Timestamp::CreateTime(1_700_000_000_000));
    let record = produced(process_message(&message, &mapper, &config.output_topic));
    assert_eq!(record.topic, OUTPUT_TOPIC);
    assert_eq!(record.timestamp, Some(1_700_000_000_000));

    // read it back from the output topic
    let output = inbound(
        Some(record.key.as_bytes()),
        Some(record.payload.as_bytes()),
        Timestamp::NotAvailable,
    );
    let (key, payload) = deserialize_message(&output);
    let raw = &payload.expect("failed to read output message");
    assert_eq!(key, "test");
    assert!(raw.starts_with("Mapped payload:"));
    assert_eq!(raw, "Mapped payload: test message");

    assert!(matches!(after_send(true), MessageStep::StoreOffset { produced: true }));
    assert!(matches!(
        after_store(true, Ok(())),
        MessageStep::Done { result: Ok(()), counted: true }
    ));
}

#[test]
fn keys_and_payloads_are_read_as_utf8() {
    let m = inbound(Some("k\u{e9}y".as_bytes()), Some("p\u{e4}yload \u{1f980}".as_bytes()), Timestamp::NotAvailable);
    assert_eq!(deserialize_message(&m), ("k\u{e9}y".to_string(), Some("p\u{e4}yload \u{1f980}".to_string())));
}

#[test]
fn absent_and_unreadable_fields() {
    let none = inbound(None, None, Timestamp::NotAvailable);
    assert_eq!(deserialize_message(&none), (String::new(), None));
    let bad = inbound(Some(&[0xff, 0x41]), Some(&[0xc0, 0x80]), Timestamp::NotAvailable);
    assert_eq!(deserialize_message(&bad), (String::new(), None));
    let empty = inbound(Some(&[]), Some(&[]), Timestamp::NotAvailable);
    assert_eq!(deserialize_message(&empty), (String::new(), Some(String::new())));
}

#[test]
fn tombstones_and_unreadable_payloads_are_skipped() {
    let mapper = DummyMapper::new().unwrap();
    for payload in [None, Some(&[0xff][..])] {
        let m = inbound(Some(b"k"), payload, Timestamp::CreateTime(5));
        assert!(matches!(
            process_message(&m, &mapper, "out"),
            MessageStep::Done { result: Ok(()), counted: false }
        ));
    }
}

#[test]
fn unreadable_key_becomes_empty() {
    let mapper = DummyMapper::new().unwrap();
    let m = inbound(Some(&[0x80]), Some(b"p"), Timestamp::LogAppendTime(7));
    let record = produced(process_message(&m, &mapper, "out"));
    assert_eq!(record.key, "");
    assert_eq!(record.payload, "Mapped payload: p");
    assert_eq!(record.topic, "out");
}

#[test]
fn timestamps_are_carried_over() {
    let mapper = DummyMapper::new().unwrap();
    let cases = [
        (Timestamp::NotAvailable, None),
        (Timestamp::CreateTime(-1), None),
        (Timestamp::LogAppendTime(-1), None),
        (Timestamp::CreateTime(0), Some(0)),
        (Timestamp::CreateTime(42), Some(42)),
        (Timestamp::LogAppendTime(43), Some(43)),
        (Timestamp::LogAppendTime(-2), Some(-2)),
    ];
    for (timestamp, expected) in cases {
        let m = inbound(None, Some(b"p"), timestamp);
        let record = produced(process_message(&m, &mapper, "out"));
        assert_eq!(record.timestamp, expected);
    }
}

#[test]
fn dropped_payload_stores_the_offset() {
    let step = route(Ok(None), "k".to_string(), Some(1), "out");
    assert!(matches!(step, MessageStep::StoreOffset { produced: false }));
    assert!(matches!(
        after_store(false, Ok(())),
        MessageStep::Done { result: Ok(()), counted: false }
    ));
}

#[test]
fn mapping_failure_is_an_unknown_payload() {
    let failure = MappingError::Other("no such field".to_string());
    match route(Err(failure), "k".to_string(), None, "out") {
        MessageStep::Done { result: Err(ProcessingError::Mapping(e)), counted: false } => {
            assert_eq!(e.message(), "unknown payload");
            assert_eq!(e.name(), "Other");
        }
        other => panic!("unexpected step {:?}", other),
    }
}

#[test]
fn routed_record_has_key_topic_and_time() {
    let record = produced(route(Ok(Some("r".to_string())), "k".to_string(), Some(9), "out"));
    assert_eq!(record.topic, "out");
    assert_eq!(record.key, "k");
    assert_eq!(record.payload, "r");
    assert_eq!(record.timestamp, Some(9));
}

#[test]
fn undelivered_record_is_given_up() {
    assert!(matches!(
        after_send(false),
        MessageStep::Done { result: Ok(()), counted: false }
    ));
}

#[test]
fn unstored_offset_is_a_client_failure() {
    match after_store(true, Err("Store offset error".to_string())) {
        MessageStep::Done { result: Err(e), counted: false } => {
            assert_eq!(e.message(), "kafka error: Store offset error");
        }
        other => panic!("unexpected step {:?}", other),
    }
}

#[test]
fn errors_convert_and_speak() {
    let e = ProcessingError::from(MappingError::Other("bad".to_string()));
    assert_eq!(e.message(), "bad");
    assert!(matches!(e, ProcessingError::Mapping(MappingError::Other(_))));
    assert_eq!(ProcessingError::Kafka("down".to_string()).message(), "kafka error: down");
}

#[test]
fn mapper_marks_every_payload() {
    let mapper = DummyMapper::new().unwrap();
    assert_eq!(mapper.map(&String::new()).unwrap(), Some("Mapped payload: ".to_string()));
    assert_eq!(
        mapper.map(&"MSH|^~".to_string()).unwrap(),
        Some("Mapped payload: MSH|^~".to_string())
    );
}
