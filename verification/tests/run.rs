use kafka_rust_mapper_base::commit::{commit_action, CommitAction};
use kafka_rust_mapper_base::config::{log_filter, Kafka};
use kafka_rust_mapper_base::error::{MappingError, ProcessingError};
use kafka_rust_mapper_base::message::{after_store, route, MessageStep};
use kafka_rust_mapper_base::run::{
    consumer_ids, first_step, instance_id, latency_millis, next_step, RunEvent, RunStep,
    RESTART_DELAY_SECS,
};

fn config() -> Kafka {
    Kafka {
        brokers: String::from("localhost:9092"),
        offset_reset: String::from("earliest"),
        security_protocol: String::from("plaintext"),
        consumer_group: String::from("test"),
        input_topic: String::from("input_topic"),
        output_topic: String::from("output_topic"),
        num_partitions: 1,
        ssl: None,
    }
}

#[test]
fn cancellation_test() {
    let config = config();
    let ids = consumer_ids(config.num_partitions);
    assert_eq!(ids.len(), 1);

    // the processor runs
    assert!(matches!(first_step(&config, ids[0]), RunStep::Subscribe { .. }));
    let step = next_step(&config, ids[0], RunEvent::Subscribed);
    assert!(!matches!(step, RunStep::Stop { .. }));

    // processor stopped
    assert!(matches!(
        next_step(&config, ids[0], RunEvent::Cancelled),
        RunStep::Stop { unsubscribe: false, cancel_all: false }
    ));
}

#[test]
fn refused_subscription_stops_this_consumer() {
    assert!(matches!(
        next_step(&config(), 1, RunEvent::SubscribeFailed),
        RunStep::Stop { unsubscribe: false, cancel_all: false }
    ));
}

#[test]
fn ended_stream_stops_this_consumer() {
    assert!(matches!(
        next_step(&config(), 1, RunEvent::StreamEnded(Ok(()))),
        RunStep::Stop { unsubscribe: false, cancel_all: false }
    ));
}

#[test]
fn mapping_failure_stops_every_consumer() {
    let failure = ProcessingError::Mapping(MappingError::Other("unknown payload".to_string()));
    assert!(matches!(
        next_step(&config(), 1, RunEvent::StreamEnded(Err(failure))),
        RunStep::Stop { unsubscribe: true, cancel_all: true }
    ));
}

#[test]
fn client_failure_restarts_after_ten_seconds() {
    let config = config();
    let failure = ProcessingError::Kafka("broker down".to_string());
    assert_eq!(RESTART_DELAY_SECS, 10);
    assert!(matches!(
        next_step(&config, 3, RunEvent::StreamEnded(Err(failure))),
        RunStep::Restart { delay_secs: 10 }
    ));
    match next_step(&config, 3, RunEvent::DelayElapsed) {
        RunStep::Subscribe { instance_id, topic } => {
            assert_eq!(instance_id, "test_3");
            assert_eq!(topic, "input_topic");
        }
        other => panic!("unexpected step {:?}", other),
    }
}

#[test]
fn ids_count_from_one() {
    assert_eq!(consumer_ids(4), vec![1, 2, 3, 4]);
    assert!(consumer_ids(0).is_empty());
    assert!(consumer_ids(-3).is_empty());
    assert!(consumer_ids(i32::MIN).is_empty());
}

#[test]
fn instance_ids_join_group_and_number() {
    assert_eq!(instance_id("group", 12), "group_12");
    assert_eq!(instance_id("", 0), "_0");
    assert_eq!(instance_id("g", i32::MIN), "g_-2147483648");
    assert_eq!(instance_id("g", i32::MAX), "g_2147483647");
    assert_ne!(instance_id("g", 1), instance_id("g", 11));
}

#[test]
fn latency_keeps_the_low_bits() {
    assert_eq!(latency_millis(400), 400);
    assert_eq!(latency_millis(u64::MAX as u128), u64::MAX);
    assert_eq!(latency_millis(u64::MAX as u128 + 6), 5);
}

#[test]
fn commit_reports() {
    assert!(matches!(commit_action(false, Ok(())), CommitAction::Ignore));
    assert!(matches!(commit_action(false, Err("e".to_string())), CommitAction::Ignore));
    assert!(matches!(commit_action(true, Ok(())), CommitAction::Forward));
    match commit_action(true, Err("lost".to_string())) {
        CommitAction::Warn(text) => assert_eq!(text, "lost"),
        other => panic!("unexpected action {:?}", other),
    }
}

#[test]
fn filters_name_target_and_level() {
    assert_eq!(log_filter("mapper", "debug"), "mapper=debug");
}

#[test]
fn consumers_of_a_group_have_different_instance_ids() {
    let mut names: Vec<String> =
        consumer_ids(120).into_iter().map(|id| instance_id("g", id)).collect();
    names.sort();
    names.dedup();
    assert_eq!(names.len(), 120);
}

#[test]
fn unmapped_payload_ends_every_consumer() {
    let failure = MappingError::Other("bad field".to_string());
    match route(Err(failure), "k".to_string(), Some(1), "output_topic") {
        MessageStep::Done { result, counted } => {
            assert!(!counted);
            assert!(matches!(
                next_step(&config(), 1, RunEvent::StreamEnded(result)),
                RunStep::Stop { unsubscribe: true, cancel_all: true }
            ));
        }
        other => panic!("unexpected step {:?}", other),
    }
}

#[test]
fn unstored_offset_restarts_the_consumer() {
    for produced in [false, true] {
        match after_store(produced, Err("no offset".to_string())) {
            MessageStep::Done { result, counted } => {
                assert!(!counted);
                assert!(matches!(
                    next_step(&config(), 1, RunEvent::StreamEnded(result)),
                    RunStep::Restart { delay_secs: 10 }
                ));
            }
            other => panic!("unexpected step {:?}", other),
        }
    }
}
