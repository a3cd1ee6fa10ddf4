use kafka_rust_mapper_base::client::{consumer_config, producer_config, set_ssl_config};
use kafka_rust_mapper_base::config::{Kafka, Ssl};
use rdkafka::config::RDKafkaLogLevel;
use rdkafka::ClientConfig;

fn ssl(ca: Option<&str>, key: Option<&str>, cert: Option<&str>, password: Option<&str>) -> Ssl {
    Ssl {
        ca_location: ca.map(str::to_string),
        key_location: key.map(str::to_string),
        certificate_location: cert.map(str::to_string),
        key_password: password.map(str::to_string),
    }
}

fn config(ssl: Option<Ssl>) -> Kafka {
    Kafka {
        brokers: String::from("b1:9092,b2:9092"),
        offset_reset: String::from("earliest"),
        security_protocol: String::from("plaintext"),
        consumer_group: String::from("group"),
        input_topic: String::from("in"),
        output_topic: String::from("out"),
        num_partitions: 1,
        ssl,
    }
}

#[test]
fn consumer_settings() {
    let c = consumer_config(config(None), "group_1");
    let expected = [
        ("bootstrap.servers", "b1:9092,b2:9092"),
        ("security.protocol", "plaintext"),
        ("enable.partition.eof", "false"),
        ("group.id", "group"),
        ("group.instance.id", "group_1"),
        ("session.timeout.ms", "6000"),
        ("enable.auto.commit", "true"),
        ("enable.auto.offset.store", "false"),
        ("auto.offset.reset", "earliest"),
    ];
    for (name, value) in expected {
        assert_eq!(c.get(name), Some(value));
    }
    assert_eq!(c.config_map().len(), expected.len());
    assert!(matches!(c.log_level, RDKafkaLogLevel::Debug));
}

#[test]
fn producer_settings() {
    let c = producer_config(config(None));
    let expected = [
        ("bootstrap.servers", "b1:9092,b2:9092"),
        ("security.protocol", "plaintext"),
        ("compression.type", "gzip"),
        ("message.max.bytes", "6242880"),
    ];
    for (name, value) in expected {
        assert_eq!(c.get(name), Some(value));
    }
    assert_eq!(c.config_map().len(), expected.len());
    assert!(matches!(c.log_level, RDKafkaLogLevel::Debug));
}

#[test]
fn ssl_settings_reach_both_clients() {
    let given = ssl(Some("/ca"), Some("/key"), Some("/cert"), Some("word"));
    let kafka = config(Some(given));
    let consumer = consumer_config(kafka.clone(), "group_2");
    let producer = producer_config(kafka);
    for c in [consumer, producer] {
        assert_eq!(c.get("ssl.ca.location"), Some("/ca"));
        assert_eq!(c.get("ssl.key.location"), Some("/key"));
        assert_eq!(c.get("ssl.certificate.location"), Some("/cert"));
        assert_eq!(c.get("ssl.key.password"), Some("word"));
    }
}

#[test]
fn absent_ssl_settings_stay_as_they_were() {
    let mut c = ClientConfig::new();
    c.set("ssl.ca.location", "/old-ca");
    c.set("ssl.key.password", "old");
    c.set("client.id", "me");
    let c = set_ssl_config(c, Some(ssl(Some("/new-ca"), None, Some("/cert"), None)));
    assert_eq!(c.get("ssl.ca.location"), Some("/new-ca"));
    assert_eq!(c.get("ssl.key.location"), None);
    assert_eq!(c.get("ssl.certificate.location"), Some("/cert"));
    assert_eq!(c.get("ssl.key.password"), Some("old"));
    assert_eq!(c.get("client.id"), Some("me"));
}

#[test]
fn no_ssl_settings_change_nothing() {
    let mut c = ClientConfig::new();
    c.set("client.id", "me");
    c.set_log_level(RDKafkaLogLevel::Alert);
    let c = set_ssl_config(c, None);
    assert_eq!(c.get("client.id"), Some("me"));
    assert_eq!(c.config_map().len(), 1);
    assert!(matches!(c.log_level, RDKafkaLogLevel::Alert));
}
