//! The client configurations with which the consumers and the producer are made.
use crate::config::{self, Kafka, KafkaView, Ssl, SslView};
use rdkafka::config::RDKafkaLogLevel;
use rdkafka::ClientConfig;
use vstd::prelude::*;

verus! {

/// rdkafka's client configuration: settings by name, and a log level.
#[verifier::external_type_specification]
#[verifier::external_body]
pub struct ExClientConfig(ClientConfig);

/// The log levels of the client library.
#[derive(Clone, Copy, Debug)]
pub enum LogLevel {
    Emerg,
    Alert,
    Critical,
    Error,
    Warning,
    Notice,
    Info,
    Debug,
}

/// The settings that a client configuration holds, by name.
pub uninterp spec fn config_entries(c: ClientConfig) -> Map<Seq<char>, Seq<char>>;

/// The log level that a client configuration holds.
pub uninterp spec fn config_log_level(c: ClientConfig) -> LogLevel;

/// Makes a configuration, by rdkafka's `ClientConfig::new`.
///
/// The new configuration holds no settings. Its log level depends on how logging
/// is set up in the process, and nothing is said of it.
#[verifier::external_body]
fn new_config() -> (c: ClientConfig)
    ensures
        (config_entries(c) == Map::<Seq<char>, Seq<char>>::empty()),
{
    ClientConfig::new()
}

/// Sets one setting, by rdkafka's `ClientConfig::set`.
///
/// The value takes the place of one that was set under the same name before; the
/// other settings and the log level stay.
#[verifier::external_body]
fn set_entry(c: &mut ClientConfig, name: &str, value: &str)
    ensures
        config_entries(*final(c)) == config_entries(*old(c)).insert(name@, value@),
        config_log_level(*final(c)) == config_log_level(*old(c)),
{
    c.set(name, value);
}

/// Sets the log level, by rdkafka's `ClientConfig::set_log_level`.
///
/// The settings stay.
#[verifier::external_body]
fn set_level(c: &mut ClientConfig, level: LogLevel)
    ensures
        config_entries(*final(c)) == config_entries(*old(c)),
        config_log_level(*final(c)) == level,
{
    c.set_log_level(match level {
        LogLevel::Emerg => RDKafkaLogLevel::Emerg,
        LogLevel::Alert => RDKafkaLogLevel::Alert,
        LogLevel::Critical => RDKafkaLogLevel::Critical,
        LogLevel::Error => RDKafkaLogLevel::Error,
        LogLevel::Warning => RDKafkaLogLevel::Warning,
        LogLevel::Notice => RDKafkaLogLevel::Notice,
        LogLevel::Info => RDKafkaLogLevel::Info,
        LogLevel::Debug => RDKafkaLogLevel::Debug,
    });
}

/// `entries` with `value` under `name`, where there is a value.
pub open spec fn with_optional(
    entries: Map<Seq<char>, Seq<char>>,
    name: Seq<char>,
    value: Option<Seq<char>>,
) -> Map<Seq<char>, Seq<char>> {
    match value {
        Some(text) => entries.insert(name, text),
        None => entries,
    }
}

/// `entries` with the encryption settings that are given.
pub open spec fn with_ssl(
    entries: Map<Seq<char>, Seq<char>>,
    ssl: Option<SslView>,
) -> Map<Seq<char>, Seq<char>> {
    match ssl {
        Some(s) => with_optional(
            with_optional(
                with_optional(
                    with_optional(entries, "ssl.ca.location"@, s.ca_location),
                    "ssl.key.location"@,
                    s.key_location,
                ),
                "ssl.certificate.location"@,
                s.certificate_location,
            ),
            "ssl.key.password"@,
            s.key_password,
        ),
        None => entries,
    }
}

/// The settings of the consumer with the given instance id.
pub open spec fn consumer_entries(config: KafkaView, instance_id: Seq<char>) -> Map<
    Seq<char>,
    Seq<char>,
> {
    with_ssl(
        map![
            "bootstrap.servers"@ => config.brokers,
            "security.protocol"@ => config.security_protocol,
            "enable.partition.eof"@ => "false"@,
            "group.id"@ => config.consumer_group,
            "group.instance.id"@ => instance_id,
            "session.timeout.ms"@ => "6000"@,
            "enable.auto.commit"@ => "true"@,
            "enable.auto.offset.store"@ => "false"@,
            "auto.offset.reset"@ => config.offset_reset,
        ],
        config.ssl,
    )
}

/// The settings of the producer.
pub open spec fn producer_entries(config: KafkaView) -> Map<Seq<char>, Seq<char>> {
    with_ssl(
        map![
            "bootstrap.servers"@ => config.brokers,
            "security.protocol"@ => config.security_protocol,
            "compression.type"@ => "gzip"@,
            "message.max.bytes"@ => "6242880"@,
        ],
        config.ssl,
    )
}

/// Adds the encryption settings that are given to a client configuration.
pub fn set_ssl_config(c: ClientConfig, ssl_config: Option<Ssl>) -> (r: ClientConfig)
    ensures
        config_entries(r) == with_ssl(config_entries(c), config::optional_ssl(ssl_config)),
        config_log_level(r) == config_log_level(c),
{
    let mut c = c;
    if let Some(ssl) = ssl_config {
        if let Some(value) = ssl.ca_location {
            set_entry(&mut c, "ssl.ca.location", value.as_str());
        }
        if let Some(value) = ssl.key_location {
            set_entry(&mut c, "ssl.key.location", value.as_str());
        }
        if let Some(value) = ssl.certificate_location {
            set_entry(&mut c, "ssl.certificate.location", value.as_str());
        }
        if let Some(value) = ssl.key_password {
            set_entry(&mut c, "ssl.key.password", value.as_str());
        }
    }
    c
}

/// The configuration of the consumer with the given instance id.
///
/// The client commits stored offsets by itself, but stores none by itself: an
/// offset is stored once its record has been dealt with.
pub fn consumer_config(config: Kafka, instance_id: &str) -> (r: ClientConfig)
    ensures
        config_entries(r) == consumer_entries(config@, instance_id@),
        config_log_level(r) == LogLevel::Debug,
{
    let mut c = new_config();
    set_entry(&mut c, "bootstrap.servers", config.brokers.as_str());
    set_entry(&mut c, "security.protocol", config.security_protocol.as_str());
    set_entry(&mut c, "enable.partition.eof", "false");
    set_entry(&mut c, "group.id", config.consumer_group.as_str());
    set_entry(&mut c, "group.instance.id", instance_id);
    set_entry(&mut c, "session.timeout.ms", "6000");
    set_entry(&mut c, "enable.auto.commit", "true");
    set_entry(&mut c, "enable.auto.offset.store", "false");
    set_entry(&mut c, "auto.offset.reset", config.offset_reset.as_str());
    set_level(&mut c, LogLevel::Debug);
    set_ssl_config(c, config.ssl)
}

/// The configuration of the producer.
pub fn producer_config(config: Kafka) -> (r: ClientConfig)
    ensures
        config_entries(r) == producer_entries(config@),
        config_log_level(r) == LogLevel::Debug,
{
    let mut c = new_config();
    set_entry(&mut c, "bootstrap.servers", config.brokers.as_str());
    set_entry(&mut c, "security.protocol", config.security_protocol.as_str());
    set_entry(&mut c, "compression.type", "gzip");
    set_entry(&mut c, "message.max.bytes", "6242880");
    set_level(&mut c, LogLevel::Debug);
    set_ssl_config(c, config.ssl)
}

/// Whether `name` is the name of an encryption setting.
pub open spec fn is_ssl_name(name: Seq<char>) -> bool {
    ||| name == "ssl.ca.location"@
    ||| name == "ssl.key.location"@
    ||| name == "ssl.certificate.location"@
    ||| name == "ssl.key.password"@
}

/// What a setting is after the optional value `given` was put in its place.
pub open spec fn given_or_kept(
    given: Option<Seq<char>>,
    entries: Map<Seq<char>, Seq<char>>,
    name: Seq<char>,
) -> Option<Seq<char>> {
    match given {
        Some(text) => Some(text),
        None => entries.get(name),
    }
}

/// The names of the settings are told apart by their lengths, and those of equal
/// length by one of their characters.
proof fn lemma_names_differ()
    ensures
        "ssl.ca.location"@.len() == 15,
        "ssl.key.location"@.len() == 16,
        "ssl.certificate.location"@.len() == 24,
        "ssl.key.password"@.len() == 16,
        "bootstrap.servers"@.len() == 17,
        "security.protocol"@.len() == 17,
        "enable.partition.eof"@.len() == 20,
        "group.id"@.len() == 8,
        "group.instance.id"@.len() == 17,
        "session.timeout.ms"@.len() == 18,
        "enable.auto.commit"@.len() == 18,
        "enable.auto.offset.store"@.len() == 24,
        "auto.offset.reset"@.len() == 17,
        "compression.type"@.len() == 16,
        "message.max.bytes"@.len() == 17,
        "ssl.key.location"@[8] == 'l',
        "ssl.certificate.location"@[0] == 's',
        "ssl.key.password"@[8] == 'p',
        "bootstrap.servers"@[0] == 'b',
        "security.protocol"@[0] == 's',
        "group.instance.id"@[0] == 'g',
        "session.timeout.ms"@[0] == 's',
        "enable.auto.commit"@[0] == 'e',
        "enable.auto.offset.store"@[0] == 'e',
        "auto.offset.reset"@[0] == 'a',
        "compression.type"@[8] == 'i',
        "message.max.bytes"@[0] == 'm',
{
    reveal_strlit("ssl.ca.location");
    reveal_strlit("ssl.key.location");
    reveal_strlit("ssl.certificate.location");
    reveal_strlit("ssl.key.password");
    reveal_strlit("bootstrap.servers");
    reveal_strlit("security.protocol");
    reveal_strlit("enable.partition.eof");
    reveal_strlit("group.id");
    reveal_strlit("group.instance.id");
    reveal_strlit("session.timeout.ms");
    reveal_strlit("enable.auto.commit");
    reveal_strlit("enable.auto.offset.store");
    reveal_strlit("auto.offset.reset");
    reveal_strlit("compression.type");
    reveal_strlit("message.max.bytes");
}

/// Adding encryption settings changes no other setting.
pub proof fn ssl_changes_nothing_else(
    entries: Map<Seq<char>, Seq<char>>,
    ssl: Option<SslView>,
    name: Seq<char>,
)
    requires
        !is_ssl_name(name),
    ensures
        with_ssl(entries, ssl).get(name) == entries.get(name),
{
}

/// Each encryption setting is what was given for it, or what it was before where
/// nothing was given.
pub proof fn ssl_settings_are_given_or_kept(entries: Map<Seq<char>, Seq<char>>, ssl: SslView)
    ensures
        with_ssl(entries, Some(ssl)).get("ssl.ca.location"@) == given_or_kept(
            ssl.ca_location,
            entries,
            "ssl.ca.location"@,
        ),
        with_ssl(entries, Some(ssl)).get("ssl.key.location"@) == given_or_kept(
            ssl.key_location,
            entries,
            "ssl.key.location"@,
        ),
        with_ssl(entries, Some(ssl)).get("ssl.certificate.location"@) == given_or_kept(
            ssl.certificate_location,
            entries,
            "ssl.certificate.location"@,
        ),
        with_ssl(entries, Some(ssl)).get("ssl.key.password"@) == given_or_kept(
            ssl.key_password,
            entries,
            "ssl.key.password"@,
        ),
{
    lemma_names_differ();
}

/// Whatever the configuration, a consumer commits by itself what has been stored
/// and stores nothing by itself, and it joins its group under its instance id.
pub proof fn consumers_never_store_by_themselves(config: KafkaView, instance_id: Seq<char>)
    ensures
        consumer_entries(config, instance_id).get("enable.auto.offset.store"@) == Some("false"@),
        consumer_entries(config, instance_id).get("enable.auto.commit"@) == Some("true"@),
        consumer_entries(config, instance_id).get("group.id"@) == Some(config.consumer_group),
        consumer_entries(config, instance_id).get("group.instance.id"@) == Some(instance_id),
{
    lemma_names_differ();
}

/// The consumers and the producer reach the same brokers in the same way: they
/// agree on the brokers, the protocol and every encryption setting.
pub proof fn clients_connect_alike(config: KafkaView, instance_id: Seq<char>, name: Seq<char>)
    requires
        name == "bootstrap.servers"@ || name == "security.protocol"@ || is_ssl_name(name),
    ensures
        consumer_entries(config, instance_id).get(name) == producer_entries(config).get(name),
        name == "bootstrap.servers"@ ==> producer_entries(config).get(name) == Some(
            config.brokers,
        ),
        name == "security.protocol"@ ==> producer_entries(config).get(name) == Some(
            config.security_protocol,
        ),
{
    lemma_names_differ();
}

/// Adding encryption settings leaves every setting of another name as it was, and
/// all settings where none are given.
pub proof fn other_settings_survive_ssl(
    entries: Map<Seq<char>, Seq<char>>,
    ssl: Option<SslView>,
    name: Seq<char>,
)
    ensures
        with_ssl(entries, None) == entries,
        name != "ssl.ca.location"@
            && name != "ssl.key.location"@
            && name != "ssl.certificate.location"@
            && name != "ssl.key.password"@ ==> with_ssl(entries, ssl).get(name) == entries.get(name),
{
}

/// An encryption setting that is given takes the place of the one before; one that
/// is not given leaves it.
pub proof fn given_ssl_settings_replace(
    entries: Map<Seq<char>, Seq<char>>,
    ssl: SslView,
    value: Seq<char>,
)
    ensures
        ssl.ca_location == Some(value) ==> with_ssl(entries, Some(ssl)).get("ssl.ca.location"@) == Some(value),
        ssl.ca_location is None ==> with_ssl(entries, Some(ssl)).get("ssl.ca.location"@) == entries.get("ssl.ca.location"@),
        ssl.key_location == Some(value) ==> with_ssl(entries, Some(ssl)).get("ssl.key.location"@) == Some(value),
        ssl.key_location is None ==> with_ssl(entries, Some(ssl)).get("ssl.key.location"@) == entries.get("ssl.key.location"@),
        ssl.certificate_location == Some(value) ==> with_ssl(entries, Some(ssl)).get("ssl.certificate.location"@) == Some(value),
        ssl.certificate_location is None ==> with_ssl(entries, Some(ssl)).get("ssl.certificate.location"@) == entries.get("ssl.certificate.location"@),
        ssl.key_password == Some(value) ==> with_ssl(entries, Some(ssl)).get("ssl.key.password"@) == Some(value),
        ssl.key_password is None ==> with_ssl(entries, Some(ssl)).get("ssl.key.password"@) == entries.get("ssl.key.password"@),
{
    lemma_names_differ();
}

/// A consumer takes its brokers, protocol, group and starting point from the
/// configuration and its name from the instance id, has fixed values for five more
/// settings and the encryption settings that are given, and has no other setting.
pub proof fn consumers_have_these_settings(config: KafkaView, instance_id: Seq<char>, name: Seq<char>)
    ensures
        consumer_entries(config, instance_id).get("bootstrap.servers"@) == Some(config.brokers),
        consumer_entries(config, instance_id).get("security.protocol"@) == Some(config.security_protocol),
        consumer_entries(config, instance_id).get("enable.partition.eof"@) == Some("false"@),
        consumer_entries(config, instance_id).get("group.id"@) == Some(config.consumer_group),
        consumer_entries(config, instance_id).get("group.instance.id"@) == Some(instance_id),
        consumer_entries(config, instance_id).get("session.timeout.ms"@) == Some("6000"@),
        consumer_entries(config, instance_id).get("enable.auto.commit"@) == Some("true"@),
        consumer_entries(config, instance_id).get("enable.auto.offset.store"@) == Some("false"@),
        consumer_entries(config, instance_id).get("auto.offset.reset"@) == Some(config.offset_reset),
        config.ssl is None ==> consumer_entries(config, instance_id).get("ssl.ca.location"@) is None,
        config.ssl matches Some(ssl) ==> consumer_entries(config, instance_id).get("ssl.ca.location"@) == ssl.ca_location,
        config.ssl is None ==> consumer_entries(config, instance_id).get("ssl.key.location"@) is None,
        config.ssl matches Some(ssl) ==> consumer_entries(config, instance_id).get("ssl.key.location"@) == ssl.key_location,
        config.ssl is None ==> consumer_entries(config, instance_id).get("ssl.certificate.location"@) is None,
        config.ssl matches Some(ssl) ==> consumer_entries(config, instance_id).get("ssl.certificate.location"@) == ssl.certificate_location,
        config.ssl is None ==> consumer_entries(config, instance_id).get("ssl.key.password"@) is None,
        config.ssl matches Some(ssl) ==> consumer_entries(config, instance_id).get("ssl.key.password"@) == ssl.key_password,
        name != "bootstrap.servers"@
            && name != "security.protocol"@
            && name != "enable.partition.eof"@
            && name != "group.id"@
            && name != "group.instance.id"@
            && name != "session.timeout.ms"@
            && name != "enable.auto.commit"@
            && name != "enable.auto.offset.store"@
            && name != "auto.offset.reset"@
            && name != "ssl.ca.location"@
            && name != "ssl.key.location"@
            && name != "ssl.certificate.location"@
            && name != "ssl.key.password"@
            ==> consumer_entries(config, instance_id).get(name) is None,
{
    lemma_names_differ();
}

/// The producer takes its brokers and protocol from the configuration, has fixed
/// values for two more settings and the encryption settings that are given, and has
/// no other setting.
pub proof fn producers_have_these_settings(config: KafkaView, name: Seq<char>)
    ensures
        producer_entries(config).get("bootstrap.servers"@) == Some(config.brokers),
        producer_entries(config).get("security.protocol"@) == Some(config.security_protocol),
        producer_entries(config).get("compression.type"@) == Some("gzip"@),
        producer_entries(config).get("message.max.bytes"@) == Some("6242880"@),
        config.ssl is None ==> producer_entries(config).get("ssl.ca.location"@) is None,
        config.ssl matches Some(ssl) ==> producer_entries(config).get("ssl.ca.location"@) == ssl.ca_location,
        config.ssl is None ==> producer_entries(config).get("ssl.key.location"@) is None,
        config.ssl matches Some(ssl) ==> producer_entries(config).get("ssl.key.location"@) == ssl.key_location,
        config.ssl is None ==> producer_entries(config).get("ssl.certificate.location"@) is None,
        config.ssl matches Some(ssl) ==> producer_entries(config).get("ssl.certificate.location"@) == ssl.certificate_location,
        config.ssl is None ==> producer_entries(config).get("ssl.key.password"@) is None,
        config.ssl matches Some(ssl) ==> producer_entries(config).get("ssl.key.password"@) == ssl.key_password,
        name != "bootstrap.servers"@
            && name != "security.protocol"@
            && name != "compression.type"@
            && name != "message.max.bytes"@
            && name != "ssl.ca.location"@
            && name != "ssl.key.location"@
            && name != "ssl.certificate.location"@
            && name != "ssl.key.password"@
            ==> producer_entries(config).get(name) is None,
{
    lemma_names_differ();
}

/// Configurations that give the same consumer settings name the same brokers,
/// protocol, group and starting point.
pub proof fn consumer_settings_follow_their_source(
    a: KafkaView,
    b: KafkaView,
    instance_id: Seq<char>,
)
    requires
        consumer_entries(a, instance_id) == consumer_entries(b, instance_id),
    ensures
        a.brokers == b.brokers,
        a.security_protocol == b.security_protocol,
        a.consumer_group == b.consumer_group,
        a.offset_reset == b.offset_reset,
{
    consumers_have_these_settings(a, instance_id, seq![]);
    consumers_have_these_settings(b, instance_id, seq![]);
}

} // verus!
