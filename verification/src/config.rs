//! The settings of the Kafka clients.
use crate::text;
use vstd::prelude::*;

verus! {

/// Where the files for an encrypted connection lie.
pub struct Ssl {
    pub ca_location: Option<String>,
    pub key_location: Option<String>,
    pub certificate_location: Option<String>,
    pub key_password: Option<String>,
}

/// How the brokers are reached, and what is read and written there.
pub struct Kafka {
    pub brokers: String,
    pub offset_reset: String,
    pub security_protocol: String,
    pub consumer_group: String,
    pub input_topic: String,
    pub output_topic: String,
    pub num_partitions: i32,
    pub ssl: Option<Ssl>,
}

/// What an `Ssl` holds.
pub struct SslView {
    pub ca_location: Option<Seq<char>>,
    pub key_location: Option<Seq<char>>,
    pub certificate_location: Option<Seq<char>>,
    pub key_password: Option<Seq<char>>,
}

/// What a `Kafka` holds.
pub struct KafkaView {
    pub brokers: Seq<char>,
    pub offset_reset: Seq<char>,
    pub security_protocol: Seq<char>,
    pub consumer_group: Seq<char>,
    pub input_topic: Seq<char>,
    pub output_topic: Seq<char>,
    pub num_partitions: int,
    pub ssl: Option<SslView>,
}

/// The view of encryption settings that may be absent.
pub open spec fn optional_ssl(ssl: Option<Ssl>) -> Option<SslView> {
    match ssl {
        Some(s) => Some(s@),
        None => None,
    }
}

impl View for Ssl {
    type V = SslView;

    open spec fn view(&self) -> SslView {
        SslView {
            ca_location: text::optional_text(self.ca_location),
            key_location: text::optional_text(self.key_location),
            certificate_location: text::optional_text(self.certificate_location),
            key_password: text::optional_text(self.key_password),
        }
    }
}

impl View for Kafka {
    type V = KafkaView;

    open spec fn view(&self) -> KafkaView {
        KafkaView {
            brokers: self.brokers@,
            offset_reset: self.offset_reset@,
            security_protocol: self.security_protocol@,
            consumer_group: self.consumer_group@,
            input_topic: self.input_topic@,
            output_topic: self.output_topic@,
            num_partitions: self.num_partitions as int,
            ssl: optional_ssl(self.ssl),
        }
    }
}

impl Clone for Ssl {
    fn clone(&self) -> (r: Self)
        ensures
            r@ == self@,
    {
        Ssl {
            ca_location: self.ca_location.clone(),
            key_location: self.key_location.clone(),
            certificate_location: self.certificate_location.clone(),
            key_password: self.key_password.clone(),
        }
    }
}

impl Clone for Kafka {
    fn clone(&self) -> (r: Self)
        ensures
            r@ == self@,
    {
        Kafka {
            brokers: self.brokers.clone(),
            offset_reset: self.offset_reset.clone(),
            security_protocol: self.security_protocol.clone(),
            consumer_group: self.consumer_group.clone(),
            input_topic: self.input_topic.clone(),
            output_topic: self.output_topic.clone(),
            num_partitions: self.num_partitions,
            ssl: self.ssl.clone(),
        }
    }
}

/// The text of a log filter.
pub open spec fn filter_text(target: Seq<char>, level: Seq<char>) -> Seq<char> {
    target + "="@ + level
}

/// The log filter that applies `level` to the log target `target`.
pub fn log_filter(target: &str, level: &str) -> (r: String)
    ensures
        r@ == target@ + "="@ + level@,
        r@ == filter_text(target@, level@),
{
    target.to_owned().concat("=").concat(level)
}

/// The view of encryption settings holds each of them, and nothing where there is
/// none.
pub proof fn ssl_views_tell_the_settings(ssl: Ssl, value: String)
    ensures
        optional_ssl(None) is None,
        optional_ssl(Some(ssl)) == Some(ssl@),
        ssl.ca_location is None ==> ssl@.ca_location is None,
        ssl.key_location is None ==> ssl@.key_location is None,
        ssl.certificate_location is None ==> ssl@.certificate_location is None,
        ssl.key_password is None ==> ssl@.key_password is None,
        ssl.ca_location == Some(value) ==> ssl@.ca_location == Some(value@),
        ssl.key_location == Some(value) ==> ssl@.key_location == Some(value@),
        ssl.certificate_location == Some(value) ==> ssl@.certificate_location == Some(value@),
        ssl.key_password == Some(value) ==> ssl@.key_password == Some(value@),
{
}

/// The view of the client settings holds each of them.
pub proof fn kafka_views_tell_the_settings(kafka: Kafka, ssl: Ssl)
    ensures
        kafka@.brokers == kafka.brokers@,
        kafka@.offset_reset == kafka.offset_reset@,
        kafka@.security_protocol == kafka.security_protocol@,
        kafka@.consumer_group == kafka.consumer_group@,
        kafka@.input_topic == kafka.input_topic@,
        kafka@.output_topic == kafka.output_topic@,
        kafka@.num_partitions == kafka.num_partitions,
        kafka.ssl is None ==> kafka@.ssl is None,
        kafka.ssl == Some(ssl) ==> kafka@.ssl == Some(ssl@),
{
}

/// A log filter can be taken apart again: the target, an equals sign, the level.
pub proof fn log_filters_come_apart(target: Seq<char>, level: Seq<char>)
    ensures
        filter_text(target, level).len() == target.len() + 1 + level.len(),
        filter_text(target, level).take(target.len() as int) == target,
        filter_text(target, level)[target.len() as int] == '=',
        filter_text(target, level).skip(target.len() as int + 1) == level,
{
    reveal_strlit("=");
    assert(filter_text(target, level).take(target.len() as int) =~= target);
    assert(filter_text(target, level).skip(target.len() as int + 1) =~= level);
}

} // verus!
