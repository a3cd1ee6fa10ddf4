//! The verified core of a Kafka mapping service.
//!
//! The service reads records from an input topic, maps each payload and writes
//! the result to an output topic. Everything that decides or computes stands
//! here, with its contract: how a raw record is read, what is sent and when an
//! offset is stored, how a consumer restarts or stops, which client settings are
//! used, and how partition lists are rendered. Talking to the brokers is left to
//! the program around this library.
pub mod client;
pub mod commit;
pub mod config;
pub mod error;
pub mod mapper;
pub mod message;
pub mod partitions;
pub mod run;
pub mod text;
