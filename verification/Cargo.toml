[package]
name = "kafka-rust-mapper-base"
version = "0.1.0"
edition = "2021"
publish = false

[dependencies]
futures = "0.3"
itertools = "*"
log = "0.4"
opentelemetry = "*"
opentelemetry-otlp = { version = "*", features = ["grpc-tonic", "metrics"] }
opentelemetry_sdk = "*"
rdkafka = "*"
tokio = { version = "1", features = ["macros", "rt-multi-thread", "signal", "sync", "time"] }
tokio-util = "0.7"
tracing-subscriber = { version = "0.3", features = ["env-filter"] }
anyhow = "1"
thiserror = "*"
