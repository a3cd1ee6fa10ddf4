# kafka-rust-mapper-base

A base for services that read records from a Kafka topic, map each payload and
write the result to another topic.

- `src/` is the library, verified with Verus: reading a record and deciding what
  is sent and stored for it (`message`), the life of the consumers (`run`), the
  client configurations (`client`), commit reports (`commit`), partition lists as
  text (`partitions`), the mapper itself (`mapper`), settings (`config`), errors
  (`error`) and plain text (`text`).
- `app/` is the program around it: it talks to the brokers, exports metrics and
  handles signals, and does what the library decides.
- `tests/` runs the library with the real client crate linked.

The calls into outside crates that the library makes stand behind small functions
marked `external_body`, in `client`, `message` and `partitions`. Their contracts
are taken on trust; everything else is proved.
