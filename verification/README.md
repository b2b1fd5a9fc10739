# keirox

Verified core of the Keirox event fabric: Raft consensus, coordinator sharding and
epoch fencing, protocol gateways (Kafka, SQS, AMQP, migration bridge), lakehouse commit
ledgers, security governance (envelope encryption, crypto-shredding, ABAC, audit
ledger), health probes and telemetry rendering.

Layout:

- `src/` is the library. Every function carries a contract that Verus proves; the
  laws that span several operations are public proof functions named `law_*`. Calls
  into hashing, checksum, digest, AEAD, randomness and buffer crates go through small
  trusted wrappers in `src/digest.rs`, `src/text.rs`, `src/error.rs`,
  `src/gateway/protocol.rs`, `src/api/health.rs` and `src/arena.rs`, each documented
  with what it assumes of the outside function.
- `app/` is ordinary Rust around the library: the asynchronous gateway, Raft group and
  mesh shells that await peers and clusters and feed their answers to the library's
  decision functions, Parquet export, the benchmark timer, and the copies of library
  types that carry `serde` and `thiserror` derives.
- `tests/` runs the library on concrete values.

Verify with Verus on `src/lib.rs`; build and test with Cargo.
