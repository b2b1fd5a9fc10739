//! Client-facing services: administrative reports, health probes, Kafka framing,
//! telemetry, and wire acknowledgement modes.
pub mod admin;
pub mod health;
pub mod kafka;
pub mod metrics;
pub mod proto;
