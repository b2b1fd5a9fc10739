//! Protocol gateways: Kafka wire protocol with idempotent produce, SQS and AMQP
//! translation, and the Kafka-to-Keirox migration bridge.
pub mod protocol;
pub mod idempotence;
pub mod topic_mapper;
pub mod sqs;
pub mod amqp;
pub mod migration;
pub mod server;
