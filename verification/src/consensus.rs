//! Multi-Raft quorum consensus: log, engine, clocks, membership and regional replication.
pub mod engine;
pub mod hlc;
pub mod links;
pub mod log;
pub mod membership;
pub mod multi_region;
pub mod quorum;
pub mod rpc;
pub mod types;
