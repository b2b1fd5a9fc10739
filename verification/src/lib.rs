//! Keirox: a unified event fabric with quorum consensus, epoch-fenced coordination,
//! protocol gateways, lakehouse commit ledgers and security governance.
pub mod api;
pub mod arena;
pub mod auth;
pub mod bench;
pub mod chaos;
pub mod consensus;
pub mod coordinator;
pub mod diagnostics;
pub mod digest;
pub mod elt;
pub mod error;
pub mod gateway;
pub mod keyed;
pub mod model;
pub mod security;
pub mod text;
pub mod traits;
