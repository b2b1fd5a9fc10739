//! Lakehouse export: Iceberg catalog ledgers with optimistic commits, and schema
//! shredding limits.
pub mod catalog;
pub mod committer;
pub mod shredder;
