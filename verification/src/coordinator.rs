//! Coordinator sharding, consistent hashing, epoch fencing, lease journals and recovery.
pub mod consistent_hash;
pub mod epoch_fencing;
pub mod lease_journal;
pub mod node;
pub mod pitr;
pub mod shard;
