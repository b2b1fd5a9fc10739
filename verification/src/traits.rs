//! Interfaces that storage engines, consensus coordinators, catalogs and consumption
//! state overlays implement.
use crate::error::KeiroxError;
use crate::model::{Offset, StreamId};
use vstd::prelude::*;

verus! {

/// Physical append-only storage engines.
pub trait StorageEngine {
    /// Append a pre-allocated byte batch to physical storage.
    fn append_batch(&mut self, stream_id: StreamId, batch: &[u8]) -> Result<Offset, KeiroxError>;

    /// Read records for a stream starting at a given offset.
    fn read_records(&self, stream_id: StreamId, start_offset: Offset, max_records: usize) -> Result<
        Vec<u8>,
        KeiroxError,
    >;
}

/// Another name for a storage engine.
pub trait WalEngine: StorageEngine {

}

impl<T: StorageEngine> WalEngine for T {

}

/// Distributed consensus coordinators.
pub trait ConsensusCoordinator {
    /// Propose a state machine metadata change to quorum.
    fn propose_command(&self, command: &[u8]) -> Result<u64, KeiroxError>;

    /// Check if local coordinator node is the elected active leader.
    fn is_leader(&self) -> bool;

    /// Return the active consensus term / epoch.
    fn current_term(&self) -> u64;
}

/// Columnar catalog and lakehouse synchronisation.
pub trait CatalogSync {
    /// Register a sealed snapshot commit in the metadata catalog.
    fn register_snapshot(&self, table_name: &str, snapshot_data: &[u8]) -> Result<u64, KeiroxError>;

    /// Retrieve the current serialized active catalog snapshot metadata.
    fn current_snapshot(&self, table_name: &str) -> Result<Option<Vec<u8>>, KeiroxError>;

    /// Prune snapshots older than retention threshold.
    fn expire_snapshots_before(&self, table_name: &str, cutoff_timestamp_ms: u64) -> Result<
        usize,
        KeiroxError,
    >;
}

/// Consumption state overlays (streaming, queuing, dead-lettering).
pub trait StateOverlayEngine {
    /// Grant an exclusive lease on an offset for a duration.
    fn grant_lease(&mut self, stream_id: StreamId, offset: Offset, ttl_us: u64) -> Result<bool, KeiroxError>;

    /// Acknowledge an offset as terminal.
    fn acknowledge(&mut self, stream_id: StreamId, offset: Offset) -> Result<(), KeiroxError>;

    /// Negative-acknowledge an offset to return it to the Ready queue.
    fn negative_acknowledge(&mut self, stream_id: StreamId, offset: Offset) -> Result<(), KeiroxError>;

    /// Evict an offset to the virtual Dead-Letter Queue.
    fn evict_to_dlq(&mut self, stream_id: StreamId, offset: Offset) -> Result<(), KeiroxError>;

    /// Return the current monotonic base watermark for a stream.
    fn base_watermark(&self, stream_id: StreamId) -> Offset;
}

} // verus!
