//! Multi-region single-writer primary with asynchronous replicas and regional epoch fencing.
use crate::consensus::hlc::{
    now_reading, reading, update_reading, HlcTimestamp, HybridLogicalClock,
};
use crate::error::KeiroxError;
use crate::model::{StreamId, TenantId};
use crate::text::{decimal, push_decimal, push_str};
use vstd::prelude::*;

verus! {

/// Identifier of a cloud or geographical region.
#[derive(Debug, Clone, Copy, PartialEq, Eq, Structural, PartialOrd, Ord, Hash)]
pub struct RegionId(pub u16);

/// Regional epoch counter incremented on cross-region failover to fence stale primaries.
#[derive(Debug, Clone, Copy, PartialEq, Eq, Structural, PartialOrd, Ord, Hash)]
pub struct RegionEpoch(pub u64);

impl RegionEpoch {
    /// Advance epoch by one.
    pub fn next(self) -> (r: Self)
        requires
            self.0 < u64::MAX,
        ensures
            r.0 == self.0 + 1,
    {
        RegionEpoch(self.0 + 1)
    }
}

/// Regional operating role for a stream or cluster partition.
#[derive(Debug, Clone, Copy, PartialEq, Eq, Structural)]
pub enum RegionRole {
    /// Primary region accepting client writes.
    Primary,
    /// Secondary replica region asynchronously replicating primary WAL batches.
    SecondaryReplica,
}

/// Cross-region replication batch frame carrying causal HLC metadata.
#[derive(Debug, Clone)]
pub struct ReplicationBatch {
    /// Originating tenant ID.
    pub tenant_id: TenantId,
    /// Target micro-stream ID.
    pub stream_id: StreamId,
    /// Base offset in the primary region.
    pub base_offset: u64,
    /// Raw batch records.
    pub records: Vec<Vec<u8>>,
    /// Originating region identifier.
    pub origin_region: RegionId,
    /// Hybrid Logical Clock timestamp from primary.
    pub hlc_timestamp: HlcTimestamp,
    /// Current regional epoch.
    pub region_epoch: RegionEpoch,
}

/// Multi-region replication manager enforcing single-writer invariants and epoch fencing.
pub struct MultiRegionReplicator {
    local_region: RegionId,
    role: RegionRole,
    current_epoch: RegionEpoch,
    hlc: HybridLogicalClock,
    replicated_offsets: Vec<(StreamId, u64)>,
}

/// Mathematical state of a replicator.
pub struct ReplicatorView {
    pub region: u16,
    pub role: RegionRole,
    pub epoch: u64,
    pub clock: (u64, u32),
    pub clock_node: u16,
    /// Last replicated offset per stream, one entry per stream.
    pub offsets: Seq<([u8; 16], u64)>,
}

/// Offsets with the entry for stream `k` set to `v`.
pub open spec fn offsets_insert(t: Seq<([u8; 16], u64)>, k: [u8; 16], v: u64) -> Seq<([u8; 16], u64)> {
    if exists|i: int| 0 <= i < t.len() && t[i].0 == k {
        let i = choose|i: int| 0 <= i < t.len() && t[i].0 == k;
        t.update(i, (k, v))
    } else {
        t.push((k, v))
    }
}

/// Each stream occurs at most once.
pub open spec fn offsets_unique(t: Seq<([u8; 16], u64)>) -> bool {
    forall|i: int, j: int| 0 <= i < j < t.len() ==> t[i].0 != t[j].0
}

/// Offsets as stream bytes and values.
pub open spec fn offsets_view(t: Seq<(StreamId, u64)>) -> Seq<([u8; 16], u64)> {
    t.map_values(|p: (StreamId, u64)| (p.0.0, p.1))
}

impl View for MultiRegionReplicator {
    type V = ReplicatorView;

    closed spec fn view(&self) -> ReplicatorView {
        ReplicatorView {
            region: self.local_region.0,
            role: self.role,
            epoch: self.current_epoch.0,
            clock: self.hlc.last(),
            clock_node: self.hlc.node(),
            offsets: offsets_view(self.replicated_offsets@),
        }
    }
}

/// Last offset covered by a batch.
pub open spec fn batch_last_offset(base: u64, n: nat) -> int {
    base + n - 1
}

impl MultiRegionReplicator {
    /// Streams recorded at most once.
    pub closed spec fn wf(&self) -> bool {
        offsets_unique(offsets_view(self.replicated_offsets@))
    }

    /// Create a new replicator in epoch 1 with a fresh clock stamped with the region.
    pub fn new(local_region: RegionId, role: RegionRole) -> (m: Self)
        ensures
            m.wf(),
            m@.region == local_region.0,
            m@.role == role,
            m@.epoch == 1,
            m@.clock == (0u64, 0u32),
            m@.clock_node == local_region.0,
            m@.offsets.len() == 0,
    {
        let m = MultiRegionReplicator {
            local_region,
            role,
            current_epoch: RegionEpoch(1),
            hlc: HybridLogicalClock::new(local_region.0),
            replicated_offsets: Vec::new(),
        };
        assert(offsets_view(m.replicated_offsets@) =~= Seq::empty());
        m
    }

    /// Current operational role of this region.
    pub fn role(&self) -> (r: RegionRole)
        ensures
            r == self@.role,
    {
        self.role
    }

    /// Current active regional epoch.
    pub fn epoch(&self) -> (r: RegionEpoch)
        ensures
            r.0 == self@.epoch,
    {
        self.current_epoch
    }

    /// Prepare a batch for cross-region replication (primary only): it carries the
    /// region, the current epoch and a fresh local timestamp.
    pub fn create_replication_batch(
        &mut self,
        tenant_id: TenantId,
        stream_id: StreamId,
        base_offset: u64,
        records: Vec<Vec<u8>>,
        physical_now_ms: u64,
    ) -> (r: Result<ReplicationBatch, KeiroxError>)
        requires
            physical_now_ms > old(self)@.clock.0 || old(self)@.clock.1 < u32::MAX,
        ensures
            final(self).wf() == old(self).wf(),
            old(self)@.role != RegionRole::Primary ==> {
                &&& final(self)@ == old(self)@
                &&& r matches Err(KeiroxError::Internal(m))
                &&& m@ == "Cannot create replication batch on secondary replica region"@
            },
            old(self)@.role == RegionRole::Primary ==> {
                &&& final(self)@ == (ReplicatorView {
                    clock: now_reading(old(self)@.clock, physical_now_ms),
                    ..old(self)@
                })
                &&& r matches Ok(b) && b.tenant_id == tenant_id && b.stream_id == stream_id
                    && b.base_offset == base_offset && b.records@ == records@ && b.origin_region.0
                    == old(self)@.region && reading(b.hlc_timestamp) == final(self)@.clock
                    && b.hlc_timestamp.node_id == old(self)@.clock_node && b.region_epoch.0
                    == old(self)@.epoch
            },
    {
        match self.role {
            RegionRole::Primary => {},
            RegionRole::SecondaryReplica => {
                let mut m = String::new();
                push_str(&mut m, "Cannot create replication batch on secondary replica region");
                return Err(KeiroxError::Internal(m));
            },
        }
        let epoch = self.current_epoch;
        let hlc_timestamp = self.hlc.now(physical_now_ms);
        Ok(ReplicationBatch {
            tenant_id,
            stream_id,
            base_offset,
            records,
            origin_region: self.local_region,
            hlc_timestamp,
            region_epoch: epoch,
        })
    }

    /// Apply an incoming replication batch (replica only): a primary refuses it as a
    /// possible dual primary, a batch from an older epoch is fenced; otherwise the clock
    /// advances past the batch's timestamp and the stream's last replicated offset is
    /// recorded and returned.
    pub fn apply_replication_batch(&mut self, batch: &ReplicationBatch, physical_now_ms: u64) -> (r: Result<u64, KeiroxError>)
        requires
            old(self).wf(),
            old(self)@.clock.1 < u32::MAX,
            batch.hlc_timestamp.logical < u32::MAX,
            batch.base_offset + batch.records@.len() >= 1,
            batch.base_offset + batch.records@.len() - 1 <= u64::MAX,
        ensures
            final(self).wf(),
            old(self)@.role == RegionRole::Primary ==> {
                &&& final(self)@ == old(self)@
                &&& r matches Err(KeiroxError::EpochFenced(m))
                &&& m@ == "Primary region rejected incoming replication batch; potential dual-primary split-brain"@
            },
            old(self)@.role != RegionRole::Primary && batch.region_epoch.0 < old(self)@.epoch ==> {
                &&& final(self)@ == old(self)@
                &&& r matches Err(KeiroxError::EpochFenced(m))
                &&& m@ == "Stale replication batch epoch RegionEpoch("@ + decimal(batch.region_epoch.0 as nat)
                    + ") < active regional epoch RegionEpoch("@ + decimal(old(self)@.epoch as nat) + ")"@
            },
            old(self)@.role != RegionRole::Primary && batch.region_epoch.0 >= old(self)@.epoch ==> {
                let last = batch_last_offset(batch.base_offset, batch.records@.len());
                &&& r == Ok::<u64, KeiroxError>(last as u64)
                &&& final(self)@ == (ReplicatorView {
                    clock: update_reading(old(self)@.clock, reading(batch.hlc_timestamp), physical_now_ms),
                    offsets: offsets_insert(old(self)@.offsets, batch.stream_id.0, last as u64),
                    ..old(self)@
                })
            },
    {
        match self.role {
            RegionRole::Primary => {
                let mut m = String::new();
                push_str(
                    &mut m,
                    "Primary region rejected incoming replication batch; potential dual-primary split-brain",
                );
                return Err(KeiroxError::EpochFenced(m));
            },
            RegionRole::SecondaryReplica => {},
        }
        let current_epoch = self.current_epoch;
        if batch.region_epoch.0 < current_epoch.0 {
            let mut m = String::new();
            push_str(&mut m, "Stale replication batch epoch RegionEpoch(");
            push_decimal(&mut m, batch.region_epoch.0);
            push_str(&mut m, ") < active regional epoch RegionEpoch(");
            push_decimal(&mut m, current_epoch.0);
            push_str(&mut m, ")");
            return Err(KeiroxError::EpochFenced(m));
        }
        self.hlc.update(batch.hlc_timestamp, physical_now_ms);
        let n = batch.records.len() as u64;
        let last_offset = if n == 0 {
            batch.base_offset - 1
        } else {
            batch.base_offset + (n - 1)
        };
        let stream = batch.stream_id;
        let ghost t = offsets_view(self.replicated_offsets@);
        let mut i: usize = 0;
        let mut found = false;
        while !found && i < self.replicated_offsets.len()
            invariant
                i <= self.replicated_offsets@.len(),
                t == offsets_view(self.replicated_offsets@),
                found ==> i < t.len() && t[i as int].0 == stream.0,
                forall|j: int| 0 <= j < i ==> (#[trigger] t[j]).0 != stream.0,
            decreases self.replicated_offsets.len() - i + (if found { 0int } else { 1int }),
        {
            if crate::model::bytes16_eq(&self.replicated_offsets[i].0.0, &stream.0) {
                found = true;
            } else {
                i = i + 1;
            }
        }
        if found {
            assert(t[i as int].0 == stream.0);
            self.replicated_offsets.set(i, (stream, last_offset));
            assert(offsets_view(self.replicated_offsets@) =~= offsets_insert(t, stream.0, last_offset)) by {
                assert(exists|k: int| 0 <= k < t.len() && t[k].0 == stream.0);
                let k = choose|k: int| 0 <= k < t.len() && t[k].0 == stream.0;
                if k != i {
                    if k < i {
                        assert(t[k].0 != stream.0);
                    } else {
                        assert(t[i as int].0 != t[k].0);
                    }
                }
            }
        } else {
            self.replicated_offsets.push((stream, last_offset));
            assert(offsets_view(self.replicated_offsets@) =~= offsets_insert(t, stream.0, last_offset));
        }
        Ok(last_offset)
    }

    /// Promote secondary replica to new primary during regional failover: the epoch
    /// advances by one and is returned.
    pub fn promote_to_primary(&mut self) -> (r: Result<RegionEpoch, KeiroxError>)
        requires
            old(self)@.epoch < u64::MAX,
        ensures
            final(self).wf() == old(self).wf(),
            r == Ok::<RegionEpoch, KeiroxError>(RegionEpoch((old(self)@.epoch + 1) as u64)),
            final(self)@ == (ReplicatorView {
                role: RegionRole::Primary,
                epoch: (old(self)@.epoch + 1) as u64,
                ..old(self)@
            }),
    {
        let new_epoch = self.current_epoch.next();
        self.current_epoch = new_epoch;
        self.role = RegionRole::Primary;
        Ok(new_epoch)
    }

    /// Demote active primary to secondary replica under the given epoch.
    pub fn demote_to_replica(&mut self, new_epoch: RegionEpoch) -> (r: Result<(), KeiroxError>)
        ensures
            final(self).wf() == old(self).wf(),
            r is Ok,
            final(self)@ == (ReplicatorView {
                role: RegionRole::SecondaryReplica,
                epoch: new_epoch.0,
                ..old(self)@
            }),
    {
        self.current_epoch = new_epoch;
        self.role = RegionRole::SecondaryReplica;
        Ok(())
    }
}

/// Single-writer fencing: after a replica is promoted, every batch stamped with an
/// epoch from before the promotion is rejected.
pub proof fn law_promotion_fences_stale_batches(v: ReplicatorView, batch_epoch: u64)
    requires
        v.epoch < u64::MAX,
        batch_epoch <= v.epoch,
    ensures
        ({
            let promoted = ReplicatorView {
                role: RegionRole::Primary,
                epoch: (v.epoch + 1) as u64,
                ..v
            };
            &&& promoted.role == RegionRole::Primary
            &&& batch_epoch < promoted.epoch
        }),
{
}

} // verus!
