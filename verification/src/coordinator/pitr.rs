//! Point-in-time recovery that never resurrects crypto-shredded records, and legal
//! holds that suspend destructive compaction of a stream.
use crate::error::KeiroxError;
use crate::keyed::{
    lemma_pairs_absent, lemma_pairs_empty, lemma_pairs_lookup, lemma_pairs_push,
    lemma_pairs_remove, pairs_map, pairs_unique,
};
use crate::model::{StreamId, TenantId};
use crate::security::{key_of, DekId, DestroyedKeyRegistry};
use vstd::prelude::*;

verus! {

/// Legal Hold status for compliance and litigation readiness.
#[derive(Debug, Clone)]
pub struct LegalHoldEntry {
    /// Target tenant ID.
    pub tenant_id: TenantId,
    /// Target stream ID.
    pub stream_id: StreamId,
    /// Active legal hold identifier.
    pub hold_id: String,
    /// Reason and court docket reference.
    pub reason: String,
    /// Applied timestamp.
    pub applied_at_ns: u64,
}

/// Point-in-Time Recovery (PITR) execution target.
#[derive(Debug, Clone, Copy)]
pub struct PitrRestoreTarget {
    /// Tenant ID to restore.
    pub tenant_id: TenantId,
    /// Stream ID to restore.
    pub stream_id: StreamId,
    /// Target restoration timestamp cutoff (nanoseconds).
    pub target_timestamp_ns: u64,
}

/// Verification report generated after executing PITR restore.
#[derive(Debug, Clone, Copy)]
pub struct PitrRestoreReport {
    /// Target tenant ID.
    pub tenant_id: TenantId,
    /// Target stream ID.
    pub stream_id: StreamId,
    /// Target timestamp.
    pub target_timestamp_ns: u64,
    /// Total records successfully recovered up to target timestamp.
    pub records_recovered: u64,
    /// Number of records blocked from resurrection due to crypto-shredded DEKs.
    pub shredded_records_blocked: usize,
    /// Restore status.
    pub success: bool,
}

/// A backed-up record: timestamp, the key that encrypted it (if any), payload.
pub type BackupRecord = (u64, Option<DekId>, Vec<u8>);

/// The record's key was shredded for the tenant.
pub open spec fn shredded(
    registry: Map<(Seq<u8>, u64), crate::security::DestroyedKeyEntry>,
    tenant: TenantId,
    r: BackupRecord,
) -> bool {
    r.1 matches Some(d) && registry.contains_key(key_of(tenant, d))
}

/// Records at or before the cutoff whose key is intact.
pub open spec fn recovered_count(
    records: Seq<BackupRecord>,
    cutoff: u64,
    registry: Map<(Seq<u8>, u64), crate::security::DestroyedKeyEntry>,
    tenant: TenantId,
) -> nat
    decreases records.len(),
{
    if records.len() == 0 {
        0
    } else {
        let r = records.last();
        recovered_count(records.drop_last(), cutoff, registry, tenant) + if r.0 <= cutoff
            && !shredded(registry, tenant, r) {
            1nat
        } else {
            0nat
        }
    }
}

/// Records at or before the cutoff whose key was shredded.
pub open spec fn blocked_count(
    records: Seq<BackupRecord>,
    cutoff: u64,
    registry: Map<(Seq<u8>, u64), crate::security::DestroyedKeyEntry>,
    tenant: TenantId,
) -> nat
    decreases records.len(),
{
    if records.len() == 0 {
        0
    } else {
        let r = records.last();
        blocked_count(records.drop_last(), cutoff, registry, tenant) + if r.0 <= cutoff && shredded(
            registry,
            tenant,
            r,
        ) {
            1nat
        } else {
            0nat
        }
    }
}

/// Records at or before the cutoff.
pub open spec fn in_window_count(records: Seq<BackupRecord>, cutoff: u64) -> nat
    decreases records.len(),
{
    if records.len() == 0 {
        0
    } else {
        in_window_count(records.drop_last(), cutoff) + if records.last().0 <= cutoff {
            1nat
        } else {
            0nat
        }
    }
}

/// A hold's key: tenant bytes and stream bytes.
pub open spec fn hold_key(t: TenantId, s: StreamId) -> (Seq<u8>, Seq<u8>) {
    (t.0@, s.0@)
}

/// Entries of the hold list.
pub open spec fn hold_pairs(v: Seq<(TenantId, StreamId)>) -> Seq<((Seq<u8>, Seq<u8>), ())> {
    v.map_values(|e: (TenantId, StreamId)| (hold_key(e.0, e.1), ()))
}

/// Point-in-Time Recovery Engine governing disaster recovery and legal hold invariants.
pub struct PitrRecoveryEngine {
    active_legal_holds: Vec<(TenantId, StreamId)>,
}

impl PitrRecoveryEngine {
    /// Registry and hold list are well formed.
    pub closed spec fn wf(&self) -> bool {
        pairs_unique(hold_pairs(self.active_legal_holds@))
    }

    /// Streams under legal hold.
    pub closed spec fn holds(&self) -> Set<(Seq<u8>, Seq<u8>)> {
        pairs_map(hold_pairs(self.active_legal_holds@)).dom()
    }

    /// Create a new PITR recovery engine with no legal holds. Restores consult the
    /// destroyed-key registry as it stands when they run.
    pub fn new() -> (r: Self)
        ensures
            r.wf(),
            r.holds() == Set::<(Seq<u8>, Seq<u8>)>::empty(),
    {
        let r = PitrRecoveryEngine { active_legal_holds: Vec::new() };
        proof {
            lemma_pairs_empty(hold_pairs(r.active_legal_holds@));
        }
        r
    }

    fn find_hold(&self, tenant_id: TenantId, stream_id: StreamId) -> (r: Option<usize>)
        requires
            self.wf(),
        ensures
            match r {
                Some(i) => i < self.active_legal_holds@.len() && hold_pairs(
                    self.active_legal_holds@,
                )[i as int].0 == hold_key(tenant_id, stream_id),
                None => !self.holds().contains(hold_key(tenant_id, stream_id)),
            },
    {
        let ghost p = hold_pairs(self.active_legal_holds@);
        let mut i: usize = 0;
        while i < self.active_legal_holds.len()
            invariant
                p == hold_pairs(self.active_legal_holds@),
                i <= self.active_legal_holds@.len(),
                forall|j: int| 0 <= j < i ==> p[j].0 != hold_key(tenant_id, stream_id),
            decreases self.active_legal_holds.len() - i,
        {
            let e = &self.active_legal_holds[i];
            if e.0 == tenant_id && e.1 == stream_id {
                return Some(i);
            }
            i = i + 1;
        }
        proof {
            lemma_pairs_absent(p, hold_key(tenant_id, stream_id));
        }
        None
    }

    /// Place a stream under Legal Hold to suspend destructive compaction and log deletion.
    pub fn apply_legal_hold(&mut self, hold: LegalHoldEntry) -> (r: Result<(), KeiroxError>)
        requires
            old(self).wf(),
        ensures
            final(self).wf(),
            r is Ok,
            final(self).holds() == old(self).holds().insert(hold_key(hold.tenant_id, hold.stream_id)),
    {
        let ghost s = self.active_legal_holds@;
        let ghost k = hold_key(hold.tenant_id, hold.stream_id);
        match self.find_hold(hold.tenant_id, hold.stream_id) {
            Some(i) => {
                proof {
                    lemma_pairs_lookup(hold_pairs(s), i as int);
                    assert(pairs_map(hold_pairs(s)).dom().insert(k) =~= pairs_map(hold_pairs(s)).dom());
                }
            },
            None => {
                self.active_legal_holds.push((hold.tenant_id, hold.stream_id));
                proof {
                    lemma_pairs_push(hold_pairs(s), k, ());
                    assert(hold_pairs(self.active_legal_holds@) =~= hold_pairs(s).push((k, ())));
                    assert(pairs_map(hold_pairs(s)).insert(k, ()).dom() =~= pairs_map(
                        hold_pairs(s),
                    ).dom().insert(k));
                }
            },
        }
        Ok(())
    }

    /// Release an active Legal Hold on a stream; `Ok(true)` when one was active.
    pub fn release_legal_hold(&mut self, tenant_id: TenantId, stream_id: StreamId) -> (r: Result<
        bool,
        KeiroxError,
    >)
        requires
            old(self).wf(),
        ensures
            final(self).wf(),
            r == Ok::<bool, KeiroxError>(old(self).holds().contains(hold_key(tenant_id, stream_id))),
            final(self).holds() == old(self).holds().remove(hold_key(tenant_id, stream_id)),
    {
        let ghost s = self.active_legal_holds@;
        let ghost k = hold_key(tenant_id, stream_id);
        match self.find_hold(tenant_id, stream_id) {
            Some(i) => {
                self.active_legal_holds.remove(i);
                proof {
                    lemma_pairs_lookup(hold_pairs(s), i as int);
                    lemma_pairs_remove(hold_pairs(s), i as int);
                    assert(hold_pairs(self.active_legal_holds@) =~= hold_pairs(s).remove(i as int));
                    assert(pairs_map(hold_pairs(s)).remove(k).dom() =~= pairs_map(
                        hold_pairs(s),
                    ).dom().remove(k));
                }
                Ok(true)
            },
            None => {
                assert(pairs_map(hold_pairs(s)).dom().remove(k) =~= pairs_map(hold_pairs(s)).dom());
                Ok(false)
            },
        }
    }

    /// Check if a stream is protected under active Legal Hold.
    pub fn is_under_legal_hold(&self, tenant_id: TenantId, stream_id: StreamId) -> (b: bool)
        requires
            self.wf(),
        ensures
            b == self.holds().contains(hold_key(tenant_id, stream_id)),
    {
        match self.find_hold(tenant_id, stream_id) {
            Some(i) => {
                proof {
                    lemma_pairs_lookup(hold_pairs(self.active_legal_holds@), i as int);
                }
                true
            },
            None => false,
        }
    }

    /// Execute a PITR restore over backed-up records against the current registry of
    /// destroyed keys: records after the cutoff are skipped, records whose key was
    /// shredded for the tenant are blocked and never recovered, the rest are recovered.
    pub fn execute_pitr_restore(
        &self,
        destroyed_registry: &DestroyedKeyRegistry,
        target: PitrRestoreTarget,
        records: &[BackupRecord],
    ) -> (r: Result<PitrRestoreReport, KeiroxError>)
        requires
            self.wf(),
            destroyed_registry.wf(),
        ensures
            r matches Ok(rep) && rep.tenant_id == target.tenant_id && rep.stream_id == target.stream_id
                && rep.target_timestamp_ns == target.target_timestamp_ns && rep.records_recovered
                == recovered_count(
                records@,
                target.target_timestamp_ns,
                destroyed_registry@,
                target.tenant_id,
            ) && rep.shredded_records_blocked == blocked_count(
                records@,
                target.target_timestamp_ns,
                destroyed_registry@,
                target.tenant_id,
            ) && rep.success,
    {
        let ghost reg = destroyed_registry@;
        let ghost cutoff = target.target_timestamp_ns;
        let ghost tenant = target.tenant_id;
        let mut recovered: u64 = 0;
        let mut blocked: usize = 0;
        let mut i: usize = 0;
        proof {
            lemma_counts_bounded(records@.take(0), cutoff, reg, tenant);
            assert(records@.take(0) =~= Seq::<BackupRecord>::empty());
        }
        while i < records.len()
            invariant
                self.wf(),
                destroyed_registry.wf(),
                reg == destroyed_registry@,
                cutoff == target.target_timestamp_ns,
                tenant == target.tenant_id,
                i <= records@.len(),
                recovered == recovered_count(records@.take(i as int), cutoff, reg, tenant),
                blocked == blocked_count(records@.take(i as int), cutoff, reg, tenant),
                recovered + blocked <= i,
            decreases records.len() - i,
        {
            let ts = records[i].0;
            let dek = records[i].1;
            proof {
                let t = records@.take(i as int + 1);
                assert(t.drop_last() =~= records@.take(i as int));
                assert(t.last() == records@[i as int]);
            }
            if ts <= target.target_timestamp_ns {
                let is_shredded = match dek {
                    Some(d) => destroyed_registry.is_destroyed(target.tenant_id, d),
                    None => false,
                };
                if is_shredded {
                    blocked = blocked + 1;
                } else {
                    recovered = recovered + 1;
                }
            }
            i = i + 1;
        }
        assert(records@.take(records@.len() as int) =~= records@);
        Ok(
            PitrRestoreReport {
                tenant_id: target.tenant_id,
                stream_id: target.stream_id,
                target_timestamp_ns: target.target_timestamp_ns,
                records_recovered: recovered,
                shredded_records_blocked: blocked,
                success: true,
            },
        )
    }
}

proof fn lemma_counts_bounded(
    records: Seq<BackupRecord>,
    cutoff: u64,
    registry: Map<(Seq<u8>, u64), crate::security::DestroyedKeyEntry>,
    tenant: TenantId,
)
    ensures
        recovered_count(records, cutoff, registry, tenant) + blocked_count(records, cutoff, registry, tenant)
            == in_window_count(records, cutoff),
        in_window_count(records, cutoff) <= records.len(),
    decreases records.len(),
{
    if records.len() > 0 {
        lemma_counts_bounded(records.drop_last(), cutoff, registry, tenant);
    }
}

/// A restore partitions the records at or before the cutoff: each is either recovered
/// or blocked as shredded, none is both, and none after the cutoff is counted.
pub proof fn law_restore_partitions_window(
    records: Seq<BackupRecord>,
    cutoff: u64,
    registry: Map<(Seq<u8>, u64), crate::security::DestroyedKeyEntry>,
    tenant: TenantId,
)
    ensures
        recovered_count(records, cutoff, registry, tenant) + blocked_count(records, cutoff, registry, tenant)
            == in_window_count(records, cutoff),
{
    lemma_counts_bounded(records, cutoff, registry, tenant);
}

/// No shredded record is ever recovered: when every record in the window uses a
/// shredded key, nothing is recovered at all.
pub proof fn law_shredded_never_recovered(
    records: Seq<BackupRecord>,
    cutoff: u64,
    registry: Map<(Seq<u8>, u64), crate::security::DestroyedKeyEntry>,
    tenant: TenantId,
)
    requires
        forall|i: int| 0 <= i < records.len() && records[i].0 <= cutoff ==> shredded(registry, tenant, #[trigger] records[i]),
    ensures
        recovered_count(records, cutoff, registry, tenant) == 0,
    decreases records.len(),
{
    if records.len() > 0 {
        let rest = records.drop_last();
        assert forall|i: int| 0 <= i < rest.len() && rest[i].0 <= cutoff implies shredded(
            registry,
            tenant,
            #[trigger] rest[i],
        ) by {
            assert(rest[i] == records[i]);
        }
        law_shredded_never_recovered(rest, cutoff, registry, tenant);
        assert(records.last() == records[records.len() - 1]);
    }
}

/// Once a key is shredded (recorded as destroyed for its tenant), no restore run
/// afterwards recovers any record encrypted under it, whenever the restore engine was
/// built.
pub proof fn law_shred_blocks_later_restores(
    records: Seq<BackupRecord>,
    cutoff: u64,
    registry: Map<(Seq<u8>, u64), crate::security::DestroyedKeyEntry>,
    tenant: TenantId,
    dek: DekId,
    entry: crate::security::DestroyedKeyEntry,
)
    requires
        forall|i: int| 0 <= i < records.len() ==> (#[trigger] records[i]).1 == Some(dek),
    ensures
        recovered_count(records, cutoff, registry.insert(key_of(tenant, dek), entry), tenant) == 0,
        blocked_count(records, cutoff, registry.insert(key_of(tenant, dek), entry), tenant)
            == in_window_count(records, cutoff),
{
    let r2 = registry.insert(key_of(tenant, dek), entry);
    assert forall|i: int| 0 <= i < records.len() && records[i].0 <= cutoff implies shredded(
        r2,
        tenant,
        #[trigger] records[i],
    ) by {
        assert(records[i].1 == Some(dek));
    }
    law_shredded_never_recovered(records, cutoff, r2, tenant);
    lemma_counts_bounded(records, cutoff, r2, tenant);
}

} // verus!
