//! Kafka-to-Keirox migration bridge: phases of the cutover, the offset mapping kept per
//! topic partition, translation of committed consumer offsets, and status reports.
use crate::digest::{xxh64_digest, xxhash64};
use crate::error::KeiroxError;
use crate::gateway::topic_mapper::{
    tenant_stream, tenant_stream_bytes, topic_partition_bytes, topic_partition_data,
};
use crate::keyed::{
    lemma_pairs_absent, lemma_pairs_empty, lemma_pairs_lookup, lemma_pairs_push,
    lemma_pairs_update, pairs_map, pairs_unique,
};
use crate::model::{StreamId, TenantId};
use crate::text::{push_signed_decimal, push_str, signed_decimal, str_equal};
use vstd::prelude::*;

verus! {

/// Migration phases of the cutover protocol.
#[derive(Debug, Clone, Copy, PartialEq, Eq, Structural)]
pub enum MigrationPhase {
    /// Phase A: bridge replicating from Kafka.
    PhaseABridgeReplicating,
    /// Phase B: dual writes validated against both systems.
    PhaseBDualWriteValidation,
    /// Phase C: consumers cut over to Keirox.
    PhaseCConsumerCutover,
    /// Phase D: Kafka decommissioned.
    PhaseDDecommissioned,
    /// Migration rolled back.
    Rollback,
}

/// Status of a migrating topic partition.
#[derive(Debug, Clone)]
pub struct MigrationStatusReport {
    /// Tenant.
    pub tenant_id: TenantId,
    /// Topic.
    pub topic: String,
    /// Stream the partition maps to.
    pub stream_id: StreamId,
    /// Current phase.
    pub phase: MigrationPhase,
    /// Last Kafka offset mapped (-1 when none).
    pub kafka_high_watermark: i64,
    /// Last Keirox offset mapped (0 when none).
    pub keirox_head_offset: u64,
    /// How far the Keirox head is past the Kafka watermark.
    pub offset_lag: u64,
    /// Records written through the dual-write path.
    pub dual_write_count: u64,
}

/// A partition's Kafka offset and the Keirox offset it maps to.
#[derive(Debug, Clone, Copy, PartialEq, Eq, Structural)]
pub struct OffsetSyncPair {
    /// Partition index.
    pub partition: i32,
    /// Kafka offset.
    pub kafka_offset: i64,
    /// Keirox offset.
    pub keirox_offset: u64,
}

/// Key of a mapping: topic text and partition.
pub type MappingKey = (Seq<char>, i32);

/// Entries of the mapping table.
pub open spec fn mapping_pairs(v: Seq<(String, i32, i64, u64)>) -> Seq<(MappingKey, (i64, u64))> {
    v.map_values(|e: (String, i32, i64, u64)| ((e.0@, e.1), (e.2, e.3)))
}

/// The Keirox offset of a committed Kafka offset, given the last mapped pair: the same
/// distance back from the Keirox head, floored at 0; without a mapping, the committed
/// offset itself floored at 0.
pub open spec fn translated_offset(mapping: Option<(i64, u64)>, committed: i64) -> Result<u64, Seq<char>> {
    match mapping {
        Some((k_last, kei_last)) => if committed > k_last {
            Err(
                "Kafka committed offset "@ + signed_decimal(committed as int)
                    + " exceeds bridge high watermark "@ + signed_decimal(k_last as int),
            )
        } else if k_last - committed > kei_last {
            Ok(0)
        } else {
            Ok((kei_last - (k_last - committed)) as u64)
        },
        None => Ok(if committed < 0 { 0 } else { committed as u64 }),
    }
}

/// Kafka-to-Keirox migration bridge state for one tenant.
#[derive(Debug)]
pub struct KafkaMigrationBridge {
    tenant_id: TenantId,
    phase: MigrationPhase,
    offset_mappings: Vec<(String, i32, i64, u64)>,
    dual_write_counter: u64,
}

impl KafkaMigrationBridge {
    /// Each topic partition is mapped once.
    pub closed spec fn wf(&self) -> bool {
        pairs_unique(mapping_pairs(self.offset_mappings@))
    }

    /// Last (Kafka, Keirox) offsets mapped, by topic partition.
    pub closed spec fn mappings(&self) -> Map<MappingKey, (i64, u64)> {
        pairs_map(mapping_pairs(self.offset_mappings@))
    }

    /// Current phase.
    pub closed spec fn phase_view(&self) -> MigrationPhase {
        self.phase
    }

    /// Records written through the dual-write path.
    pub closed spec fn dual_writes(&self) -> u64 {
        self.dual_write_counter
    }

    /// The tenant migrated.
    pub closed spec fn tenant(&self) -> TenantId {
        self.tenant_id
    }

    /// A new bridge in phase A with no mappings.
    pub fn new(tenant_id: TenantId) -> (r: Self)
        ensures
            r.wf(),
            r.tenant() == tenant_id,
            r.phase_view() == MigrationPhase::PhaseABridgeReplicating,
            r.mappings() == Map::<MappingKey, (i64, u64)>::empty(),
            r.dual_writes() == 0,
    {
        let r = KafkaMigrationBridge {
            tenant_id,
            phase: MigrationPhase::PhaseABridgeReplicating,
            offset_mappings: Vec::new(),
            dual_write_counter: 0,
        };
        proof {
            lemma_pairs_empty(mapping_pairs(r.offset_mappings@));
        }
        r
    }

    /// Current migration phase.
    pub fn current_phase(&self) -> (p: MigrationPhase)
        ensures
            p == self.phase_view(),
    {
        self.phase
    }

    /// Records written through the dual-write path so far.
    pub fn dual_write_count(&self) -> (c: u64)
        ensures
            c == self.dual_writes(),
    {
        self.dual_write_counter
    }

    /// Move to another phase.
    pub fn transition_phase(&mut self, new_phase: MigrationPhase) -> (r: Result<(), KeiroxError>)
        ensures
            r is Ok,
            final(self).phase_view() == new_phase,
            final(self).mappings() == old(self).mappings(),
            final(self).dual_writes() == old(self).dual_writes(),
            final(self).tenant() == old(self).tenant(),
            final(self).wf() == old(self).wf(),
    {
        self.phase = new_phase;
        Ok(())
    }

    fn find(&self, topic: &str, partition: i32) -> (r: Option<usize>)
        requires
            self.wf(),
        ensures
            match r {
                Some(i) => i < self.offset_mappings@.len() && mapping_pairs(self.offset_mappings@)[i as int].0
                    == (topic@, partition),
                None => !self.mappings().contains_key((topic@, partition)),
            },
    {
        let ghost p = mapping_pairs(self.offset_mappings@);
        let mut i: usize = 0;
        while i < self.offset_mappings.len()
            invariant
                p == mapping_pairs(self.offset_mappings@),
                i <= self.offset_mappings@.len(),
                forall|j: int| 0 <= j < i ==> p[j].0 != (topic@, partition),
            decreases self.offset_mappings.len() - i,
        {
            let e = &self.offset_mappings[i];
            if e.1 == partition && str_equal(e.0.as_str(), topic) {
                return Some(i);
            }
            i = i + 1;
        }
        proof {
            lemma_pairs_absent(p, (topic@, partition));
        }
        None
    }

    fn lookup(&self, topic: &str, partition: i32) -> (r: Option<(i64, u64)>)
        requires
            self.wf(),
        ensures
            r == (if self.mappings().contains_key((topic@, partition)) {
                Some(self.mappings()[(topic@, partition)])
            } else {
                None
            }),
    {
        match self.find(topic, partition) {
            Some(i) => {
                proof {
                    lemma_pairs_lookup(mapping_pairs(self.offset_mappings@), i as int);
                }
                Some((self.offset_mappings[i].2, self.offset_mappings[i].3))
            },
            None => None,
        }
    }

    fn set_mapping(&mut self, topic: &str, partition: i32, kafka_last: i64, keirox_last: u64)
        requires
            old(self).wf(),
        ensures
            final(self).wf(),
            final(self).mappings() == old(self).mappings().insert(
                (topic@, partition),
                (kafka_last, keirox_last),
            ),
            final(self).phase_view() == old(self).phase_view(),
            final(self).dual_writes() == old(self).dual_writes(),
            final(self).tenant() == old(self).tenant(),
    {
        let ghost s = self.offset_mappings@;
        match self.find(topic, partition) {
            Some(i) => {
                let mut e = self.offset_mappings.remove(i);
                e.2 = kafka_last;
                e.3 = keirox_last;
                self.offset_mappings.insert(i, e);
                proof {
                    assert(self.offset_mappings@ =~= s.update(i as int, e));
                    assert(mapping_pairs(self.offset_mappings@) =~= mapping_pairs(s).update(
                        i as int,
                        (mapping_pairs(s)[i as int].0, (kafka_last, keirox_last)),
                    ));
                    lemma_pairs_update(mapping_pairs(s), i as int, (kafka_last, keirox_last));
                }
            },
            None => {
                let mut t = String::new();
                push_str(&mut t, topic);
                self.offset_mappings.push((t, partition, kafka_last, keirox_last));
                proof {
                    assert(mapping_pairs(self.offset_mappings@) =~= mapping_pairs(s).push(
                        ((topic@, partition), (kafka_last, keirox_last)),
                    ));
                    lemma_pairs_push(mapping_pairs(s), (topic@, partition), (kafka_last, keirox_last));
                }
            },
        }
    }

    /// Record records replicated from Kafka: the partition now maps its last Kafka
    /// offset to its last Keirox offset. Returns the Keirox offset of the first record.
    pub fn record_replication(
        &mut self,
        topic: &str,
        partition: i32,
        kafka_base_offset: i64,
        record_count: u64,
        assigned_keirox_offset: u64,
    ) -> (r: Result<u64, KeiroxError>)
        requires
            old(self).wf(),
            i64::MIN < kafka_base_offset + (record_count as i64) <= i64::MAX,
            1 <= assigned_keirox_offset + record_count <= u64::MAX,
        ensures
            final(self).wf(),
            r == Ok::<u64, KeiroxError>(assigned_keirox_offset),
            final(self).mappings() == old(self).mappings().insert(
                (topic@, partition),
                (
                    (kafka_base_offset + (record_count as i64) - 1) as i64,
                    (assigned_keirox_offset + record_count - 1) as u64,
                ),
            ),
            final(self).phase_view() == old(self).phase_view(),
            final(self).dual_writes() == old(self).dual_writes(),
            final(self).tenant() == old(self).tenant(),
    {
        let last_kafka_offset = kafka_base_offset + record_count as i64 - 1;
        let last_keirox_offset = assigned_keirox_offset + record_count - 1;
        self.set_mapping(topic, partition, last_kafka_offset, last_keirox_offset);
        Ok(assigned_keirox_offset)
    }

    /// Record a dual write of `record_count` records stored in Keirox at `keirox_offset`:
    /// the simulated Kafka offset is the dual-write count so far, which then grows by the
    /// records written. Returns both offsets.
    pub fn record_dual_write(
        &mut self,
        topic: &str,
        partition: i32,
        record_count: u64,
        keirox_offset: u64,
    ) -> (r: Result<(u64, i64), KeiroxError>)
        requires
            old(self).wf(),
            old(self).dual_writes() + record_count <= u64::MAX,
            i64::MIN < (old(self).dual_writes() as i64) + (record_count as i64) <= i64::MAX,
            1 <= keirox_offset + record_count <= u64::MAX,
        ensures
            final(self).wf(),
            r == Ok::<(u64, i64), KeiroxError>((keirox_offset, old(self).dual_writes() as i64)),
            final(self).dual_writes() == old(self).dual_writes() + record_count,
            final(self).mappings() == old(self).mappings().insert(
                (topic@, partition),
                (
                    ((old(self).dual_writes() as i64) + (record_count as i64) - 1) as i64,
                    (keirox_offset + record_count - 1) as u64,
                ),
            ),
            final(self).phase_view() == old(self).phase_view(),
            final(self).tenant() == old(self).tenant(),
    {
        let simulated_kafka_offset = self.dual_write_counter as i64;
        self.dual_write_counter = self.dual_write_counter + record_count;
        let k_last = simulated_kafka_offset + record_count as i64 - 1;
        let kei_last = keirox_offset + record_count - 1;
        self.set_mapping(topic, partition, k_last, kei_last);
        Ok((keirox_offset, simulated_kafka_offset))
    }

    /// Translate a consumer's committed Kafka offset into the Keirox offset to resume at.
    pub fn translate_consumer_offset(&self, topic: &str, partition: i32, kafka_committed_offset: i64) -> (r:
        Result<u64, KeiroxError>)
        requires
            self.wf(),
            self.mappings().contains_key((topic@, partition)) ==> self.mappings()[(
                topic@,
                partition,
            )].0 - kafka_committed_offset <= i64::MAX,
        ensures
            match translated_offset(
                if self.mappings().contains_key((topic@, partition)) {
                    Some(self.mappings()[(topic@, partition)])
                } else {
                    None
                },
                kafka_committed_offset,
            ) {
                Ok(v) => r == Ok::<u64, KeiroxError>(v),
                Err(msg) => r matches Err(KeiroxError::Internal(m)) && m@ == msg,
            },
    {
        match self.lookup(topic, partition) {
            Some((k_last, kei_last)) => {
                if kafka_committed_offset > k_last {
                    let mut m = String::new();
                    push_str(&mut m, "Kafka committed offset ");
                    push_signed_decimal(&mut m, kafka_committed_offset);
                    push_str(&mut m, " exceeds bridge high watermark ");
                    push_signed_decimal(&mut m, k_last);
                    return Err(KeiroxError::Internal(m));
                }
                let diff = (k_last - kafka_committed_offset) as u64;
                if diff > kei_last {
                    Ok(0)
                } else {
                    Ok(kei_last - diff)
                }
            },
            None => {
                if kafka_committed_offset < 0 {
                    Ok(0)
                } else {
                    Ok(kafka_committed_offset as u64)
                }
            },
        }
    }

    /// The stream a topic partition migrates into: the tenant's first 8 bytes, then the
    /// xxHash64 of the topic bytes and the partition's little-endian bytes.
    pub fn derive_stream_id(&self, topic: &str, partition: i32) -> (s: StreamId)
        ensures
            s.0@ == tenant_stream_bytes(self.tenant(), xxh64_digest(0, topic_partition_bytes(topic@, partition))),
    {
        let data = topic_partition_data(topic, partition);
        let h = xxhash64(0, data.as_slice());
        tenant_stream(self.tenant_id, h)
    }

    /// Status of a topic partition: watermark and head from its mapping (-1 and 0 when
    /// none), the lag of the head past a non-negative watermark, phase and dual writes.
    pub fn generate_status_report(&self, topic: &str, partition: i32) -> (r: MigrationStatusReport)
        requires
            self.wf(),
        ensures
            r.tenant_id == self.tenant(),
            r.topic@ == topic@,
            r.stream_id.0@ == tenant_stream_bytes(
                self.tenant(),
                xxh64_digest(0, topic_partition_bytes(topic@, partition)),
            ),
            r.phase == self.phase_view(),
            self.mappings().contains_key((topic@, partition)) ==> r.kafka_high_watermark
                == self.mappings()[(topic@, partition)].0 && r.keirox_head_offset
                == self.mappings()[(topic@, partition)].1,
            !self.mappings().contains_key((topic@, partition)) ==> r.kafka_high_watermark == -1
                && r.keirox_head_offset == 0,
            r.offset_lag == (if r.kafka_high_watermark >= 0 && r.keirox_head_offset
                >= r.kafka_high_watermark {
                r.keirox_head_offset - r.kafka_high_watermark
            } else {
                0
            }),
            r.dual_write_count == self.dual_writes(),
    {
        let stream_id = self.derive_stream_id(topic, partition);
        let (k_high, kei_head) = match self.lookup(topic, partition) {
            Some(p) => p,
            None => (-1i64, 0u64),
        };
        let offset_lag = if k_high >= 0 && kei_head >= k_high as u64 {
            kei_head - k_high as u64
        } else {
            0
        };
        let mut t = String::new();
        push_str(&mut t, topic);
        MigrationStatusReport {
            tenant_id: self.tenant_id,
            topic: t,
            stream_id,
            phase: self.phase,
            kafka_high_watermark: k_high,
            keirox_head_offset: kei_head,
            offset_lag,
            dual_write_count: self.dual_write_counter,
        }
    }
}

/// Replicating records and then translating the offset of the last one gives the
/// Keirox offset of the last one: offsets line up record for record.
pub proof fn law_translation_follows_replication(
    kafka_base: i64,
    count: u64,
    assigned: u64,
    k: nat,
)
    requires
        count >= 1,
        k < count,
        i64::MIN < kafka_base + (count as i64) <= i64::MAX,
        count <= i64::MAX,
        assigned + count <= u64::MAX,
    ensures
        translated_offset(
            Some(
                (
                    (kafka_base + (count as i64) - 1) as i64,
                    (assigned + count - 1) as u64,
                ),
            ),
            (kafka_base + k) as i64,
        ) == Ok::<u64, Seq<char>>((assigned + k) as u64),
{
}

} // verus!
