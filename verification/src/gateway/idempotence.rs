//! Kafka idempotent produce: per producer, topic and partition, the epoch and last
//! sequence seen decide whether a batch proceeds, is a duplicate, or is refused.
use crate::gateway::protocol::KafkaErrorCode;
use crate::keyed::{
    lemma_pairs_absent, lemma_pairs_empty, lemma_pairs_lookup, lemma_pairs_push,
    lemma_pairs_update, pairs_map, pairs_unique,
};
use crate::text::str_equal;
use vstd::prelude::*;

verus! {

/// Outcome of preflight sequence number validation before physical produce.
#[derive(Debug, Clone, Copy, PartialEq, Eq, Structural)]
pub enum PreflightResult {
    /// Sequence is valid and ready for physical cluster produce.
    Proceed,
    /// Batch is an exact duplicate; the previously assigned base offset is returned.
    Duplicate(i64),
    /// Sequence gap or epoch mismatch; reject before cluster produce.
    Error(KafkaErrorCode),
}

/// Producer state tracking entry.
#[derive(Debug, Clone, Copy, PartialEq, Eq, Structural)]
pub struct ProducerSequenceState {
    /// Producer epoch.
    pub epoch: i16,
    /// Highest contiguous sequence number observed.
    pub last_sequence: i32,
    /// Base offset returned for last sequence.
    pub last_offset: i64,
}

/// Key of a tracked producer partition.
pub type TrackerKey = (i64, Seq<char>, i32);

/// Entries of the tracker's table.
pub open spec fn tracker_pairs(v: Seq<(i64, String, i32, ProducerSequenceState)>) -> Seq<
    (TrackerKey, ProducerSequenceState),
> {
    v.map_values(|e: (i64, String, i32, ProducerSequenceState)| ((e.0, e.1@, e.2), e.3))
}

/// The preflight decision for a batch given the tracked states.
pub open spec fn preflight(
    m: Map<TrackerKey, ProducerSequenceState>,
    producer_id: i64,
    epoch: i16,
    base_sequence: i32,
    topic: Seq<char>,
    partition: i32,
) -> PreflightResult {
    let k = (producer_id, topic, partition);
    if producer_id == -1 || !m.contains_key(k) {
        PreflightResult::Proceed
    } else {
        let st = m[k];
        if epoch < st.epoch {
            PreflightResult::Error(KafkaErrorCode::LeaderNotAvailable)
        } else if epoch == st.epoch && base_sequence <= st.last_sequence {
            PreflightResult::Duplicate(st.last_offset)
        } else if epoch == st.epoch && base_sequence > st.last_sequence + 1 {
            PreflightResult::Error(KafkaErrorCode::OutOfOrderSequenceNumber)
        } else {
            PreflightResult::Proceed
        }
    }
}

/// In-memory tracker for Kafka idempotent producers across topics and partitions.
#[derive(Debug)]
pub struct ProducerIdempotenceTracker {
    states: Vec<(i64, String, i32, ProducerSequenceState)>,
}

impl View for ProducerIdempotenceTracker {
    type V = Map<TrackerKey, ProducerSequenceState>;

    closed spec fn view(&self) -> Map<TrackerKey, ProducerSequenceState> {
        pairs_map(tracker_pairs(self.states@))
    }
}

impl ProducerIdempotenceTracker {
    /// Each producer partition is tracked once.
    pub closed spec fn wf(&self) -> bool {
        pairs_unique(tracker_pairs(self.states@))
    }

    /// Create a new idempotence tracker.
    pub fn new() -> (r: Self)
        ensures
            r.wf(),
            r@ == Map::<TrackerKey, ProducerSequenceState>::empty(),
    {
        let r = ProducerIdempotenceTracker { states: Vec::new() };
        proof {
            lemma_pairs_empty(tracker_pairs(r.states@));
        }
        r
    }

    fn find(&self, producer_id: i64, topic: &str, partition: i32) -> (r: Option<usize>)
        requires
            self.wf(),
        ensures
            match r {
                Some(i) => i < self.states@.len() && tracker_pairs(self.states@)[i as int].0 == (
                    producer_id,
                    topic@,
                    partition,
                ),
                None => !self@.contains_key((producer_id, topic@, partition)),
            },
    {
        let ghost p = tracker_pairs(self.states@);
        let mut i: usize = 0;
        while i < self.states.len()
            invariant
                p == tracker_pairs(self.states@),
                i <= self.states@.len(),
                forall|j: int| 0 <= j < i ==> p[j].0 != (producer_id, topic@, partition),
            decreases self.states.len() - i,
        {
            let e = &self.states[i];
            if e.0 == producer_id && e.2 == partition && str_equal(e.1.as_str(), topic) {
                return Some(i);
            }
            i = i + 1;
        }
        proof {
            lemma_pairs_absent(p, (producer_id, topic@, partition));
        }
        None
    }

    /// Pre-flight validation before executing cluster produce.
    pub fn check_preflight(
        &self,
        producer_id: i64,
        epoch: i16,
        base_sequence: i32,
        topic: &str,
        partition: i32,
    ) -> (r: PreflightResult)
        requires
            self.wf(),
        ensures
            r == preflight(self@, producer_id, epoch, base_sequence, topic@, partition),
    {
        if producer_id == -1 {
            return PreflightResult::Proceed;
        }
        match self.find(producer_id, topic, partition) {
            None => PreflightResult::Proceed,
            Some(i) => {
                proof {
                    lemma_pairs_lookup(tracker_pairs(self.states@), i as int);
                }
                let state = self.states[i].3;
                if epoch < state.epoch {
                    return PreflightResult::Error(KafkaErrorCode::LeaderNotAvailable);
                }
                if epoch == state.epoch {
                    if base_sequence <= state.last_sequence {
                        return PreflightResult::Duplicate(state.last_offset);
                    }
                    if base_sequence > state.last_sequence + 1 {
                        return PreflightResult::Error(KafkaErrorCode::OutOfOrderSequenceNumber);
                    }
                }
                PreflightResult::Proceed
            },
        }
    }

    /// Verify an incoming batch and, when it proceeds, record its epoch, last sequence
    /// and assigned offset. A duplicate returns the offset recorded before; a refused
    /// batch returns its error code; a non-idempotent producer (id -1) is not tracked.
    pub fn verify_and_update(
        &mut self,
        producer_id: i64,
        epoch: i16,
        base_sequence: i32,
        record_count: i32,
        topic: &str,
        partition: i32,
        assigned_offset: i64,
    ) -> (r: Result<i64, KafkaErrorCode>)
        requires
            old(self).wf(),
            producer_id != -1 && preflight(
                old(self)@,
                producer_id,
                epoch,
                base_sequence,
                topic@,
                partition,
            ) is Proceed ==> i32::MIN < base_sequence + record_count <= i32::MAX,
        ensures
            final(self).wf(),
            producer_id == -1 ==> r == Ok::<i64, KafkaErrorCode>(assigned_offset) && final(self)@
                == old(self)@,
            producer_id != -1 ==> match preflight(
                old(self)@,
                producer_id,
                epoch,
                base_sequence,
                topic@,
                partition,
            ) {
                PreflightResult::Proceed => r == Ok::<i64, KafkaErrorCode>(assigned_offset)
                    && final(self)@ == old(self)@.insert(
                    (producer_id, topic@, partition),
                    ProducerSequenceState {
                        epoch,
                        last_sequence: (base_sequence + record_count - 1) as i32,
                        last_offset: assigned_offset,
                    },
                ),
                PreflightResult::Duplicate(o) => r == Ok::<i64, KafkaErrorCode>(o) && final(self)@
                    == old(self)@,
                PreflightResult::Error(c) => r == Err::<i64, KafkaErrorCode>(c) && final(self)@
                    == old(self)@,
            },
    {
        if producer_id == -1 {
            return Ok(assigned_offset);
        }
        let ghost s = self.states@;
        match self.find(producer_id, topic, partition) {
            Some(i) => {
                proof {
                    lemma_pairs_lookup(tracker_pairs(s), i as int);
                }
                let state = self.states[i].3;
                if epoch < state.epoch {
                    return Err(KafkaErrorCode::LeaderNotAvailable);
                }
                if epoch == state.epoch {
                    if base_sequence <= state.last_sequence {
                        return Ok(state.last_offset);
                    }
                    if base_sequence > state.last_sequence + 1 {
                        return Err(KafkaErrorCode::OutOfOrderSequenceNumber);
                    }
                }
                let new_state = ProducerSequenceState {
                    epoch,
                    last_sequence: base_sequence + record_count - 1,
                    last_offset: assigned_offset,
                };
                let mut entry = self.states.remove(i);
                let ghost removed = self.states@;
                entry.3 = new_state;
                self.states.insert(i, entry);
                proof {
                    assert(self.states@ =~= s.update(i as int, entry));
                    assert(tracker_pairs(self.states@) =~= tracker_pairs(s).update(
                        i as int,
                        (tracker_pairs(s)[i as int].0, new_state),
                    ));
                    lemma_pairs_update(tracker_pairs(s), i as int, new_state);
                }
                Ok(assigned_offset)
            },
            None => {
                let mut t = String::new();
                crate::text::push_str(&mut t, topic);
                let new_state = ProducerSequenceState {
                    epoch,
                    last_sequence: base_sequence + record_count - 1,
                    last_offset: assigned_offset,
                };
                self.states.push((producer_id, t, partition, new_state));
                proof {
                    assert(tracker_pairs(self.states@) =~= tracker_pairs(s).push(
                        ((producer_id, topic@, partition), new_state),
                    ));
                    lemma_pairs_push(tracker_pairs(s), (producer_id, topic@, partition), new_state);
                }
                Ok(assigned_offset)
            },
        }
    }
}

impl Default for ProducerIdempotenceTracker {
    fn default() -> (r: Self)
        ensures
            r.wf(),
            r@ == Map::<TrackerKey, ProducerSequenceState>::empty(),
    {
        ProducerIdempotenceTracker::new()
    }
}

/// Deduplication: once a batch of at least one record has been accepted, sending the
/// same batch again is recognised as a duplicate and answered with the offset recorded
/// for it.
pub proof fn law_resend_is_duplicate(
    m: Map<TrackerKey, ProducerSequenceState>,
    producer_id: i64,
    epoch: i16,
    base_sequence: i32,
    record_count: i32,
    topic: Seq<char>,
    partition: i32,
    assigned_offset: i64,
)
    requires
        producer_id != -1,
        record_count >= 1,
        i32::MIN < base_sequence + record_count <= i32::MAX,
    ensures
        preflight(
            m.insert(
                (producer_id, topic, partition),
                ProducerSequenceState {
                    epoch,
                    last_sequence: (base_sequence + record_count - 1) as i32,
                    last_offset: assigned_offset,
                },
            ),
            producer_id,
            epoch,
            base_sequence,
            topic,
            partition,
        ) == PreflightResult::Duplicate(assigned_offset),
{
}

/// After an accepted batch, the batch that follows it without a gap proceeds.
pub proof fn law_next_batch_proceeds(
    m: Map<TrackerKey, ProducerSequenceState>,
    producer_id: i64,
    epoch: i16,
    base_sequence: i32,
    record_count: i32,
    topic: Seq<char>,
    partition: i32,
    assigned_offset: i64,
)
    requires
        producer_id != -1,
        i32::MIN <= base_sequence + record_count <= i32::MAX,
        i32::MIN <= base_sequence + record_count - 1,
    ensures
        preflight(
            m.insert(
                (producer_id, topic, partition),
                ProducerSequenceState {
                    epoch,
                    last_sequence: (base_sequence + record_count - 1) as i32,
                    last_offset: assigned_offset,
                },
            ),
            producer_id,
            epoch,
            (base_sequence + record_count) as i32,
            topic,
            partition,
        ) == PreflightResult::Proceed,
{
}

} // verus!
