//! Replicated log: payload types, entries, conflict-resolving replication and compaction.
use crate::consensus::types::{LogIndex, Term};
use vstd::prelude::*;

verus! {

/// An equal copy of a byte vector.
pub fn clone_bytes(v: &Vec<u8>) -> (r: Vec<u8>)
    ensures
        r@ == v@,
{
    let mut r: Vec<u8> = Vec::new();
    let mut i: usize = 0;
    while i < v.len()
        invariant
            i <= v.len(),
            r@ == v@.subrange(0, i as int),
        decreases v.len() - i,
    {
        r.push(v[i]);
        i = i + 1;
        assert(r@ =~= v@.subrange(0, i as int));
    }
    assert(r@ =~= v@);
    r
}

/// Lease delta state change record replicated via Metadata Raft.
#[derive(Debug, Clone, Copy, PartialEq, Eq, Structural)]
pub enum LeaseDeltaRecord {
    /// Consumer acquired lease on offset.
    Acquire {
        /// Offset leased.
        offset: u64,
        /// Lease fencing token.
        token: u64,
        /// Microsecond deadline timestamp.
        deadline_us: u64,
    },
    /// Consumer successfully ACKed offset.
    Ack {
        /// Offset acknowledged.
        offset: u64,
        /// Fencing token.
        token: u64,
    },
    /// Consumer NACKed offset (requeue).
    Nack {
        /// Offset negative acknowledged.
        offset: u64,
    },
    /// Max retries exceeded; offset evicted to DLQ.
    EvictDlq {
        /// Offset evicted.
        offset: u64,
    },
}

/// Metadata command payload replicated via Metadata Raft group.
#[derive(Debug, Clone, PartialEq, Eq)]
pub enum MetadataCommand {
    /// Assign coordinator shard to a cluster node with monotonic epoch.
    AssignShard {
        /// Shard identifier.
        shard_id: u32,
        /// Assigned coordinator node ID.
        coordinator_node_id: u64,
        /// Monotonic coordinator epoch.
        epoch: u64,
    },
    /// Register a sealed Tier-1 chunk manifest.
    RegisterChunkManifest {
        /// Stream UUID.
        stream_id: [u8; 16],
        /// Start logical offset.
        start_offset: u64,
        /// End logical offset (inclusive).
        end_offset: u64,
        /// Cloud object storage S3 URI.
        s3_uri: String,
        /// Chunk payload size in bytes.
        size_bytes: u64,
        /// CRC32C checksum of sealed chunk.
        crc32: u32,
    },
    /// Replicate a state machine binary snapshot.
    ReplicateStateSnapshot {
        /// Consumer group identifier.
        group_id: String,
        /// Monotonic sliding base watermark at snapshot time.
        base_watermark: u64,
        /// Encoded snapshot bytes.
        snapshot_bytes: Vec<u8>,
    },
    /// Replicate an incremental lease journal delta.
    ReplicateLeaseDelta {
        /// Consumer group identifier.
        group_id: String,
        /// Specific lease state transition.
        delta: LeaseDeltaRecord,
    },
    /// Replicate monotonic sliding base watermark advance.
    UpdateWatermark {
        /// Consumer group identifier.
        group_id: String,
        /// Advanced base watermark.
        watermark: u64,
    },
}

/// Mathematical value of a metadata command.
pub enum MetadataCommandView {
    AssignShard { shard_id: u32, coordinator_node_id: u64, epoch: u64 },
    RegisterChunkManifest {
        stream_id: [u8; 16],
        start_offset: u64,
        end_offset: u64,
        s3_uri: Seq<char>,
        size_bytes: u64,
        crc32: u32,
    },
    ReplicateStateSnapshot { group_id: Seq<char>, base_watermark: u64, snapshot_bytes: Seq<u8> },
    ReplicateLeaseDelta { group_id: Seq<char>, delta: LeaseDeltaRecord },
    UpdateWatermark { group_id: Seq<char>, watermark: u64 },
}

impl View for MetadataCommand {
    type V = MetadataCommandView;

    open spec fn view(&self) -> MetadataCommandView {
        match self {
            MetadataCommand::AssignShard { shard_id, coordinator_node_id, epoch } => {
                MetadataCommandView::AssignShard {
                    shard_id: *shard_id,
                    coordinator_node_id: *coordinator_node_id,
                    epoch: *epoch,
                }
            },
            MetadataCommand::RegisterChunkManifest {
                stream_id,
                start_offset,
                end_offset,
                s3_uri,
                size_bytes,
                crc32,
            } => MetadataCommandView::RegisterChunkManifest {
                stream_id: *stream_id,
                start_offset: *start_offset,
                end_offset: *end_offset,
                s3_uri: s3_uri@,
                size_bytes: *size_bytes,
                crc32: *crc32,
            },
            MetadataCommand::ReplicateStateSnapshot { group_id, base_watermark, snapshot_bytes } => {
                MetadataCommandView::ReplicateStateSnapshot {
                    group_id: group_id@,
                    base_watermark: *base_watermark,
                    snapshot_bytes: snapshot_bytes@,
                }
            },
            MetadataCommand::ReplicateLeaseDelta { group_id, delta } => {
                MetadataCommandView::ReplicateLeaseDelta { group_id: group_id@, delta: *delta }
            },
            MetadataCommand::UpdateWatermark { group_id, watermark } => {
                MetadataCommandView::UpdateWatermark { group_id: group_id@, watermark: *watermark }
            },
        }
    }
}

impl MetadataCommand {
    /// A copy with the same value.
    pub fn duplicate(&self) -> (r: Self)
        ensures
            r@ == self@,
    {
        match self {
            MetadataCommand::AssignShard { shard_id, coordinator_node_id, epoch } => {
                MetadataCommand::AssignShard {
                    shard_id: *shard_id,
                    coordinator_node_id: *coordinator_node_id,
                    epoch: *epoch,
                }
            },
            MetadataCommand::RegisterChunkManifest {
                stream_id,
                start_offset,
                end_offset,
                s3_uri,
                size_bytes,
                crc32,
            } => MetadataCommand::RegisterChunkManifest {
                stream_id: *stream_id,
                start_offset: *start_offset,
                end_offset: *end_offset,
                s3_uri: s3_uri.clone(),
                size_bytes: *size_bytes,
                crc32: *crc32,
            },
            MetadataCommand::ReplicateStateSnapshot { group_id, base_watermark, snapshot_bytes } => {
                MetadataCommand::ReplicateStateSnapshot {
                    group_id: group_id.clone(),
                    base_watermark: *base_watermark,
                    snapshot_bytes: clone_bytes(snapshot_bytes),
                }
            },
            MetadataCommand::ReplicateLeaseDelta { group_id, delta } => {
                MetadataCommand::ReplicateLeaseDelta { group_id: group_id.clone(), delta: *delta }
            },
            MetadataCommand::UpdateWatermark { group_id, watermark } => {
                MetadataCommand::UpdateWatermark { group_id: group_id.clone(), watermark: *watermark }
            },
        }
    }
}

/// Replicated entry payload.
#[derive(Debug, Clone, PartialEq, Eq)]
pub enum LogPayload {
    /// Data plane active WAL batch payload.
    DataBatch(Vec<u8>),
    /// Metadata & state plane administrative command.
    Metadata(MetadataCommand),
    /// Leader election no-op commitment barrier.
    Noop,
}

/// Mathematical value of a payload.
pub enum LogPayloadView {
    DataBatch(Seq<u8>),
    Metadata(MetadataCommandView),
    Noop,
}

impl View for LogPayload {
    type V = LogPayloadView;

    open spec fn view(&self) -> LogPayloadView {
        match self {
            LogPayload::DataBatch(b) => LogPayloadView::DataBatch(b@),
            LogPayload::Metadata(c) => LogPayloadView::Metadata(c@),
            LogPayload::Noop => LogPayloadView::Noop,
        }
    }
}

impl LogPayload {
    /// A copy with the same value.
    pub fn duplicate(&self) -> (r: Self)
        ensures
            r@ == self@,
    {
        match self {
            LogPayload::DataBatch(b) => LogPayload::DataBatch(clone_bytes(b)),
            LogPayload::Metadata(c) => LogPayload::Metadata(c.duplicate()),
            LogPayload::Noop => LogPayload::Noop,
        }
    }
}

/// Replicated log entry in the Raft consensus log.
#[derive(Debug, Clone, PartialEq, Eq)]
pub struct RaftLogEntry {
    /// Consensus term when entry was received by leader.
    pub term: Term,
    /// 1-based monotonically increasing log index.
    pub index: LogIndex,
    /// Command or data payload.
    pub payload: LogPayload,
}

/// Mathematical value of a log entry.
pub struct RaftLogEntryView {
    pub term: u64,
    pub index: u64,
    pub payload: LogPayloadView,
}

impl View for RaftLogEntry {
    type V = RaftLogEntryView;

    open spec fn view(&self) -> RaftLogEntryView {
        RaftLogEntryView { term: self.term.0, index: self.index.0, payload: self.payload@ }
    }
}

impl RaftLogEntry {
    /// A copy with the same value.
    pub fn duplicate(&self) -> (r: Self)
        ensures
            r@ == self@,
    {
        RaftLogEntry { term: self.term, index: self.index, payload: self.payload.duplicate() }
    }
}

/// Values of a sequence of entries.
pub open spec fn entries_view(v: Seq<RaftLogEntry>) -> Seq<RaftLogEntryView> {
    v.map_values(|e: RaftLogEntry| e@)
}

/// Mathematical state of a Raft log.
pub struct RaftLogView {
    /// Entries after the snapshot, in log order.
    pub entries: Seq<RaftLogEntryView>,
    /// Index of last entry compacted into the snapshot.
    pub snapshot_index: u64,
    /// Term of last entry compacted into the snapshot.
    pub snapshot_term: u64,
    /// Highest index known to be committed.
    pub commit_index: u64,
    /// Highest index applied to the state machine.
    pub last_applied: u64,
}

impl RaftLogView {
    /// Index of the last entry, or the snapshot index when no entry follows it.
    pub open spec fn last_log_index(self) -> u64 {
        if self.entries.len() == 0 {
            self.snapshot_index
        } else {
            self.entries.last().index
        }
    }

    /// Term of the last entry, or the snapshot term when no entry follows it.
    pub open spec fn last_log_term(self) -> u64 {
        if self.entries.len() == 0 {
            self.snapshot_term
        } else {
            self.entries.last().term
        }
    }

    /// Term recorded at `index`: the snapshot term at the snapshot index, none before it,
    /// and after it the term of the entry at position `index - snapshot_index - 1`.
    pub open spec fn term_at(self, index: u64) -> Option<u64> {
        if index == self.snapshot_index {
            Some(self.snapshot_term)
        } else if index < self.snapshot_index {
            None
        } else if index - self.snapshot_index - 1 < self.entries.len() {
            Some(self.entries[index - self.snapshot_index - 1].term)
        } else {
            None
        }
    }

    /// Entry stored at `index`, if the index lies after the snapshot and within the log.
    pub open spec fn entry_at(self, index: u64) -> Option<RaftLogEntryView> {
        if index <= self.snapshot_index {
            None
        } else if index - self.snapshot_index - 1 < self.entries.len() {
            Some(self.entries[index - self.snapshot_index - 1])
        } else {
            None
        }
    }

    /// Each stored entry sits at the position its index names: the entry at position `i`
    /// has index `snapshot_index + i + 1`.
    pub open spec fn positioned(self) -> bool {
        indexed_from(self.entries, self.snapshot_index)
    }

    /// Entries from `start` on: all stored entries when `start` is at or before the snapshot.
    pub open spec fn entries_from(self, start: u64) -> Seq<RaftLogEntryView> {
        if start <= self.snapshot_index {
            self.entries
        } else if start - self.snapshot_index - 1 < self.entries.len() {
            self.entries.subrange(start - self.snapshot_index - 1, self.entries.len() as int)
        } else {
            Seq::empty()
        }
    }
}

/// Effect of one replicated entry on the stored entries: entries at or before the
/// snapshot are skipped, a conflicting term truncates the log at that position and
/// appends the entry, a matching term keeps the log, and an index past the end appends.
pub open spec fn replicate_one(
    ents: Seq<RaftLogEntryView>,
    snap: u64,
    e: RaftLogEntryView,
) -> Seq<RaftLogEntryView> {
    if e.index <= snap {
        ents
    } else {
        let off = e.index - snap - 1;
        if off < ents.len() {
            if ents[off].term != e.term {
                ents.subrange(0, off).push(e)
            } else {
                ents
            }
        } else {
            ents.push(e)
        }
    }
}

/// Effect of replicated entries processed in order.
pub open spec fn replicate_all(
    ents: Seq<RaftLogEntryView>,
    snap: u64,
    incoming: Seq<RaftLogEntryView>,
) -> Seq<RaftLogEntryView>
    decreases incoming.len(),
{
    if incoming.len() == 0 {
        ents
    } else {
        replicate_one(replicate_all(ents, snap, incoming.drop_last()), snap, incoming.last())
    }
}

/// The log after replicated entries that follow `prev`: unchanged when `prev` lies past
/// the last index, else the entries are processed in order.
pub open spec fn appended(l: RaftLogView, prev: u64, incoming: Seq<RaftLogEntryView>) -> RaftLogView {
    if prev > l.last_log_index() {
        l
    } else {
        RaftLogView { entries: replicate_all(l.entries, l.snapshot_index, incoming), ..l }
    }
}

/// Each stored entry carries the index of its position after the snapshot.
pub open spec fn indexed_from(ents: Seq<RaftLogEntryView>, snap: u64) -> bool {
    forall|i: int| 0 <= i < ents.len() ==> #[trigger] ents[i].index == snap + i + 1
}

/// Entries with consecutive indices right after `prev`, all after the snapshot.
pub open spec fn follows(incoming: Seq<RaftLogEntryView>, prev: u64, snap: u64) -> bool {
    forall|k: int| 0 <= k < incoming.len() ==> #[trigger] incoming[k].index == prev + 1 + k
        && incoming[k].index > snap
}

/// Raft in-memory log storage engine.
#[derive(Debug, Clone)]
pub struct RaftLog {
    entries: Vec<RaftLogEntry>,
    last_snapshot_index: LogIndex,
    last_snapshot_term: Term,
    commit_index: LogIndex,
    last_applied: LogIndex,
}

impl View for RaftLog {
    type V = RaftLogView;

    closed spec fn view(&self) -> RaftLogView {
        RaftLogView {
            entries: entries_view(self.entries@),
            snapshot_index: self.last_snapshot_index.0,
            snapshot_term: self.last_snapshot_term.0,
            commit_index: self.commit_index.0,
            last_applied: self.last_applied.0,
        }
    }
}

impl RaftLog {
    /// Create a new empty Raft log.
    pub fn new() -> (log: Self)
        ensures
            log@.entries.len() == 0,
            log@.snapshot_index == 0,
            log@.snapshot_term == 0,
            log@.commit_index == 0,
            log@.last_applied == 0,
            log@.positioned(),
    {
        RaftLog {
            entries: Vec::new(),
            last_snapshot_index: LogIndex(0),
            last_snapshot_term: Term(0),
            commit_index: LogIndex(0),
            last_applied: LogIndex(0),
        }
    }

    /// Highest log index present in the log.
    pub fn last_log_index(&self) -> (r: LogIndex)
        ensures
            r.0 == self@.last_log_index(),
    {
        if self.entries.len() == 0 {
            self.last_snapshot_index
        } else {
            self.entries[self.entries.len() - 1].index
        }
    }

    /// Term of the highest log index present in the log.
    pub fn last_log_term(&self) -> (r: Term)
        ensures
            r.0 == self@.last_log_term(),
    {
        if self.entries.len() == 0 {
            self.last_snapshot_term
        } else {
            self.entries[self.entries.len() - 1].term
        }
    }

    /// Commit index.
    pub fn commit_index(&self) -> (r: LogIndex)
        ensures
            r.0 == self@.commit_index,
    {
        self.commit_index
    }

    /// Last included snapshot index.
    pub fn snapshot_index(&self) -> (r: LogIndex)
        ensures
            r.0 == self@.snapshot_index,
    {
        self.last_snapshot_index
    }

    /// Last included snapshot term.
    pub fn snapshot_term(&self) -> (r: Term)
        ensures
            r.0 == self@.snapshot_term,
    {
        self.last_snapshot_term
    }

    /// Advance commit index; an index at or below the current one leaves it unchanged.
    pub fn set_commit_index(&mut self, index: LogIndex)
        ensures
            final(self)@ == (RaftLogView {
                commit_index: if index.0 > old(self)@.commit_index {
                    index.0
                } else {
                    old(self)@.commit_index
                },
                ..old(self)@
            }),
    {
        if index.0 > self.commit_index.0 {
            self.commit_index = index;
        }
    }

    /// Last applied index.
    pub fn last_applied(&self) -> (r: LogIndex)
        ensures
            r.0 == self@.last_applied,
    {
        self.last_applied
    }

    /// Advance last applied index; an index at or below the current one leaves it unchanged.
    pub fn set_last_applied(&mut self, index: LogIndex)
        ensures
            final(self)@ == (RaftLogView {
                last_applied: if index.0 > old(self)@.last_applied {
                    index.0
                } else {
                    old(self)@.last_applied
                },
                ..old(self)@
            }),
    {
        if index.0 > self.last_applied.0 {
            self.last_applied = index;
        }
    }

    /// Get term for a given log index.
    pub fn term_at(&self, index: LogIndex) -> (r: Option<Term>)
        ensures
            match self@.term_at(index.0) {
                Some(t) => r == Some(Term(t)),
                None => r is None,
            },
    {
        if index.0 == self.last_snapshot_index.0 {
            return Some(self.last_snapshot_term);
        }
        if index.0 < self.last_snapshot_index.0 {
            return None;
        }
        let offset = index.0 - self.last_snapshot_index.0 - 1;
        if offset < self.entries.len() as u64 {
            Some(self.entries[offset as usize].term)
        } else {
            None
        }
    }

    /// Get entry at a specific log index.
    pub fn entry_at(&self, index: LogIndex) -> (r: Option<&RaftLogEntry>)
        ensures
            match self@.entry_at(index.0) {
                Some(e) => r is Some && r.unwrap()@ == e,
                None => r is None,
            },
    {
        if index.0 <= self.last_snapshot_index.0 {
            return None;
        }
        let offset = index.0 - self.last_snapshot_index.0 - 1;
        if offset < self.entries.len() as u64 {
            Some(&self.entries[offset as usize])
        } else {
            None
        }
    }

    /// Append a new payload to the log as a leader, at the index after the last one.
    pub fn append_new(&mut self, term: Term, payload: LogPayload) -> (r: LogIndex)
        requires
            old(self)@.last_log_index() < u64::MAX,
        ensures
            r.0 == old(self)@.last_log_index() + 1,
            final(self)@ == (RaftLogView {
                entries: old(self)@.entries.push(
                    RaftLogEntryView { term: term.0, index: r.0, payload: payload@ },
                ),
                ..old(self)@
            }),
            old(self)@.positioned() ==> final(self)@.positioned(),
    {
        let index = self.last_log_index().next();
        let ghost before = self.entries@;
        self.entries.push(RaftLogEntry { term, index, payload });
        assert(entries_view(self.entries@) =~= entries_view(before).push(
            RaftLogEntryView { term: term.0, index: index.0, payload: payload@ },
        ));
        proof {
            let e = old(self)@.entries;
            if old(self)@.positioned() && e.len() > 0 {
                assert(e[e.len() - 1].index == old(self)@.snapshot_index + e.len());
            }
        }
        index
    }

    /// Append replicated entries received from leader, resolving log conflicts.
    ///
    /// Nothing changes when `prev_index` lies past the last index.
    pub fn append_replicated(&mut self, prev_index: LogIndex, entries: Vec<RaftLogEntry>)
        ensures
            final(self)@ == appended(old(self)@, prev_index.0, entries_view(entries@)),
            old(self)@.positioned() && follows(entries_view(entries@), prev_index.0, old(self)@.snapshot_index)
                ==> final(self)@.positioned(),
    {
        if prev_index.0 > self.last_log_index().0 {
            return;
        }
        let ghost start = entries_view(self.entries@);
        let ghost incoming = entries_view(entries@);
        let snap = self.last_snapshot_index.0;
        let mut i: usize = 0;
        while i < entries.len()
            invariant
                i <= entries@.len(),
                snap == self.last_snapshot_index.0,
                incoming == entries_view(entries@),
                entries_view(self.entries@) == replicate_all(start, snap, incoming.subrange(0, i as int)),
                self.last_snapshot_term == old(self).last_snapshot_term,
                self.last_snapshot_index == old(self).last_snapshot_index,
                self.commit_index == old(self).commit_index,
                self.last_applied == old(self).last_applied,
            decreases entries.len() - i,
        {
            let ghost pre = entries_view(self.entries@);
            let entry = entries[i].duplicate();
            assert(incoming.subrange(0, i + 1).drop_last() =~= incoming.subrange(0, i as int));
            assert(incoming.subrange(0, i + 1).last() == entry@);
            if entry.index.0 > snap {
                let offset = entry.index.0 - snap - 1;
                if offset < self.entries.len() as u64 {
                    if self.entries[offset as usize].term.0 != entry.term.0 {
                        self.entries.truncate(offset as usize);
                        self.entries.push(entry);
                        assert(entries_view(self.entries@) =~= pre.subrange(0, offset as int).push(
                            entry@,
                        ));
                    }
                } else {
                    self.entries.push(entry);
                    assert(entries_view(self.entries@) =~= pre.push(entry@));
                }
            }
            i = i + 1;
        }
        assert(incoming.subrange(0, i as int) =~= incoming);
        proof {
            if old(self)@.positioned() && follows(incoming, prev_index.0, old(self)@.snapshot_index) {
                law_append_replicated(old(self)@, prev_index.0, incoming);
            }
        }
    }

    /// Get entries starting from index.
    pub fn entries_from(&self, start_index: LogIndex) -> (r: Vec<RaftLogEntry>)
        ensures
            entries_view(r@) == self@.entries_from(start_index.0),
    {
        let mut from: usize = 0;
        if start_index.0 > self.last_snapshot_index.0 {
            let offset = start_index.0 - self.last_snapshot_index.0 - 1;
            if offset < self.entries.len() as u64 {
                from = offset as usize;
            } else {
                return Vec::new();
            }
        }
        let ghost whole = entries_view(self.entries@);
        let mut r: Vec<RaftLogEntry> = Vec::new();
        let mut i = from;
        while i < self.entries.len()
            invariant
                from <= i <= self.entries@.len(),
                whole == entries_view(self.entries@),
                entries_view(r@) == whole.subrange(from as int, i as int),
            decreases self.entries.len() - i,
        {
            let e = self.entries[i].duplicate();
            assert(e@ == whole[i as int]);
            let ghost prev = r@;
            r.push(e);
            assert(entries_view(r@) =~= entries_view(prev).push(e@));
            i = i + 1;
            assert(entries_view(r@) =~= whole.subrange(from as int, i as int));
        }
        assert(whole.subrange(0, whole.len() as int) =~= whole);
        r
    }

    /// Compact log entries up to `snapshot_index`; an index at or below the current
    /// snapshot index leaves the log unchanged.
    pub fn compact_to(&mut self, snapshot_index: LogIndex, snapshot_term: Term)
        ensures
            final(self)@ == (if snapshot_index.0 <= old(self)@.snapshot_index {
                old(self)@
            } else {
                let remove = snapshot_index.0 - old(self)@.snapshot_index;
                RaftLogView {
                    entries: if remove <= old(self)@.entries.len() {
                        old(self)@.entries.subrange(remove, old(self)@.entries.len() as int)
                    } else {
                        Seq::empty()
                    },
                    snapshot_index: snapshot_index.0,
                    snapshot_term: snapshot_term.0,
                    commit_index: if old(self)@.commit_index < snapshot_index.0 {
                        snapshot_index.0
                    } else {
                        old(self)@.commit_index
                    },
                    last_applied: if old(self)@.last_applied < snapshot_index.0 {
                        snapshot_index.0
                    } else {
                        old(self)@.last_applied
                    },
                }
            }),
            old(self)@.positioned() ==> final(self)@.positioned(),
    {
        if snapshot_index.0 <= self.last_snapshot_index.0 {
            return;
        }
        let ghost before = entries_view(self.entries@);
        let remove_count = snapshot_index.0 - self.last_snapshot_index.0;
        if remove_count <= self.entries.len() as u64 {
            let tail = self.entries.split_off(remove_count as usize);
            self.entries = tail;
            assert(entries_view(self.entries@) =~= before.subrange(
                remove_count as int,
                before.len() as int,
            ));
        } else {
            self.entries.clear();
            assert(entries_view(self.entries@) =~= Seq::<RaftLogEntryView>::empty());
        }
        self.last_snapshot_index = snapshot_index;
        self.last_snapshot_term = snapshot_term;
        if self.commit_index.0 < snapshot_index.0 {
            self.commit_index = snapshot_index;
        }
        if self.last_applied.0 < snapshot_index.0 {
            self.last_applied = snapshot_index;
        }
    }
}

proof fn lemma_replicate_prefix(
    ents: Seq<RaftLogEntryView>,
    snap: u64,
    prev: u64,
    es: Seq<RaftLogEntryView>,
    k: int,
)
    requires
        indexed_from(ents, snap),
        follows(es, prev, snap),
        prev <= snap + ents.len(),
        0 <= k <= es.len(),
    ensures
        ({
            let r = replicate_all(ents, snap, es.take(k));
            &&& indexed_from(r, snap)
            &&& r.len() >= prev - snap + k
            &&& forall|j: int| 0 <= j < k ==> prev - snap + j < r.len() && r[prev - snap + j].term == (#[trigger] es[j]).term
            &&& forall|i: int| 0 <= i < ents.len() && ents[i].index <= prev ==> i < r.len() && #[trigger] r[i] == ents[i]
        }),
    decreases k,
{
    if k == 0 {
        assert(es.take(0) =~= Seq::<RaftLogEntryView>::empty());
    } else {
        lemma_replicate_prefix(ents, snap, prev, es, k - 1);
        assert(es[0].index == prev + 1 && es[0].index > snap);
        let t = es.take(k);
        assert(t.drop_last() =~= es.take(k - 1));
        assert(t.last() == es[k - 1]);
        let r0 = replicate_all(ents, snap, es.take(k - 1));
        let e = es[k - 1];
        assert(e.index == prev + 1 + (k - 1) && e.index > snap);
        let r = replicate_all(ents, snap, t);
        assert(r == replicate_one(r0, snap, e));
        let off = e.index - snap - 1;
        assert(off == prev - snap + (k - 1));
        if off < r0.len() && r0[off].term != e.term {
            assert(r =~= r0.subrange(0, off).push(e));
            assert forall|j: int| 0 <= j < k implies prev - snap + j < r.len() && r[prev - snap + j].term
                == (#[trigger] es[j]).term by {
                if j < k - 1 {
                    let x = prev - snap + j;
                    assert(x < r0.len() && r0[x].term == es[j].term);
                    assert(x < off);
                    assert(r0.subrange(0, off)[x] == r0[x]);
                    assert(r[x] == r0[x]);
                }
            }
            assert forall|i: int| 0 <= i < ents.len() && ents[i].index <= prev implies i < r.len() && #[trigger] r[i]
                == ents[i] by {
                assert(ents[i].index == snap + i + 1);
                assert(r0[i] == ents[i]);
            }
        } else if off < r0.len() {
            assert(r == r0);
        } else {
            assert(r =~= r0.push(e));
            assert forall|j: int| 0 <= j < k implies prev - snap + j < r.len() && r[prev - snap + j].term
                == (#[trigger] es[j]).term by {
                if j < k - 1 {
                    let x = prev - snap + j;
                    assert(x < r0.len() && r0[x].term == es[j].term);
                    assert(x < off);
                    assert(r0.subrange(0, off)[x] == r0[x]);
                    assert(r[x] == r0[x]);
                }
            }
            assert forall|i: int| 0 <= i < ents.len() && ents[i].index <= prev implies i < r.len() && #[trigger] r[i]
                == ents[i] by {
                assert(r0[i] == ents[i]);
            }
        }
    }
}

proof fn lemma_replicate_again(r: Seq<RaftLogEntryView>, snap: u64, prev: u64, es: Seq<RaftLogEntryView>, k: int)
    requires
        follows(es, prev, snap),
        forall|j: int| 0 <= j < es.len() ==> prev - snap + j < r.len() && r[prev - snap + j].term
            == (#[trigger] es[j]).term,
        0 <= k <= es.len(),
    ensures
        replicate_all(r, snap, es.take(k)) == r,
    decreases k,
{
    if k == 0 {
        assert(es.take(0) =~= Seq::<RaftLogEntryView>::empty());
    } else {
        lemma_replicate_again(r, snap, prev, es, k - 1);
        let t = es.take(k);
        assert(t.drop_last() =~= es.take(k - 1));
        assert(t.last() == es[k - 1]);
        let e = es[k - 1];
        assert(e.index == prev + 1 + (k - 1));
        assert(prev - snap + (k - 1) < r.len() && r[prev - snap + (k - 1)].term == e.term);
        assert(e.index - snap - 1 == prev - snap + (k - 1));
    }
}

/// Replicating entries that follow `prev` into a log whose entries sit at their
/// positions: when `prev` lies past the last index nothing changes; otherwise every
/// replicated entry's term is then found at its index, entries up to `prev` are kept,
/// the log reaches at least the last replicated index, entries still sit at their
/// positions, and replicating the same entries again changes nothing.
pub proof fn law_append_replicated(l: RaftLogView, prev: u64, es: Seq<RaftLogEntryView>)
    requires
        indexed_from(l.entries, l.snapshot_index),
        follows(es, prev, l.snapshot_index),
    ensures
        prev > l.last_log_index() ==> appended(l, prev, es) == l,
        prev <= l.last_log_index() ==> {
            let l2 = appended(l, prev, es);
            &&& forall|k: int| 0 <= k < es.len() ==> l2.term_at(#[trigger] es[k].index) == Some(es[k].term)
            &&& forall|i: int| 0 <= i < l.entries.len() && l.entries[i].index <= prev ==> i < l2.entries.len()
                && #[trigger] l2.entries[i] == l.entries[i]
            &&& es.len() > 0 ==> l2.last_log_index() >= es.last().index
            &&& indexed_from(l2.entries, l2.snapshot_index)
            &&& appended(l2, prev, es) == l2
        },
{
    let snap = l.snapshot_index;
    if prev <= l.last_log_index() {
        assert(prev <= snap + l.entries.len()) by {
            if l.entries.len() > 0 {
                assert(l.entries[l.entries.len() - 1].index == snap + l.entries.len());
            }
        }
        lemma_replicate_prefix(l.entries, snap, prev, es, es.len() as int);
        assert(es.take(es.len() as int) =~= es);
        let l2 = appended(l, prev, es);
        let r = l2.entries;
        assert forall|k: int| 0 <= k < es.len() implies l2.term_at(#[trigger] es[k].index) == Some(es[k].term) by {
            let e = es[k];
            assert(e.index == prev + 1 + k);
            assert(prev - snap + k < r.len() && r[prev - snap + k].term == e.term);
        }
        if r.len() > 0 {
            assert(r[r.len() - 1].index == snap + r.len());
        }
        assert(prev <= l2.last_log_index()) by {
            if r.len() == 0 {
                assert(prev <= snap);
            }
        }
        lemma_replicate_again(r, snap, prev, es, es.len() as int);
    }
}

/// Some replicated entry meets a stored entry at its index with another term.
pub open spec fn conflicts(l: RaftLogView, es: Seq<RaftLogEntryView>) -> bool {
    exists|k: int| 0 <= k < es.len() && (l.term_at((#[trigger] es[k]).index) matches Some(t) && t != es[k].term)
}

/// Some entry among the first `k` replicated ones meets a stored entry with another term.
spec fn conflict_before(ents: Seq<RaftLogEntryView>, snap: u64, prev: u64, es: Seq<RaftLogEntryView>, k: int) -> bool {
    exists|j: int| 0 <= j < k && prev - snap + j < ents.len() && ents[prev - snap + j].term != (#[trigger] es[j]).term
}

proof fn lemma_replicate_conflict(
    ents: Seq<RaftLogEntryView>,
    snap: u64,
    prev: u64,
    es: Seq<RaftLogEntryView>,
    k: int,
)
    requires
        indexed_from(ents, snap),
        follows(es, prev, snap),
        prev <= snap + ents.len(),
        0 <= k <= es.len(),
    ensures
        ({
            let r = replicate_all(ents, snap, es.take(k));
            &&& conflict_before(ents, snap, prev, es, k) ==> r.len() == prev - snap + k
            &&& !conflict_before(ents, snap, prev, es, k) ==> {
                &&& r.len() == if ents.len() >= prev - snap + k { ents.len() as int } else { prev - snap + k }
                &&& forall|i: int| 0 <= i < ents.len() ==> #[trigger] r[i] == ents[i]
            }
        }),
    decreases k,
{
    if k == 0 {
        assert(es.take(0) =~= Seq::<RaftLogEntryView>::empty());
    } else {
        lemma_replicate_conflict(ents, snap, prev, es, k - 1);
        lemma_replicate_prefix(ents, snap, prev, es, k - 1);
        assert(es[0].index == prev + 1 && es[0].index > snap);
        let t = es.take(k);
        assert(t.drop_last() =~= es.take(k - 1));
        assert(t.last() == es[k - 1]);
        let r0 = replicate_all(ents, snap, es.take(k - 1));
        let e = es[k - 1];
        assert(e.index == prev + 1 + (k - 1) && e.index > snap);
        let r = replicate_all(ents, snap, t);
        assert(r == replicate_one(r0, snap, e));
        let off = e.index - snap - 1;
        assert(off == prev - snap + (k - 1));
        if conflict_before(ents, snap, prev, es, k - 1) {
            assert(conflict_before(ents, snap, prev, es, k)) by {
                let j = choose|j: int| 0 <= j < k - 1 && prev - snap + j < ents.len() && ents[prev - snap + j].term
                    != (#[trigger] es[j]).term;
                assert(0 <= j < k && prev - snap + j < ents.len() && ents[prev - snap + j].term != es[j].term);
            }
            assert(r =~= r0.push(e));
        } else {
            if off < ents.len() && ents[off].term != e.term {
                assert(r0[off] == ents[off]);
                assert(r =~= r0.subrange(0, off).push(e));
                assert(conflict_before(ents, snap, prev, es, k)) by {
                    assert(0 <= k - 1 < k && prev - snap + (k - 1) < ents.len() && ents[prev - snap + (k - 1)].term
                        != es[k - 1].term);
                }
            } else {
                assert(!conflict_before(ents, snap, prev, es, k)) by {
                    if conflict_before(ents, snap, prev, es, k) {
                        let j = choose|j: int| 0 <= j < k && prev - snap + j < ents.len() && ents[prev - snap + j].term
                            != (#[trigger] es[j]).term;
                        if j < k - 1 {
                            assert(conflict_before(ents, snap, prev, es, k - 1));
                        }
                    }
                }
                if off < ents.len() {
                    assert(r0[off] == ents[off]);
                    assert(r == r0);
                } else {
                    assert(r =~= r0.push(e));
                    assert forall|i: int| 0 <= i < ents.len() implies #[trigger] r[i] == ents[i] by {
                        assert(r0[i] == ents[i]);
                    }
                }
            }
        }
    }
}

/// Replicating entries that follow `prev` into a positioned log: when some replicated
/// entry meets a stored entry with another term, every stored entry after it is dropped
/// and the log ends at the last replicated entry; when none conflicts, every stored entry
/// stays and the log ends at the later of its old end and the last replicated entry.
pub proof fn law_conflict_truncates(l: RaftLogView, prev: u64, es: Seq<RaftLogEntryView>)
    requires
        l.positioned(),
        follows(es, prev, l.snapshot_index),
        prev <= l.last_log_index(),
    ensures
        conflicts(l, es) ==> appended(l, prev, es).last_log_index() == prev + es.len(),
        !conflicts(l, es) ==> {
            let l2 = appended(l, prev, es);
            &&& l2.entries.take(l.entries.len() as int) == l.entries
            &&& l2.last_log_index() == if l.last_log_index() >= prev + es.len() {
                l.last_log_index() as int
            } else {
                prev + es.len()
            }
        },
{
    let snap = l.snapshot_index;
    let ents = l.entries;
    assert(prev <= snap + ents.len()) by {
        if ents.len() > 0 {
            assert(ents[ents.len() - 1].index == snap + ents.len());
        }
    }
    let n = es.len() as int;
    lemma_replicate_conflict(ents, snap, prev, es, n);
    lemma_replicate_prefix(ents, snap, prev, es, n);
    assert(es.take(n) =~= es);
    let r = replicate_all(ents, snap, es);
    assert(conflicts(l, es) == conflict_before(ents, snap, prev, es, n)) by {
        if conflicts(l, es) {
            let k = choose|k: int| 0 <= k < es.len() && (l.term_at((#[trigger] es[k]).index) matches Some(t) && t
                != es[k].term);
            assert(es[k].index == prev + 1 + k && es[k].index > snap);
            assert(0 <= k < n && prev - snap + k < ents.len() && ents[prev - snap + k].term != es[k].term);
        }
        if conflict_before(ents, snap, prev, es, n) {
            let j = choose|j: int| 0 <= j < n && prev - snap + j < ents.len() && ents[prev - snap + j].term
                != (#[trigger] es[j]).term;
            assert(es[j].index == prev + 1 + j && es[j].index > snap);
            assert(l.term_at(es[j].index) == Some(ents[prev - snap + j].term));
        }
    }
    if r.len() > 0 {
        assert(r[r.len() - 1].index == snap + r.len());
    }
    if ents.len() > 0 {
        assert(ents[ents.len() - 1].index == snap + ents.len());
    }
    if !conflicts(l, es) {
        assert(r.take(ents.len() as int) =~= ents);
        if es.len() > 0 {
            assert(es[0].index == prev + 1 && es[0].index > snap);
        }
    }
}

} // verus!
