//! Iceberg table catalog ledger: snapshots chained to their parents with running record
//! totals, data files accumulated, and expiry of old snapshots that keeps the head.
use vstd::prelude::*;

verus! {

/// A data file added by a commit.
#[derive(Debug, Clone)]
pub struct DataFileEntry {
    /// Object storage path.
    pub file_path: String,
    /// Records in the file.
    pub record_count: u64,
    /// File size.
    pub file_size_bytes: u64,
    /// Partition spec.
    pub partition_spec_id: u32,
}

impl DataFileEntry {
    /// An equal copy.
    pub fn duplicate(&self) -> (r: Self)
        ensures
            r == *self,
    {
        DataFileEntry {
            file_path: self.file_path.clone(),
            record_count: self.record_count,
            file_size_bytes: self.file_size_bytes,
            partition_spec_id: self.partition_spec_id,
        }
    }
}

/// An equal copy of a list of data files.
pub fn duplicate_files(v: &Vec<DataFileEntry>) -> (r: Vec<DataFileEntry>)
    ensures
        r@ == v@,
{
    let mut r: Vec<DataFileEntry> = Vec::new();
    let mut i: usize = 0;
    while i < v.len()
        invariant
            i <= v@.len(),
            r@ == v@.take(i as int),
        decreases v.len() - i,
    {
        r.push(v[i].duplicate());
        i = i + 1;
        assert(r@ =~= v@.take(i as int));
    }
    assert(r@ =~= v@);
    r
}

/// A committed snapshot of a table.
#[derive(Debug, Clone)]
pub struct CatalogSnapshot {
    /// Snapshot id.
    pub snapshot_id: u64,
    /// The snapshot this one follows.
    pub parent_snapshot_id: Option<u64>,
    /// Commit time.
    pub timestamp_ms: u64,
    /// Records in the table after this commit.
    pub total_records: u64,
    /// Files this commit added.
    pub data_files: Vec<DataFileEntry>,
}

/// The value of a snapshot: ids, time, total and its files.
pub struct SnapshotView {
    /// Snapshot id.
    pub snapshot_id: u64,
    /// Parent id.
    pub parent_snapshot_id: Option<u64>,
    /// Commit time.
    pub timestamp_ms: u64,
    /// Records in the table.
    pub total_records: u64,
    /// Files added.
    pub data_files: Seq<DataFileEntry>,
}

impl View for CatalogSnapshot {
    type V = SnapshotView;

    open spec fn view(&self) -> SnapshotView {
        SnapshotView {
            snapshot_id: self.snapshot_id,
            parent_snapshot_id: self.parent_snapshot_id,
            timestamp_ms: self.timestamp_ms,
            total_records: self.total_records,
            data_files: self.data_files@,
        }
    }
}

impl CatalogSnapshot {
    /// An equal copy.
    pub fn duplicate(&self) -> (r: Self)
        ensures
            r@ == self@,
    {
        CatalogSnapshot {
            snapshot_id: self.snapshot_id,
            parent_snapshot_id: self.parent_snapshot_id,
            timestamp_ms: self.timestamp_ms,
            total_records: self.total_records,
            data_files: duplicate_files(&self.data_files),
        }
    }
}

/// The views of a list of snapshots.
pub open spec fn snapshot_views(s: Seq<CatalogSnapshot>) -> Seq<SnapshotView> {
    s.map_values(|c: CatalogSnapshot| c@)
}

/// Records in a list of files.
pub open spec fn records_in(files: Seq<DataFileEntry>) -> nat
    decreases files.len(),
{
    if files.len() == 0 {
        0
    } else {
        records_in(files.drop_last()) + files.last().record_count as nat
    }
}

/// Snapshots kept by expiry: those at or after the cutoff, in order.
pub open spec fn kept(s: Seq<SnapshotView>, cutoff: u64) -> Seq<SnapshotView>
    decreases s.len(),
{
    if s.len() == 0 {
        s
    } else if s.last().timestamp_ms >= cutoff {
        kept(s.drop_last(), cutoff).push(s.last())
    } else {
        kept(s.drop_last(), cutoff)
    }
}

/// A ledger after expiring snapshots older than the cutoff, and how many were removed:
/// the current snapshot always stays, older ones stay when taken at or after the cutoff.
pub open spec fn expired(l: LedgerView, cutoff: u64) -> (LedgerView, nat) {
    if l.snapshots.len() <= 1 {
        (l, 0)
    } else {
        let rest = l.snapshots.drop_last();
        (
            LedgerView { snapshots: kept(rest, cutoff).push(l.snapshots.last()), ..l },
            (rest.len() - kept(rest, cutoff).len()) as nat,
        )
    }
}

/// Snapshot ids strictly increase along the list.
pub open spec fn ids_increasing(s: Seq<SnapshotView>) -> bool {
    forall|i: int, j: int| 0 <= i < j < s.len() ==> s[i].snapshot_id < s[j].snapshot_id
}

/// Abstract ledger: table name, next id, snapshots and all data files.
pub struct LedgerView {
    /// Table name.
    pub table_name: Seq<char>,
    /// Id of the next snapshot.
    pub next_snapshot_id: u64,
    /// Retained snapshots, oldest first.
    pub snapshots: Seq<SnapshotView>,
    /// Every data file ever committed.
    pub data_files: Seq<DataFileEntry>,
}

impl LedgerView {
    /// Ids increase and stay below the next id; the next id is at least 1.
    pub open spec fn wf(self) -> bool {
        &&& ids_increasing(self.snapshots)
        &&& forall|i: int| 0 <= i < self.snapshots.len() ==> self.snapshots[i].snapshot_id < self.next_snapshot_id
        &&& self.next_snapshot_id >= 1
    }

    /// The id of the current snapshot.
    pub open spec fn head_id(self) -> Option<u64> {
        if self.snapshots.len() == 0 {
            None
        } else {
            Some(self.snapshots.last().snapshot_id)
        }
    }

    /// Records in the table at the current snapshot.
    pub open spec fn head_total(self) -> nat {
        if self.snapshots.len() == 0 {
            0
        } else {
            self.snapshots.last().total_records as nat
        }
    }

    /// The snapshot a commit of `files` at `ts` creates.
    pub open spec fn next_snapshot(self, files: Seq<DataFileEntry>, ts: u64) -> SnapshotView {
        SnapshotView {
            snapshot_id: self.next_snapshot_id,
            parent_snapshot_id: self.head_id(),
            timestamp_ms: ts,
            total_records: (self.head_total() + records_in(files)) as u64,
            data_files: files,
        }
    }

    /// The ledger after committing `files` at `ts`.
    pub open spec fn after_commit(self, files: Seq<DataFileEntry>, ts: u64) -> LedgerView {
        LedgerView {
            table_name: self.table_name,
            next_snapshot_id: (self.next_snapshot_id + 1) as u64,
            snapshots: self.snapshots.push(self.next_snapshot(files, ts)),
            data_files: self.data_files + files,
        }
    }

    /// A commit of these files fits the counters.
    pub open spec fn can_commit(self, files: Seq<DataFileEntry>) -> bool {
        self.next_snapshot_id < u64::MAX && self.head_total() + records_in(files) <= u64::MAX
    }
}

/// Apache Iceberg table catalog ledger.
#[derive(Debug)]
pub struct IcebergCatalogLedger {
    table_name: String,
    next_snapshot_id: u64,
    snapshots: Vec<CatalogSnapshot>,
    all_data_files: Vec<DataFileEntry>,
}

impl View for IcebergCatalogLedger {
    type V = LedgerView;

    closed spec fn view(&self) -> LedgerView {
        LedgerView {
            table_name: self.table_name@,
            next_snapshot_id: self.next_snapshot_id,
            snapshots: snapshot_views(self.snapshots@),
            data_files: self.all_data_files@,
        }
    }
}

fn sum_records(files: &Vec<DataFileEntry>, base: u64) -> (r: u64)
    requires
        base + records_in(files@) <= u64::MAX,
    ensures
        r == base + records_in(files@),
{
    let mut total = base;
    let mut i: usize = 0;
    while i < files.len()
        invariant
            i <= files@.len(),
            base + records_in(files@) <= u64::MAX,
            total == base + records_in(files@.take(i as int)),
        decreases files.len() - i,
    {
        proof {
            let t = files@.take(i as int + 1);
            assert(t.drop_last() =~= files@.take(i as int));
            lemma_records_prefix(files@, i as int + 1);
        }
        total = total + files[i].record_count;
        i = i + 1;
    }
    assert(files@.take(files@.len() as int) =~= files@);
    total
}

proof fn lemma_records_prefix(files: Seq<DataFileEntry>, k: int)
    requires
        0 <= k <= files.len(),
    ensures
        records_in(files.take(k)) <= records_in(files),
    decreases files.len() - k,
{
    if k < files.len() {
        lemma_records_prefix(files, k + 1);
        let t = files.take(k + 1);
        assert(t.drop_last() =~= files.take(k));
    } else {
        assert(files.take(k) =~= files);
    }
}

impl IcebergCatalogLedger {
    /// A new ledger for a table, with no snapshots; the first id is 1.
    pub fn new(table_name: &str) -> (r: Self)
        ensures
            r@.wf(),
            r@.table_name == table_name@,
            r@.next_snapshot_id == 1,
            r@.snapshots == Seq::<SnapshotView>::empty(),
            r@.data_files == Seq::<DataFileEntry>::empty(),
    {
        let mut name = String::new();
        crate::text::push_str(&mut name, table_name);
        let r = IcebergCatalogLedger {
            table_name: name,
            next_snapshot_id: 1,
            snapshots: Vec::new(),
            all_data_files: Vec::new(),
        };
        assert(snapshot_views(r.snapshots@) =~= Seq::<SnapshotView>::empty());
        r
    }

    /// Commit a snapshot of new files: the next id, the current head as parent, the
    /// running total grown by the files' records.
    pub fn commit_snapshot(&mut self, new_files: Vec<DataFileEntry>, timestamp_ms: u64) -> (r: CatalogSnapshot)
        requires
            old(self)@.wf(),
            old(self)@.can_commit(new_files@),
        ensures
            final(self)@ == old(self)@.after_commit(new_files@, timestamp_ms),
            final(self)@.wf(),
            r@ == old(self)@.next_snapshot(new_files@, timestamp_ms),
    {
        let ghost before = self@;
        let snapshot_id = self.next_snapshot_id;
        self.next_snapshot_id = self.next_snapshot_id + 1;
        let n = self.snapshots.len();
        let parent_snapshot_id = if n == 0 {
            None
        } else {
            Some(self.snapshots[n - 1].snapshot_id)
        };
        let last_total = if n == 0 {
            0
        } else {
            self.snapshots[n - 1].total_records
        };
        let total_records = sum_records(&new_files, last_total);
        let snapshot = CatalogSnapshot {
            snapshot_id,
            parent_snapshot_id,
            timestamp_ms,
            total_records,
            data_files: duplicate_files(&new_files),
        };
        let mut added = new_files;
        self.all_data_files.append(&mut added);
        let kept_copy = snapshot.duplicate();
        self.snapshots.push(kept_copy);
        proof {
            assert(snapshot_views(self.snapshots@) =~= before.snapshots.push(snapshot@));
            let s = self@.snapshots;
            assert forall|i: int, j: int| 0 <= i < j < s.len() implies s[i].snapshot_id
                < s[j].snapshot_id by {
                if j == s.len() - 1 {
                    assert(s[i] == before.snapshots[i]);
                }
            }
        }
        snapshot
    }

    /// Table name.
    pub fn table_name(&self) -> (r: &str)
        ensures
            r@ == self@.table_name,
    {
        self.table_name.as_str()
    }

    /// The current (latest) snapshot.
    pub fn current_snapshot(&self) -> (r: Option<&CatalogSnapshot>)
        ensures
            self@.snapshots.len() == 0 ==> r is None,
            self@.snapshots.len() > 0 ==> (r matches Some(c) && c@ == self@.snapshots.last()),
    {
        let n = self.snapshots.len();
        if n == 0 {
            None
        } else {
            Some(&self.snapshots[n - 1])
        }
    }

    /// Retained snapshots, oldest first.
    pub fn snapshots(&self) -> (r: &[CatalogSnapshot])
        ensures
            snapshot_views(r@) == self@.snapshots,
    {
        self.snapshots.as_slice()
    }

    /// Number of data files ever committed.
    pub fn total_data_files(&self) -> (n: usize)
        ensures
            n == self@.data_files.len(),
    {
        self.all_data_files.len()
    }

    /// Expire snapshots older than the cutoff, always keeping the current one; returns
    /// how many were removed.
    pub fn expire_snapshots_before(&mut self, retention_cutoff_ms: u64) -> (removed: usize)
        requires
            old(self)@.wf(),
        ensures
            final(self)@.wf(),
            final(self)@ == expired(old(self)@, retention_cutoff_ms).0,
            removed == expired(old(self)@, retention_cutoff_ms).1,
            old(self)@.snapshots.len() <= 1 ==> removed == 0 && final(self)@ == old(self)@,
            old(self)@.snapshots.len() > 1 ==> {
                let rest = old(self)@.snapshots.drop_last();
                &&& final(self)@.snapshots == kept(rest, retention_cutoff_ms).push(old(self)@.snapshots.last())
                &&& removed == rest.len() - kept(rest, retention_cutoff_ms).len()
                &&& final(self)@.table_name == old(self)@.table_name
                &&& final(self)@.next_snapshot_id == old(self)@.next_snapshot_id
                &&& final(self)@.data_files == old(self)@.data_files
            },
    {
        let n = self.snapshots.len();
        if n <= 1 {
            return 0;
        }
        let ghost before = self@;
        let ghost rest = before.snapshots.drop_last();
        let mut old_list: Vec<CatalogSnapshot> = Vec::new();
        std::mem::swap(&mut old_list, &mut self.snapshots);
        let head = old_list.pop().unwrap();
        let initial_len = old_list.len();
        let mut kept_list: Vec<CatalogSnapshot> = Vec::new();
        let mut i: usize = 0;
        assert(rest.take(0) =~= Seq::<SnapshotView>::empty());
        while i < old_list.len()
            invariant
                snapshot_views(old_list@) == rest,
                i <= old_list@.len(),
                snapshot_views(kept_list@) == kept(rest.take(i as int), retention_cutoff_ms),
                kept_list@.len() <= i,
            decreases old_list.len() - i,
        {
            proof {
                let t = rest.take(i as int + 1);
                assert(t.drop_last() =~= rest.take(i as int));
                assert(t.last() == old_list@[i as int]@);
            }
            if old_list[i].timestamp_ms >= retention_cutoff_ms {
                let c = old_list[i].duplicate();
                kept_list.push(c);
                assert(snapshot_views(kept_list@) =~= kept(rest.take(i as int), retention_cutoff_ms).push(
                    old_list@[i as int]@,
                ));
            }
            i = i + 1;
        }
        assert(rest.take(rest.len() as int) =~= rest);
        let removed = initial_len - kept_list.len();
        kept_list.push(head);
        self.snapshots = kept_list;
        proof {
            assert(snapshot_views(self.snapshots@) =~= kept(rest, retention_cutoff_ms).push(
                before.snapshots.last(),
            ));
            lemma_kept_sub(rest, retention_cutoff_ms);
            let s = self@.snapshots;
            let k = kept(rest, retention_cutoff_ms);
            assert forall|a: int, b: int| 0 <= a < b < s.len() implies s[a].snapshot_id < s[b].snapshot_id by {
                if b == s.len() - 1 {
                    assert(s[a] == k[a]);
                    let x = choose|x: int| 0 <= x < rest.len() && rest[x] == k[a];
                    assert(rest[x] == before.snapshots[x]);
                    assert(before.snapshots[x].snapshot_id < before.snapshots[before.snapshots.len() - 1].snapshot_id);
                } else {
                    assert(s[a] == k[a]);
                    assert(s[b] == k[b]);
                    lemma_kept_order(rest, retention_cutoff_ms, a, b);
                }
            }
            assert forall|q: int| 0 <= q < s.len() implies s[q].snapshot_id < before.next_snapshot_id by {
                if q < s.len() - 1 {
                    let x = choose|x: int| 0 <= x < rest.len() && rest[x] == k[q];
                    assert(rest[x] == before.snapshots[x]);
                }
            }
        }
        removed
    }
}

/// Every kept snapshot is one of the originals, and there are no more of them.
proof fn lemma_kept_sub(s: Seq<SnapshotView>, cutoff: u64)
    ensures
        kept(s, cutoff).len() <= s.len(),
        forall|a: int| 0 <= a < kept(s, cutoff).len() ==> exists|x: int| 0 <= x < s.len() && s[x] == #[trigger] kept(s, cutoff)[a],
    decreases s.len(),
{
    if s.len() > 0 {
        let p = s.drop_last();
        lemma_kept_sub(p, cutoff);
        let k = kept(s, cutoff);
        assert forall|a: int| 0 <= a < k.len() implies exists|x: int| 0 <= x < s.len() && s[x] == #[trigger] k[a] by {
            if a < kept(p, cutoff).len() {
                let x = choose|x: int| 0 <= x < p.len() && p[x] == kept(p, cutoff)[a];
                assert(s[x] == p[x]);
            } else {
                assert(s[s.len() - 1] == k[a]);
            }
        }
    }
}

/// Kept snapshots keep their order of ids.
proof fn lemma_kept_order(s: Seq<SnapshotView>, cutoff: u64, a: int, b: int)
    requires
        ids_increasing(s),
        0 <= a < b < kept(s, cutoff).len(),
    ensures
        kept(s, cutoff)[a].snapshot_id < kept(s, cutoff)[b].snapshot_id,
    decreases s.len(),
{
    let p = s.drop_last();
    lemma_kept_sub(p, cutoff);
    assert(ids_increasing(p));
    let kp = kept(p, cutoff);
    if b < kp.len() {
        lemma_kept_order(p, cutoff, a, b);
    } else {
        let x = choose|x: int| 0 <= x < p.len() && p[x] == kp[a];
        assert(s[x] == p[x]);
        assert(s[s.len() - 1].snapshot_id > s[x].snapshot_id);
    }
}

/// A commit moves the head forward: the new head follows the old one and has a new id,
/// so a second commit that expects the old head as parent is refused.
pub proof fn law_commit_advances_head(v: LedgerView, files: Seq<DataFileEntry>, ts: u64)
    requires
        v.wf(),
        v.can_commit(files),
    ensures
        v.after_commit(files, ts).wf(),
        v.after_commit(files, ts).head_id() == Some(v.next_snapshot_id),
        v.after_commit(files, ts).snapshots.last().parent_snapshot_id == v.head_id(),
        v.after_commit(files, ts).head_id() != v.head_id(),
        v.after_commit(files, ts).head_total() == v.head_total() + records_in(files),
{
    let w = v.after_commit(files, ts);
    assert forall|i: int, j: int| 0 <= i < j < w.snapshots.len() implies w.snapshots[i].snapshot_id
        < w.snapshots[j].snapshot_id by {
        if j == w.snapshots.len() - 1 {
            assert(w.snapshots[i] == v.snapshots[i]);
        }
    }
}

} // verus!
