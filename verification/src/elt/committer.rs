//! Iceberg catalog committer: registered tables with their commit cadence, and commits
//! under optimistic concurrency control on the expected parent snapshot.
use crate::elt::catalog::{CatalogSnapshot, DataFileEntry, IcebergCatalogLedger, LedgerView, expired};
use crate::error::KeiroxError;
use crate::text::{decimal, push_decimal, push_str, str_equal};
use vstd::prelude::*;

verus! {

/// Commit cadence of a table.
#[derive(Debug, Clone, Copy, PartialEq, Eq, Structural)]
pub enum CommitCadenceMode {
    /// Standard cadence.
    Standard,
    /// Fast streaming cadence.
    FastStreaming,
}

/// `{:?}` of an optional snapshot id: `None` or `Some(n)`.
pub open spec fn option_debug(o: Option<u64>) -> Seq<char> {
    match o {
        Some(n) => "Some("@ + decimal(n as nat) + ")"@,
        None => "None"@,
    }
}

fn push_option_debug(s: &mut String, o: Option<u64>)
    ensures
        final(s)@ == old(s)@ + option_debug(o),
{
    match o {
        Some(n) => {
            push_str(s, "Some(");
            push_decimal(s, n);
            push_str(s, ")");
        },
        None => push_str(s, "None"),
    }
}

/// Message of a commit to an unknown table.
pub open spec fn unregistered_text(table: Seq<char>) -> Seq<char> {
    "Table '"@ + table + "' not registered in Iceberg catalog"@
}

/// Message of a commit whose expected parent is not the head.
pub open spec fn conflict_text(table: Seq<char>, expected: Option<u64>, found: Option<u64>) -> Seq<char> {
    "Iceberg commit conflict on table '"@ + table + "': expected parent "@ + option_debug(expected)
        + ", found "@ + option_debug(found)
}

/// Message of an expiry on an unknown table.
pub open spec fn not_found_text(table: Seq<char>) -> Seq<char> {
    "Table '"@ + table + "' not found"@
}

/// Names of the registered tables, in registration order.
pub open spec fn table_names(v: Seq<(String, IcebergCatalogLedger, CommitCadenceMode)>) -> Seq<Seq<char>> {
    v.map_values(|e: (String, IcebergCatalogLedger, CommitCadenceMode)| e.0@)
}

/// Iceberg catalog committer over registered tables.
#[derive(Debug)]
pub struct IcebergCatalogCommitter {
    tables: Vec<(String, IcebergCatalogLedger, CommitCadenceMode)>,
}

impl IcebergCatalogCommitter {
    /// Names are distinct and every ledger is well formed.
    pub closed spec fn wf(&self) -> bool {
        &&& table_names(self.tables@).no_duplicates()
        &&& forall|i: int| 0 <= i < self.tables@.len() ==> (#[trigger] self.tables@[i]).1@.wf()
    }

    /// Whether a table is registered.
    pub closed spec fn has_table(&self, name: Seq<char>) -> bool {
        table_names(self.tables@).contains(name)
    }

    /// The ledger of a registered table.
    pub closed spec fn ledger(&self, name: Seq<char>) -> LedgerView {
        let i = table_names(self.tables@).index_of(name);
        self.tables@[i].1@
    }

    /// The cadence of a registered table.
    pub closed spec fn mode(&self, name: Seq<char>) -> CommitCadenceMode {
        let i = table_names(self.tables@).index_of(name);
        self.tables@[i].2
    }

    /// A committer with no tables.
    pub fn new() -> (r: Self)
        ensures
            r.wf(),
            forall|n: Seq<char>| !r.has_table(n),
    {
        let r = IcebergCatalogCommitter { tables: Vec::new() };
        assert(table_names(r.tables@) =~= Seq::<Seq<char>>::empty());
        r
    }

    fn find(&self, name: &str) -> (r: Option<usize>)
        requires
            self.wf(),
        ensures
            match r {
                Some(i) => i < self.tables@.len() && self.tables@[i as int].0@ == name@ && self.has_table(
                    name@,
                ) && table_names(self.tables@).index_of(name@) == i,
                None => !self.has_table(name@),
            },
    {
        let mut i: usize = 0;
        while i < self.tables.len()
            invariant
                self.wf(),
                i <= self.tables@.len(),
                forall|j: int| 0 <= j < i ==> self.tables@[j].0@ != name@,
            decreases self.tables.len() - i,
        {
            if str_equal(self.tables[i].0.as_str(), name) {
                proof {
                    let names = table_names(self.tables@);
                    assert(names[i as int] == name@);
                    assert(names.contains(name@));
                    names.index_of_first_ensures(name@);
                    let k = names.index_of(name@);
                    assert(names.no_duplicates());
                }
                return Some(i);
            }
            i = i + 1;
        }
        proof {
            let names = table_names(self.tables@);
            if names.contains(name@) {
                let j = choose|j: int| 0 <= j < names.len() && names[j] == name@;
                assert(self.tables@[j].0@ == name@);
            }
        }
        None
    }

    /// Register a table with a cadence: a new table gets an empty ledger, an existing one
    /// keeps its ledger; the cadence is set either way.
    pub fn register_table(&mut self, table_name: &str, mode: CommitCadenceMode)
        requires
            old(self).wf(),
        ensures
            final(self).wf(),
            final(self).has_table(table_name@),
            final(self).mode(table_name@) == mode,
            old(self).has_table(table_name@) ==> final(self).ledger(table_name@) == old(self).ledger(table_name@),
            !old(self).has_table(table_name@) ==> final(self).ledger(table_name@).snapshots.len() == 0
                && final(self).ledger(table_name@).next_snapshot_id == 1,
            forall|n: Seq<char>| n != table_name@ ==> (final(self).has_table(n) == old(self).has_table(n)),
            forall|n: Seq<char>| n != table_name@ && old(self).has_table(n) ==> final(self).ledger(n) == old(self).ledger(n),
    {
        let ghost before = self.tables@;
        match self.find(table_name) {
            Some(i) => {
                let mut e = self.tables.remove(i);
                e.2 = mode;
                self.tables.insert(i, e);
                proof {
                    assert(self.tables@ =~= before.update(i as int, e));
                    assert(table_names(self.tables@) =~= table_names(before));
                }
            },
            None => {
                let mut name = String::new();
                push_str(&mut name, table_name);
                let ledger = IcebergCatalogLedger::new(table_name);
                self.tables.push((name, ledger, mode));
                proof {
                    let names = table_names(self.tables@);
                    assert(names =~= table_names(before).push(table_name@));
                    assert(names.no_duplicates()) by {
                        assert forall|a: int, b: int| 0 <= a < names.len() && 0 <= b < names.len() && a != b implies names[a] != names[b] by {
                            if b == names.len() - 1 {
                                assert(table_names(before)[a] == names[a]);
                            } else if a == names.len() - 1 {
                                assert(table_names(before)[b] == names[b]);
                            }
                        }
                    }
                    assert(names[names.len() - 1] == table_name@);
                    names.index_of_first_ensures(table_name@);
                    assert forall|n: Seq<char>| n != table_name@ && table_names(before).contains(n) implies names.index_of(n) == table_names(before).index_of(n) by {
                        table_names(before).index_of_first_ensures(n);
                        names.index_of_first_ensures(n);
                        let k = table_names(before).index_of(n);
                        assert(names[k] == n);
                    }
                }
            },
        }
        proof {
            let names = table_names(self.tables@);
            assert forall|n: Seq<char>| n != table_name@ implies (names.contains(n) == table_names(before).contains(n)) by {
                if names.contains(n) {
                    let j = choose|j: int| 0 <= j < names.len() && names[j] == n;
                    if j < before.len() {
                        assert(table_names(before)[j] == n);
                    }
                }
                if table_names(before).contains(n) {
                    let j = choose|j: int| 0 <= j < before.len() && table_names(before)[j] == n;
                    assert(names[j] == n);
                }
            }
            assert forall|n: Seq<char>| n != table_name@ && table_names(before).contains(n) implies names.index_of(n) == table_names(before).index_of(n) by {
                table_names(before).index_of_first_ensures(n);
                names.index_of_first_ensures(n);
                let k = table_names(before).index_of(n);
                assert(names[k] == n);
            }
            names.index_of_first_ensures(table_name@);
        }
    }

    /// Commit new data files to a table if its current snapshot is the expected parent.
    pub fn commit_data_files(
        &mut self,
        table_name: &str,
        expected_parent_snapshot_id: Option<u64>,
        new_files: Vec<DataFileEntry>,
        timestamp_ms: u64,
    ) -> (r: Result<CatalogSnapshot, KeiroxError>)
        requires
            old(self).wf(),
            old(self).has_table(table_name@) && old(self).ledger(table_name@).head_id()
                == expected_parent_snapshot_id ==> old(self).ledger(table_name@).can_commit(new_files@),
        ensures
            final(self).wf(),
            !old(self).has_table(table_name@) ==> (r matches Err(KeiroxError::Internal(m)) && m@
                == unregistered_text(table_name@)) && *final(self) == *old(self),
            old(self).has_table(table_name@) && old(self).ledger(table_name@).head_id()
                != expected_parent_snapshot_id ==> (r matches Err(KeiroxError::Internal(m)) && m@
                == conflict_text(
                table_name@,
                expected_parent_snapshot_id,
                old(self).ledger(table_name@).head_id(),
            )) && *final(self) == *old(self),
            old(self).has_table(table_name@) && old(self).ledger(table_name@).head_id()
                == expected_parent_snapshot_id ==> (r matches Ok(snap) && snap@ == old(self).ledger(
                table_name@,
            ).next_snapshot(new_files@, timestamp_ms)) && final(self).ledger(table_name@) == old(
                self,
            ).ledger(table_name@).after_commit(new_files@, timestamp_ms),
            forall|n: Seq<char>| final(self).has_table(n) == old(self).has_table(n),
            forall|n: Seq<char>| n != table_name@ && old(self).has_table(n) ==> final(self).ledger(n) == old(self).ledger(n),
    {
        let i = match self.find(table_name) {
            Some(i) => i,
            None => {
                let mut m = String::new();
                push_str(&mut m, "Table '");
                push_str(&mut m, table_name);
                push_str(&mut m, "' not registered in Iceberg catalog");
                return Err(KeiroxError::Internal(m));
            },
        };
        let current_parent = match self.tables[i].1.current_snapshot() {
            Some(s) => Some(s.snapshot_id),
            None => None,
        };
        if current_parent != expected_parent_snapshot_id {
            let mut m = String::new();
            push_str(&mut m, "Iceberg commit conflict on table '");
            push_str(&mut m, table_name);
            push_str(&mut m, "': expected parent ");
            push_option_debug(&mut m, expected_parent_snapshot_id);
            push_str(&mut m, ", found ");
            push_option_debug(&mut m, current_parent);
            return Err(KeiroxError::Internal(m));
        }
        let ghost before = self.tables@;
        let mut e = self.tables.remove(i);
        let snapshot = e.1.commit_snapshot(new_files, timestamp_ms);
        self.tables.insert(i, e);
        proof {
            assert(self.tables@ =~= before.update(i as int, e));
            assert(table_names(self.tables@) =~= table_names(before));
            assert forall|j: int| 0 <= j < self.tables@.len() implies (#[trigger] self.tables@[j]).1@.wf() by {
                if j != i {
                    assert(self.tables@[j] == before[j]);
                }
            }
        }
        Ok(snapshot)
    }

    /// Expire old snapshots of a table; returns how many were removed.
    pub fn expire_snapshots(&mut self, table_name: &str, retention_cutoff_ms: u64) -> (r: Result<usize, KeiroxError>)
        requires
            old(self).wf(),
        ensures
            final(self).wf(),
            !old(self).has_table(table_name@) ==> (r matches Err(KeiroxError::Internal(m)) && m@
                == not_found_text(table_name@)),
            old(self).has_table(table_name@) ==> {
                let (l, removed) = expired(old(self).ledger(table_name@), retention_cutoff_ms);
                &&& r matches Ok(k) && k == removed
                &&& final(self).ledger(table_name@) == l
                &&& final(self).mode(table_name@) == old(self).mode(table_name@)
            },
            forall|n: Seq<char>| final(self).has_table(n) == old(self).has_table(n),
            forall|n: Seq<char>| n != table_name@ && old(self).has_table(n) ==> final(self).ledger(n) == old(self).ledger(n),
    {
        let i = match self.find(table_name) {
            Some(i) => i,
            None => {
                let mut m = String::new();
                push_str(&mut m, "Table '");
                push_str(&mut m, table_name);
                push_str(&mut m, "' not found");
                return Err(KeiroxError::Internal(m));
            },
        };
        let ghost before = self.tables@;
        let mut e = self.tables.remove(i);
        let removed = e.1.expire_snapshots_before(retention_cutoff_ms);
        self.tables.insert(i, e);
        proof {
            assert(self.tables@ =~= before.update(i as int, e));
            assert(table_names(self.tables@) =~= table_names(before));
            assert forall|j: int| 0 <= j < self.tables@.len() implies (#[trigger] self.tables@[j]).1@.wf() by {
                if j != i {
                    assert(self.tables@[j] == before[j]);
                }
            }
        }
        Ok(removed)
    }

    /// A copy of the current snapshot of a table, if it is registered and has one.
    pub fn current_snapshot(&self, table_name: &str) -> (r: Option<CatalogSnapshot>)
        requires
            self.wf(),
        ensures
            !self.has_table(table_name@) ==> r is None,
            self.has_table(table_name@) && self.ledger(table_name@).snapshots.len() == 0 ==> r is None,
            self.has_table(table_name@) && self.ledger(table_name@).snapshots.len() > 0 ==> (r matches Some(
                c,
            ) && c@ == self.ledger(table_name@).snapshots.last()),
    {
        match self.find(table_name) {
            Some(i) => match self.tables[i].1.current_snapshot() {
                Some(c) => Some(c.duplicate()),
                None => None,
            },
            None => None,
        }
    }
}

impl Default for IcebergCatalogCommitter {
    fn default() -> (r: Self)
        ensures
            r.wf(),
            forall|n: Seq<char>| !r.has_table(n),
    {
        IcebergCatalogCommitter::new()
    }
}

/// A committer shared between tasks.
pub type SharedIcebergCommitter = std::sync::Arc<IcebergCatalogCommitter>;

} // verus!
