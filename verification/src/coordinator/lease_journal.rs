//! Lease delta journal: the changes recorded between periodic snapshots, in order.
use crate::consensus::log::LeaseDeltaRecord;
use vstd::prelude::*;

verus! {

/// In-memory lease delta journal capturing changes between periodic snapshots.
#[derive(Debug, Clone)]
pub struct LeaseJournal {
    deltas: Vec<LeaseDeltaRecord>,
}

impl View for LeaseJournal {
    type V = Seq<LeaseDeltaRecord>;

    closed spec fn view(&self) -> Seq<LeaseDeltaRecord> {
        self.deltas@
    }
}

impl LeaseJournal {
    /// Create a new empty lease journal.
    pub fn new() -> (r: Self)
        ensures
            r@ == Seq::<LeaseDeltaRecord>::empty(),
    {
        LeaseJournal { deltas: Vec::new() }
    }

    /// Record a new delta at the end of the journal.
    pub fn record(&mut self, delta: LeaseDeltaRecord)
        ensures
            final(self)@ == old(self)@.push(delta),
    {
        self.deltas.push(delta);
    }

    /// Total deltas recorded.
    pub fn len(&self) -> (n: usize)
        ensures
            n == self@.len(),
    {
        self.deltas.len()
    }

    /// True if journal contains zero deltas.
    pub fn is_empty(&self) -> (b: bool)
        ensures
            b == (self@.len() == 0),
    {
        self.deltas.len() == 0
    }

    /// Drain all recorded deltas (e.g. after snapshot compaction): they come back in the
    /// order they were recorded and the journal is left empty.
    pub fn drain(&mut self) -> (r: Vec<LeaseDeltaRecord>)
        ensures
            r@ == old(self)@,
            final(self)@ == Seq::<LeaseDeltaRecord>::empty(),
    {
        let mut taken: Vec<LeaseDeltaRecord> = Vec::new();
        std::mem::swap(&mut taken, &mut self.deltas);
        taken
    }

    /// All recorded deltas, in order.
    pub fn deltas(&self) -> (r: &[LeaseDeltaRecord])
        ensures
            r@ == self@,
    {
        self.deltas.as_slice()
    }
}

impl Default for LeaseJournal {
    fn default() -> (r: Self)
        ensures
            r@ == Seq::<LeaseDeltaRecord>::empty(),
    {
        LeaseJournal::new()
    }
}

} // verus!
