//! Pre-allocated row arena: allocations are consecutive slices of one buffer, handed
//! out until it is full and reclaimed all at once by a reset.
use vstd::prelude::*;

verus! {

/// `&mut v[start..end]` (std's `IndexMut` on a range): the slice borrows those bytes, and
/// what is written through it lands in the vector.
#[verifier::external_body]
fn slice_range_mut(v: &mut Vec<u8>, start: usize, end: usize) -> (r: &mut [u8])
    requires
        start <= end <= old(v)@.len(),
    ensures
        r@ == old(v)@.subrange(start as int, end as int),
        final(v)@ == old(v)@.subrange(0, start as int) + final(r)@ + old(v)@.subrange(
            end as int,
            old(v)@.len() as int,
        ),
        final(r)@.len() == end - start,
{
    &mut v[start..end]
}

/// Arena state: its capacity, the buffer's bytes and how much of it is allocated.
pub struct ArenaView {
    /// Bytes in the buffer.
    pub capacity: nat,
    /// The buffer's contents: zero at first, then whatever was written through the
    /// slices handed out (a reset keeps them).
    pub bytes: Seq<u8>,
    /// Bytes handed out since the last reset.
    pub allocated: nat,
}

/// Static memory arena for zero-heap hot-path ingress.
pub struct RowArena {
    buffer: Vec<u8>,
    cursor: usize,
}

impl View for RowArena {
    type V = ArenaView;

    closed spec fn view(&self) -> ArenaView {
        ArenaView { capacity: self.buffer@.len(), bytes: self.buffer@, allocated: self.cursor as nat }
    }
}

impl RowArena {
    /// Never more allocated than the capacity.
    pub closed spec fn wf(&self) -> bool {
        self.cursor <= self.buffer@.len()
    }

    /// An arena of `capacity` zeroed bytes, nothing allocated.
    pub fn with_capacity(capacity: usize) -> (r: Self)
        ensures
            r.wf(),
            r@.capacity == capacity,
            r@.bytes == Seq::new(capacity as nat, |i: int| 0u8),
            r@.allocated == 0,
    {
        let mut buffer: Vec<u8> = Vec::new();
        let mut i: usize = 0;
        while i < capacity
            invariant
                i <= capacity,
                buffer@ == Seq::new(i as nat, |j: int| 0u8),
            decreases capacity - i,
        {
            buffer.push(0u8);
            i = i + 1;
            assert(buffer@ =~= Seq::new(i as nat, |j: int| 0u8));
        }
        RowArena { buffer, cursor: 0 }
    }

    /// Allocate `len` bytes: the next `len` bytes of the buffer, as they stand (zero
    /// until written, earlier contents after a reset), or `None` when fewer remain.
    /// What is written through the slice lands in the buffer.
    pub fn allocate(&mut self, len: usize) -> (r: Option<&mut [u8]>)
        requires
            old(self).wf(),
            old(self)@.allocated + len <= usize::MAX,
        ensures
            final(self).wf(),
            final(self)@.capacity == old(self)@.capacity,
            old(self)@.allocated + len <= old(self)@.capacity ==> (r matches Some(s) && s@
                == old(self)@.bytes.subrange(old(self)@.allocated as int, old(self)@.allocated + len)
                && final(self)@.allocated == old(self)@.allocated + len && final(self)@.bytes
                == old(self)@.bytes.subrange(0, old(self)@.allocated as int) + final(s)@
                + old(self)@.bytes.subrange(old(self)@.allocated + len, old(self)@.capacity as int)
                && final(s)@.len() == len),
            old(self)@.allocated + len > old(self)@.capacity ==> r is None && final(self)@
                == old(self)@,
    {
        if self.cursor + len <= self.buffer.len() {
            let start = self.cursor;
            self.cursor = self.cursor + len;
            let end = self.cursor;
            Some(slice_range_mut(&mut self.buffer, start, end))
        } else {
            None
        }
    }

    /// Reclaim every allocation.
    pub fn reset(&mut self)
        requires
            old(self).wf(),
        ensures
            final(self).wf(),
            final(self)@.capacity == old(self)@.capacity,
            final(self)@.bytes == old(self)@.bytes,
            final(self)@.allocated == 0,
    {
        self.cursor = 0;
    }

    /// Bytes in the buffer.
    pub fn capacity(&self) -> (n: usize)
        ensures
            n == self@.capacity,
    {
        self.buffer.len()
    }

    /// Bytes handed out since the last reset.
    pub fn allocated(&self) -> (n: usize)
        ensures
            n == self@.allocated,
    {
        self.cursor
    }

    /// Bytes still available.
    pub fn remaining(&self) -> (n: usize)
        ensures
            n == if self@.capacity >= self@.allocated {
                self@.capacity - self@.allocated
            } else {
                0
            },
    {
        self.buffer.len().saturating_sub(self.cursor)
    }
}

/// After a reset, the whole capacity is available again.
pub proof fn law_reset_restores_capacity(capacity: nat, bytes: Seq<u8>)
    ensures
        (ArenaView { capacity, bytes, allocated: 0 }).capacity - (ArenaView { capacity, bytes, allocated: 0 }).allocated
            == capacity,
{
}

} // verus!
