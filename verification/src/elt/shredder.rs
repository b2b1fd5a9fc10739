//! Adaptive schema shredder limits.
use vstd::prelude::*;

verus! {

/// Adaptive schema shredder: how many fields may be inferred as columns.
#[derive(Debug, Clone, Copy)]
pub struct AdaptiveShredder {
    max_inferred_fields: usize,
}

impl AdaptiveShredder {
    /// The limit on inferred fields.
    pub closed spec fn limit(&self) -> usize {
        self.max_inferred_fields
    }

    /// A shredder inferring at most `max_inferred_fields` fields.
    pub fn new(max_inferred_fields: usize) -> (r: Self)
        ensures
            r.limit() == max_inferred_fields,
    {
        AdaptiveShredder { max_inferred_fields }
    }

    /// The limit on inferred fields.
    pub fn max_fields(&self) -> (n: usize)
        ensures
            n == self.limit(),
    {
        self.max_inferred_fields
    }
}

impl Default for AdaptiveShredder {
    /// The documented default cap of 64 inferred fields.
    fn default() -> (r: Self)
        ensures
            r.limit() == 64,
    {
        AdaptiveShredder::new(64)
    }
}

} // verus!
