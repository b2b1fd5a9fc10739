//! Wire protocol definitions.
use vstd::prelude::*;

verus! {

/// Acknowledgement mode of a produce request.
#[derive(Debug, Clone, Copy, PartialEq, Eq, Structural)]
pub enum AckMode {
    /// Acknowledge once the batch is in memory.
    Fast,
    /// Acknowledge once the batch is durable.
    Durable,
}

} // verus!
