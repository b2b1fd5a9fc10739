//! Coordinator shard identifiers, monotonic epochs and shard ownership metadata.
use crate::consensus::types::NodeId;
use crate::text::{decimal, push_decimal, push_str};
use vstd::prelude::*;

verus! {

/// Unique numerical identifier for a coordinator state shard.
#[derive(Debug, Clone, Copy, PartialEq, Eq, Structural, PartialOrd, Ord, Hash)]
pub struct ShardId(pub u32);

impl ShardId {
    /// Renders `Shard-{id}`.
    pub fn to_string(&self) -> (s: String)
        ensures
            s@ == "Shard-"@ + decimal(self.0 as nat),
    {
        let mut s = String::new();
        push_str(&mut s, "Shard-");
        push_decimal(&mut s, self.0 as u64);
        s
    }
}

/// Monotonically increasing coordinator epoch counter, incremented on every coordinator
/// failover or shard rebalance; used to fence stale lease ACKs/NACKs.
#[derive(Debug, Clone, Copy, PartialEq, Eq, Structural, PartialOrd, Ord, Hash)]
pub struct CoordinatorEpoch(pub u64);

impl CoordinatorEpoch {
    /// Advance epoch by one.
    pub fn next(self) -> (r: Self)
        requires
            self.0 < u64::MAX,
        ensures
            r.0 == self.0 + 1,
    {
        CoordinatorEpoch(self.0 + 1)
    }

    /// Renders `Epoch({n})`.
    pub fn to_string(&self) -> (s: String)
        ensures
            s@ == "Epoch("@ + decimal(self.0 as nat) + ")"@,
    {
        let mut s = String::new();
        push_str(&mut s, "Epoch(");
        push_decimal(&mut s, self.0);
        push_str(&mut s, ")");
        s
    }
}

/// Shard ownership metadata registered in the Metadata Raft group.
#[derive(Debug, Clone, PartialEq, Eq)]
pub struct ShardMetadata {
    /// Shard identifier.
    pub shard_id: ShardId,
    /// Current monotonic coordinator epoch.
    pub epoch: CoordinatorEpoch,
    /// Primary coordinator cluster node hosting this shard.
    pub primary_node_id: NodeId,
    /// Consumer group IDs mapped to this shard.
    pub consumer_groups: Vec<String>,
}

} // verus!
