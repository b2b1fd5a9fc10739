//! Hybrid Logical Clock (HLC) for causal ordering across WAN regions.
use crate::text::{decimal, push_decimal, push_str};
use vstd::prelude::*;

verus! {

/// Monotonically increasing Hybrid Logical Clock (HLC) timestamp, ordered by physical
/// time, then logical counter, then node.
#[derive(Debug, Clone, Copy, PartialEq, Eq, Structural, PartialOrd, Ord, Hash)]
pub struct HlcTimestamp {
    /// Physical time component in milliseconds.
    pub physical_ms: u64,
    /// Logical sequence counter incremented on events within the same physical millisecond.
    pub logical: u32,
    /// Originating node identifier to break ties.
    pub node_id: u16,
}

/// Causal order of two timestamps' clock readings: physical time first, then the
/// logical counter.
pub open spec fn hlc_before(a: (u64, u32), b: (u64, u32)) -> bool {
    a.0 < b.0 || (a.0 == b.0 && a.1 < b.1)
}

/// Clock reading of a timestamp.
pub open spec fn reading(t: HlcTimestamp) -> (u64, u32) {
    (t.physical_ms, t.logical)
}

impl HlcTimestamp {
    /// Renders `HLC({physical}:{logical}:{node})`.
    pub fn to_string(&self) -> (s: String)
        ensures
            s@ == "HLC("@ + decimal(self.physical_ms as nat) + ":"@ + decimal(self.logical as nat)
                + ":"@ + decimal(self.node_id as nat) + ")"@,
    {
        let mut s = String::new();
        push_str(&mut s, "HLC(");
        push_decimal(&mut s, self.physical_ms);
        push_str(&mut s, ":");
        push_decimal(&mut s, self.logical as u64);
        push_str(&mut s, ":");
        push_decimal(&mut s, self.node_id as u64);
        push_str(&mut s, ")");
        s
    }
}

/// Hybrid Logical Clock generator for one node.
pub struct HybridLogicalClock {
    node_id: u16,
    latest_physical_ms: u64,
    logical_counter: u32,
}

/// Reading after a local event at physical time `now`: a later physical time restarts the
/// counter, otherwise the counter advances at the last physical time.
pub open spec fn now_reading(last: (u64, u32), now: u64) -> (u64, u32) {
    if now > last.0 {
        (now, 0)
    } else {
        (last.0, (last.1 + 1) as u32)
    }
}

/// Reading after receiving `remote` at physical time `now`: the greatest physical time,
/// and a counter past every counter seen at that time.
pub open spec fn update_reading(last: (u64, u32), remote: (u64, u32), now: u64) -> (u64, u32) {
    let p = if last.0 >= remote.0 && last.0 >= now {
        last.0
    } else if remote.0 >= now {
        remote.0
    } else {
        now
    };
    let l = if p == last.0 && p == remote.0 {
        (if last.1 >= remote.1 { last.1 } else { remote.1 }) + 1
    } else if p == last.0 {
        last.1 + 1
    } else if p == remote.0 {
        remote.1 + 1
    } else {
        0
    };
    (p, l as u32)
}

impl HybridLogicalClock {
    /// The clock's last reading.
    pub closed spec fn last(&self) -> (u64, u32) {
        (self.latest_physical_ms, self.logical_counter)
    }

    /// The node stamped on this clock's timestamps.
    pub closed spec fn node(&self) -> u16 {
        self.node_id
    }

    /// Initialize a new HLC for a specific node.
    pub fn new(node_id: u16) -> (c: Self)
        ensures
            c.last() == (0u64, 0u32),
            c.node() == node_id,
    {
        HybridLogicalClock { node_id, latest_physical_ms: 0, logical_counter: 0 }
    }

    /// Generate a new causal timestamp for a local event.
    pub fn now(&mut self, physical_now_ms: u64) -> (t: HlcTimestamp)
        requires
            physical_now_ms > old(self).last().0 || old(self).last().1 < u32::MAX,
        ensures
            final(self).last() == now_reading(old(self).last(), physical_now_ms),
            final(self).node() == old(self).node(),
            reading(t) == final(self).last(),
            t.node_id == old(self).node(),
    {
        if physical_now_ms > self.latest_physical_ms {
            self.latest_physical_ms = physical_now_ms;
            self.logical_counter = 0;
            HlcTimestamp { physical_ms: physical_now_ms, logical: 0, node_id: self.node_id }
        } else {
            let next_logical = self.logical_counter + 1;
            self.logical_counter = next_logical;
            HlcTimestamp {
                physical_ms: self.latest_physical_ms,
                logical: next_logical,
                node_id: self.node_id,
            }
        }
    }

    /// Update local clock upon receiving a causal message from a remote region.
    pub fn update(&mut self, remote: HlcTimestamp, physical_now_ms: u64) -> (t: HlcTimestamp)
        requires
            old(self).last().1 < u32::MAX,
            remote.logical < u32::MAX,
        ensures
            final(self).last() == update_reading(old(self).last(), reading(remote), physical_now_ms),
            final(self).node() == old(self).node(),
            reading(t) == final(self).last(),
            t.node_id == old(self).node(),
    {
        let last_phys = self.latest_physical_ms;
        let last_logical = self.logical_counter;
        let next_phys = if last_phys >= remote.physical_ms && last_phys >= physical_now_ms {
            last_phys
        } else if remote.physical_ms >= physical_now_ms {
            remote.physical_ms
        } else {
            physical_now_ms
        };
        let next_logical = if next_phys == last_phys && next_phys == remote.physical_ms {
            (if last_logical >= remote.logical {
                last_logical
            } else {
                remote.logical
            }) + 1
        } else if next_phys == last_phys {
            last_logical + 1
        } else if next_phys == remote.physical_ms {
            remote.logical + 1
        } else {
            0
        };
        self.latest_physical_ms = next_phys;
        self.logical_counter = next_logical;
        HlcTimestamp { physical_ms: next_phys, logical: next_logical, node_id: self.node_id }
    }
}

/// Local events are ordered: each new local timestamp comes strictly after the clock's
/// previous reading.
pub proof fn law_now_strictly_increases(last: (u64, u32), now: u64)
    requires
        now > last.0 || last.1 < u32::MAX,
    ensures
        hlc_before(last, now_reading(last, now)),
        now_reading(last, now).0 >= now,
{
}

/// Receiving a message orders the receipt after both the receiver's previous reading and
/// the sender's timestamp, and never behind the local physical time.
pub proof fn law_update_after_both(last: (u64, u32), remote: (u64, u32), now: u64)
    requires
        last.1 < u32::MAX,
        remote.1 < u32::MAX,
    ensures
        hlc_before(last, update_reading(last, remote, now)),
        hlc_before(remote, update_reading(last, remote, now)),
        update_reading(last, remote, now).0 >= now,
{
}

} // verus!
