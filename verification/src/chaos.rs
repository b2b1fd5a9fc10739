//! Fault scenarios injected by chaos testing.
use vstd::prelude::*;

verus! {

/// A fault scenario.
#[derive(Debug, Clone, Copy, PartialEq, Eq, Structural)]
pub enum ChaosScenario {
    /// Nodes cannot reach each other.
    NetworkPartition,
    /// Disk writes stall.
    DiskStall,
    /// A node crashes.
    CrashFault,
    /// Clocks drift apart.
    ClockSkew,
}

} // verus!
