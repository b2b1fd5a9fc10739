//! Benchmark workload profiles and their canonical configurations.
use vstd::prelude::*;
use crate::text::push_str;

verus! {

/// Canonical benchmark workload profiles.
#[derive(Debug, Clone, Copy, PartialEq, Eq, Structural, Hash)]
pub enum WorkloadProfile {
    /// P1: extreme low latency.
    P1ExtremeLowLatency,
    /// P2: high-throughput streaming.
    P2HighThroughputStreaming,
    /// P3: massive stream fan-out.
    P3MassiveStreamFanout,
    /// P4: mixed streams and queues.
    P4MixedStreamAndQueue,
    /// P5: columnar ELT export.
    P5ColumnarEltExport,
    /// P6: multi-region replication.
    P6MultiRegionReplication,
}

/// Name of a profile.
pub open spec fn profile_text(p: WorkloadProfile) -> Seq<char> {
    match p {
        WorkloadProfile::P1ExtremeLowLatency => "P1-ExtremeLowLatency"@,
        WorkloadProfile::P2HighThroughputStreaming => "P2-HighThroughputStreaming"@,
        WorkloadProfile::P3MassiveStreamFanout => "P3-MassiveStreamFanout"@,
        WorkloadProfile::P4MixedStreamAndQueue => "P4-MixedStreamAndQueue"@,
        WorkloadProfile::P5ColumnarEltExport => "P5-ColumnarEltExport"@,
        WorkloadProfile::P6MultiRegionReplication => "P6-MultiRegionReplication"@,
    }
}

impl WorkloadProfile {
    /// Renders the profile's name (as `Display` does).
    pub fn to_string(&self) -> (s: String)
        ensures
            s@ == profile_text(*self),
    {
        let mut s = String::new();
        match self {
            WorkloadProfile::P1ExtremeLowLatency => push_str(&mut s, "P1-ExtremeLowLatency"),
            WorkloadProfile::P2HighThroughputStreaming => push_str(&mut s, "P2-HighThroughputStreaming"),
            WorkloadProfile::P3MassiveStreamFanout => push_str(&mut s, "P3-MassiveStreamFanout"),
            WorkloadProfile::P4MixedStreamAndQueue => push_str(&mut s, "P4-MixedStreamAndQueue"),
            WorkloadProfile::P5ColumnarEltExport => push_str(&mut s, "P5-ColumnarEltExport"),
            WorkloadProfile::P6MultiRegionReplication => push_str(&mut s, "P6-MultiRegionReplication"),
        }
        s
    }
}

/// Configuration of a benchmark run.
#[derive(Debug, Clone, Copy, PartialEq, Eq, Structural)]
pub struct BenchmarkConfig {
    /// Profile.
    pub profile: WorkloadProfile,
    /// Payload size.
    pub payload_size_bytes: usize,
    /// Concurrent clients.
    pub concurrency: usize,
    /// Target rate (0: unbounded).
    pub target_ops_per_sec: u64,
    /// Duration.
    pub duration_secs: u64,
}

/// The canonical configuration of a profile.
pub open spec fn profile_config(p: WorkloadProfile) -> BenchmarkConfig {
    match p {
        WorkloadProfile::P1ExtremeLowLatency => BenchmarkConfig {
            profile: p,
            payload_size_bytes: 1024,
            concurrency: 16,
            target_ops_per_sec: 100_000,
            duration_secs: 60,
        },
        WorkloadProfile::P2HighThroughputStreaming => BenchmarkConfig {
            profile: p,
            payload_size_bytes: 4096,
            concurrency: 64,
            target_ops_per_sec: 0,
            duration_secs: 60,
        },
        _ => BenchmarkConfig {
            profile: p,
            payload_size_bytes: 1024,
            concurrency: 8,
            target_ops_per_sec: 10_000,
            duration_secs: 30,
        },
    }
}

impl BenchmarkConfig {
    /// The canonical configuration of a profile.
    pub fn for_profile(profile: WorkloadProfile) -> (c: Self)
        ensures
            c == profile_config(profile),
    {
        match profile {
            WorkloadProfile::P1ExtremeLowLatency => BenchmarkConfig {
                profile,
                payload_size_bytes: 1024,
                concurrency: 16,
                target_ops_per_sec: 100_000,
                duration_secs: 60,
            },
            WorkloadProfile::P2HighThroughputStreaming => BenchmarkConfig {
                profile,
                payload_size_bytes: 4096,
                concurrency: 64,
                target_ops_per_sec: 0,
                duration_secs: 60,
            },
            _ => BenchmarkConfig {
                profile,
                payload_size_bytes: 1024,
                concurrency: 8,
                target_ops_per_sec: 10_000,
                duration_secs: 30,
            },
        }
    }
}

} // verus!
