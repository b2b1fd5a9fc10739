//! Diagnostic codes with operator remediation hints, subsystem tags, and structured
//! diagnostic events with their one-line rendering.
use crate::text::{decimal, push_decimal, push_str};
use vstd::prelude::*;

verus! {

/// Standardized diagnostic error codes mapping to runbooks.
#[derive(Debug, Clone, Copy, PartialEq, Eq, Structural, Hash)]
pub enum DiagnosticCode {
    /// Batch header magic or framing bytes are corrupted.
    InvalidBatchHeader,
    /// Batch payload or record CRC32C check failed.
    CrcMismatch,
    /// Consumer lease token is stale, invalid, or expired.
    StaleLeaseToken,
    /// Offset retry count exceeded max limit; evicted to DLQ.
    MaxRetriesExceeded,
    /// Tenant ingress throughput or lease quota exceeded.
    QuotaExceeded,
    /// Storage segment file or index unrecoverable corruption detected.
    StorageCorruption,
    /// Watermark attempted to advance backwards (violating monotonicity).
    WatermarkRegression,
    /// Record schema incompatible with promoted columnar schema.
    SchemaIncompatible,
    /// Underlying kernel I/O (io_uring / O_DIRECT) returned an unhandled error.
    IoFailure,
    /// Progressive backpressure ladder engaged due to capacity threshold.
    BackpressureEngaged,
    /// Raft quorum could not be achieved within the timeout window.
    RaftQuorumLost,
    /// Coordinator shard epoch is stale; request rejected to prevent split-brain.
    EpochFenced,
    /// Graceful leader transfer timed out.
    RaftLeaderTransferTimeout,
    /// Tier-1 S3 multipart upload failed after max retries.
    Tier1UploadFailed,
    /// Reconstructed state bitmap checksum does not match peer snapshot.
    StateReconciliationMismatch,
    /// Draining node failed to migrate coordinator shards.
    NodeDrainTimeout,
}

/// The canonical alphanumeric code: `KEI-ERR-` and three digits, in declaration order.
pub open spec fn code_text(c: DiagnosticCode) -> Seq<char> {
    match c {
        DiagnosticCode::InvalidBatchHeader => "KEI-ERR-001"@,
        DiagnosticCode::CrcMismatch => "KEI-ERR-002"@,
        DiagnosticCode::StaleLeaseToken => "KEI-ERR-003"@,
        DiagnosticCode::MaxRetriesExceeded => "KEI-ERR-004"@,
        DiagnosticCode::QuotaExceeded => "KEI-ERR-005"@,
        DiagnosticCode::StorageCorruption => "KEI-ERR-006"@,
        DiagnosticCode::WatermarkRegression => "KEI-ERR-007"@,
        DiagnosticCode::SchemaIncompatible => "KEI-ERR-008"@,
        DiagnosticCode::IoFailure => "KEI-ERR-009"@,
        DiagnosticCode::BackpressureEngaged => "KEI-ERR-010"@,
        DiagnosticCode::RaftQuorumLost => "KEI-ERR-011"@,
        DiagnosticCode::EpochFenced => "KEI-ERR-012"@,
        DiagnosticCode::RaftLeaderTransferTimeout => "KEI-ERR-013"@,
        DiagnosticCode::Tier1UploadFailed => "KEI-ERR-014"@,
        DiagnosticCode::StateReconciliationMismatch => "KEI-ERR-015"@,
        DiagnosticCode::NodeDrainTimeout => "KEI-ERR-016"@,
    }
}

/// The default remediation hint for operators.
pub open spec fn remediation_text(c: DiagnosticCode) -> Seq<char> {
    match c {
        DiagnosticCode::InvalidBatchHeader => "Verify WAL segment alignment and inspect disk block health."@,
        DiagnosticCode::CrcMismatch => "Segment corruption detected; run recovery reconciler or inspect NVMe sector."@,
        DiagnosticCode::StaleLeaseToken => "Consumer lease expired; retry message acquisition with a fresh lease token."@,
        DiagnosticCode::MaxRetriesExceeded => "Message poison pill evicted to virtual DLQ; inspect poison payload."@,
        DiagnosticCode::QuotaExceeded => "Scale tenant token bucket or backoff ingress client requests."@,
        DiagnosticCode::StorageCorruption => "Isolate faulty node and trigger state reconstruction from peer replicas."@,
        DiagnosticCode::WatermarkRegression => "Severe invariant violation; check state machine coordinator fencing."@,
        DiagnosticCode::SchemaIncompatible => "Payload JSON fields diverged from schema; demoted to unstructured field."@,
        DiagnosticCode::IoFailure => "Inspect kernel dmesg, io_uring queue depth, and filesystem mount options."@,
        DiagnosticCode::BackpressureEngaged => "Ingress throttled; check downstream compaction and S3 upload backlog."@,
        DiagnosticCode::RaftQuorumLost => "Check cluster network partition or bring replacement peer nodes online."@,
        DiagnosticCode::EpochFenced => "Request routed to demoted coordinator; refresh shard routing from consistent hash ring."@,
        DiagnosticCode::RaftLeaderTransferTimeout => "Target leader replica lag too high; allow follower to catch up before transfer."@,
        DiagnosticCode::Tier1UploadFailed => "Inspect S3 credentials, bucket rate limits, and network egress connectivity."@,
        DiagnosticCode::StateReconciliationMismatch => "Bitmap divergence detected; force snapshot reload from Metadata Raft leader."@,
        DiagnosticCode::NodeDrainTimeout => "Active leases failed to drain within grace period; force shard eviction."@,
    }
}

impl DiagnosticCode {
    /// Returns the canonical alphanumeric code.
    pub fn code_str(&self) -> (r: &'static str)
        ensures
            r@ == code_text(*self),
    {
        match self {
            DiagnosticCode::InvalidBatchHeader => "KEI-ERR-001",
            DiagnosticCode::CrcMismatch => "KEI-ERR-002",
            DiagnosticCode::StaleLeaseToken => "KEI-ERR-003",
            DiagnosticCode::MaxRetriesExceeded => "KEI-ERR-004",
            DiagnosticCode::QuotaExceeded => "KEI-ERR-005",
            DiagnosticCode::StorageCorruption => "KEI-ERR-006",
            DiagnosticCode::WatermarkRegression => "KEI-ERR-007",
            DiagnosticCode::SchemaIncompatible => "KEI-ERR-008",
            DiagnosticCode::IoFailure => "KEI-ERR-009",
            DiagnosticCode::BackpressureEngaged => "KEI-ERR-010",
            DiagnosticCode::RaftQuorumLost => "KEI-ERR-011",
            DiagnosticCode::EpochFenced => "KEI-ERR-012",
            DiagnosticCode::RaftLeaderTransferTimeout => "KEI-ERR-013",
            DiagnosticCode::Tier1UploadFailed => "KEI-ERR-014",
            DiagnosticCode::StateReconciliationMismatch => "KEI-ERR-015",
            DiagnosticCode::NodeDrainTimeout => "KEI-ERR-016",
        }
    }

    /// Returns the default remediation hint for operators.
    pub fn default_remediation(&self) -> (r: &'static str)
        ensures
            r@ == remediation_text(*self),
    {
        match self {
            DiagnosticCode::InvalidBatchHeader => "Verify WAL segment alignment and inspect disk block health.",
            DiagnosticCode::CrcMismatch => "Segment corruption detected; run recovery reconciler or inspect NVMe sector.",
            DiagnosticCode::StaleLeaseToken => "Consumer lease expired; retry message acquisition with a fresh lease token.",
            DiagnosticCode::MaxRetriesExceeded => "Message poison pill evicted to virtual DLQ; inspect poison payload.",
            DiagnosticCode::QuotaExceeded => "Scale tenant token bucket or backoff ingress client requests.",
            DiagnosticCode::StorageCorruption => "Isolate faulty node and trigger state reconstruction from peer replicas.",
            DiagnosticCode::WatermarkRegression => "Severe invariant violation; check state machine coordinator fencing.",
            DiagnosticCode::SchemaIncompatible => "Payload JSON fields diverged from schema; demoted to unstructured field.",
            DiagnosticCode::IoFailure => "Inspect kernel dmesg, io_uring queue depth, and filesystem mount options.",
            DiagnosticCode::BackpressureEngaged => "Ingress throttled; check downstream compaction and S3 upload backlog.",
            DiagnosticCode::RaftQuorumLost => "Check cluster network partition or bring replacement peer nodes online.",
            DiagnosticCode::EpochFenced => "Request routed to demoted coordinator; refresh shard routing from consistent hash ring.",
            DiagnosticCode::RaftLeaderTransferTimeout => "Target leader replica lag too high; allow follower to catch up before transfer.",
            DiagnosticCode::Tier1UploadFailed => "Inspect S3 credentials, bucket rate limits, and network egress connectivity.",
            DiagnosticCode::StateReconciliationMismatch => "Bitmap divergence detected; force snapshot reload from Metadata Raft leader.",
            DiagnosticCode::NodeDrainTimeout => "Active leases failed to drain within grace period; force shard eviction.",
        }
    }

    /// Renders the code (as `Display` does).
    pub fn to_string(&self) -> (s: String)
        ensures
            s@ == code_text(*self),
    {
        let mut s = String::new();
        push_str(&mut s, self.code_str());
        s
    }
}

/// Subsystem tags categorizing diagnostic events.
#[derive(Debug, Clone, Copy, PartialEq, Eq, Structural, Hash)]
pub enum SubsystemTag {
    /// Physical storage and WAL engine.
    Storage,
    /// Roaring Bitmap state plane and consumption machine.
    StatePlane,
    /// Hot write ingress gateway and wire protocol.
    Ingress,
    /// Columnar transcoding, Arrow RecordBatching, and Parquet export.
    Export,
    /// Multi-Raft distributed consensus and coordinator sharding.
    Consensus,
    /// Operability, health, and capacity management.
    Operability,
}

/// The upper-case name of a subsystem.
pub open spec fn tag_text(t: SubsystemTag) -> Seq<char> {
    match t {
        SubsystemTag::Storage => "STORAGE"@,
        SubsystemTag::StatePlane => "STATE_PLANE"@,
        SubsystemTag::Ingress => "INGRESS"@,
        SubsystemTag::Export => "EXPORT"@,
        SubsystemTag::Consensus => "CONSENSUS"@,
        SubsystemTag::Operability => "OPERABILITY"@,
    }
}

impl SubsystemTag {
    /// Renders the upper-case name (as `Display` does).
    pub fn to_string(&self) -> (s: String)
        ensures
            s@ == tag_text(*self),
    {
        let mut s = String::new();
        match self {
            SubsystemTag::Storage => push_str(&mut s, "STORAGE"),
            SubsystemTag::StatePlane => push_str(&mut s, "STATE_PLANE"),
            SubsystemTag::Ingress => push_str(&mut s, "INGRESS"),
            SubsystemTag::Export => push_str(&mut s, "EXPORT"),
            SubsystemTag::Consensus => push_str(&mut s, "CONSENSUS"),
            SubsystemTag::Operability => push_str(&mut s, "OPERABILITY"),
        }
        s
    }
}

/// Structured diagnostic event for system observability and runbook execution.
#[derive(Debug, Clone)]
pub struct DiagnosticEvent {
    /// Canonical diagnostic error code.
    pub code: DiagnosticCode,
    /// Subsystem origin.
    pub subsystem: SubsystemTag,
    /// Specific human-readable diagnostic message.
    pub message: String,
    /// Actionable remediation hint.
    pub remediation_hint: String,
    /// Nanosecond timestamp of the event.
    pub timestamp_ns: u64,
}

/// One-line rendering: `[code] [SUBSYSTEM] time: message (Remediation: hint)`.
pub open spec fn event_text(e: DiagnosticEvent) -> Seq<char> {
    "["@ + code_text(e.code) + "] ["@ + tag_text(e.subsystem) + "] "@ + decimal(e.timestamp_ns as nat)
        + ": "@ + e.message@ + " (Remediation: "@ + e.remediation_hint@ + ")"@
}

impl DiagnosticEvent {
    /// Create a diagnostic event carrying the code's default remediation hint.
    pub fn new(code: DiagnosticCode, subsystem: SubsystemTag, message: &str, timestamp_ns: u64) -> (r: Self)
        ensures
            r.code == code,
            r.subsystem == subsystem,
            r.message@ == message@,
            r.remediation_hint@ == remediation_text(code),
            r.timestamp_ns == timestamp_ns,
    {
        let mut remediation_hint = String::new();
        push_str(&mut remediation_hint, code.default_remediation());
        let mut m = String::new();
        push_str(&mut m, message);
        DiagnosticEvent { code, subsystem, message: m, remediation_hint, timestamp_ns }
    }

    /// Set a custom remediation hint.
    pub fn with_custom_remediation(self, hint: &str) -> (r: Self)
        ensures
            r.code == self.code,
            r.subsystem == self.subsystem,
            r.message == self.message,
            r.remediation_hint@ == hint@,
            r.timestamp_ns == self.timestamp_ns,
    {
        let mut e = self;
        let mut h = String::new();
        push_str(&mut h, hint);
        e.remediation_hint = h;
        e
    }

    /// Renders the event on one line (as `Display` does).
    pub fn to_string(&self) -> (s: String)
        ensures
            s@ == event_text(*self),
    {
        let mut s = String::new();
        push_str(&mut s, "[");
        push_str(&mut s, self.code.code_str());
        push_str(&mut s, "] [");
        let t = self.subsystem.to_string();
        push_str(&mut s, t.as_str());
        push_str(&mut s, "] ");
        push_decimal(&mut s, self.timestamp_ns);
        push_str(&mut s, ": ");
        push_str(&mut s, self.message.as_str());
        push_str(&mut s, " (Remediation: ");
        push_str(&mut s, self.remediation_hint.as_str());
        push_str(&mut s, ")");
        s
    }
}

} // verus!
