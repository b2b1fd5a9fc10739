//! Telemetry counters and gauges, their snapshot, and the Prometheus text and JSON
//! renderings.
use crate::text::{decimal, push_decimal, push_str};
use vstd::prelude::*;

verus! {

/// Point-in-time values of all metrics.
#[derive(Debug, Clone, Copy, PartialEq, Eq, Structural)]
pub struct MetricSnapshot {
    /// `ingest_messages_total`.
    pub ingest_messages_total: u64,
    /// `ingest_bytes_total`.
    pub ingest_bytes_total: u64,
    /// `wal_append_count`.
    pub wal_append_count: u64,
    /// `wal_append_avg_latency_us`.
    pub wal_append_avg_latency_us: u64,
    /// `wal_append_max_latency_us`.
    pub wal_append_max_latency_us: u64,
    /// `active_leases_count`.
    pub active_leases_count: u64,
    /// `watermark_offset`.
    pub watermark_offset: u64,
    /// `dlq_evictions_total`.
    pub dlq_evictions_total: u64,
    /// `segments_sealed_total`.
    pub segments_sealed_total: u64,
    /// `parquet_files_exported_total`.
    pub parquet_files_exported_total: u64,
    /// `memory_usage_bytes`.
    pub memory_usage_bytes: u64,
    /// `raft_leader_status`.
    pub raft_leader_status: u64,
    /// `raft_current_term`.
    pub raft_current_term: u64,
    /// `raft_commit_index`.
    pub raft_commit_index: u64,
    /// `coordinator_epoch`.
    pub coordinator_epoch: u64,
    /// `s3_uploaded_bytes_total`.
    pub s3_uploaded_bytes_total: u64,
    /// `s3_backlog_bytes`.
    pub s3_backlog_bytes: u64,
}

/// Telemetry registry: counters wrap around on overflow, as atomic additions do.
#[derive(Debug, Clone, Copy, PartialEq, Eq, Structural)]
pub struct TelemetryRegistry {
    ingest_messages_total: u64,
    ingest_bytes_total: u64,
    wal_append_count: u64,
    wal_append_latency_sum_us: u64,
    wal_append_latency_max_us: u64,
    active_leases_count: u64,
    watermark_offset: u64,
    dlq_evictions_total: u64,
    segments_sealed_total: u64,
    parquet_files_exported_total: u64,
    memory_usage_bytes: u64,
    raft_leader_status: u64,
    raft_current_term: u64,
    raft_commit_index: u64,
    coordinator_epoch: u64,
    s3_uploaded_bytes_total: u64,
    s3_backlog_bytes: u64,
}

/// The registry's values.
#[derive(Clone, Copy)]
pub struct RegistryView {
    /// `ingest_messages_total`.
    pub ingest_messages_total: u64,
    /// `ingest_bytes_total`.
    pub ingest_bytes_total: u64,
    /// `wal_append_count`.
    pub wal_append_count: u64,
    /// `wal_append_latency_sum_us`.
    pub wal_append_latency_sum_us: u64,
    /// `wal_append_latency_max_us`.
    pub wal_append_latency_max_us: u64,
    /// `active_leases_count`.
    pub active_leases_count: u64,
    /// `watermark_offset`.
    pub watermark_offset: u64,
    /// `dlq_evictions_total`.
    pub dlq_evictions_total: u64,
    /// `segments_sealed_total`.
    pub segments_sealed_total: u64,
    /// `parquet_files_exported_total`.
    pub parquet_files_exported_total: u64,
    /// `memory_usage_bytes`.
    pub memory_usage_bytes: u64,
    /// `raft_leader_status`.
    pub raft_leader_status: u64,
    /// `raft_current_term`.
    pub raft_current_term: u64,
    /// `raft_commit_index`.
    pub raft_commit_index: u64,
    /// `coordinator_epoch`.
    pub coordinator_epoch: u64,
    /// `s3_uploaded_bytes_total`.
    pub s3_uploaded_bytes_total: u64,
    /// `s3_backlog_bytes`.
    pub s3_backlog_bytes: u64,
}

impl View for TelemetryRegistry {
    type V = RegistryView;

    closed spec fn view(&self) -> RegistryView {
        RegistryView {
            ingest_messages_total: self.ingest_messages_total,
            ingest_bytes_total: self.ingest_bytes_total,
            wal_append_count: self.wal_append_count,
            wal_append_latency_sum_us: self.wal_append_latency_sum_us,
            wal_append_latency_max_us: self.wal_append_latency_max_us,
            active_leases_count: self.active_leases_count,
            watermark_offset: self.watermark_offset,
            dlq_evictions_total: self.dlq_evictions_total,
            segments_sealed_total: self.segments_sealed_total,
            parquet_files_exported_total: self.parquet_files_exported_total,
            memory_usage_bytes: self.memory_usage_bytes,
            raft_leader_status: self.raft_leader_status,
            raft_current_term: self.raft_current_term,
            raft_commit_index: self.raft_commit_index,
            coordinator_epoch: self.coordinator_epoch,
            s3_uploaded_bytes_total: self.s3_uploaded_bytes_total,
            s3_backlog_bytes: self.s3_backlog_bytes,
        }
    }
}

/// A Prometheus metric: name, help line, kind and value.
pub type PromMetric = (Seq<char>, Seq<char>, Seq<char>, u64);

/// The Prometheus metrics of a snapshot, in exposition order.
pub open spec fn prom_metrics(s: MetricSnapshot) -> Seq<PromMetric> {
    seq![
        ("keirox_ingest_messages_total"@, "Total messages ingested"@, "counter"@, s.ingest_messages_total),
        ("keirox_ingest_bytes_total"@, "Total bytes ingested"@, "counter"@, s.ingest_bytes_total),
        ("keirox_wal_append_operations_total"@, "Total WAL batch append operations"@, "counter"@, s.wal_append_count),
        ("keirox_wal_append_latency_avg_microseconds"@, "Average WAL append latency"@, "gauge"@, s.wal_append_avg_latency_us),
        ("keirox_wal_append_latency_max_microseconds"@, "Max WAL append latency"@, "gauge"@, s.wal_append_max_latency_us),
        ("keirox_active_leases_count"@, "Current active consumer leases"@, "gauge"@, s.active_leases_count),
        ("keirox_watermark_offset"@, "Monotonic base watermark offset"@, "gauge"@, s.watermark_offset),
        ("keirox_dlq_evictions_total"@, "Total messages evicted to virtual DLQ"@, "counter"@, s.dlq_evictions_total),
        ("keirox_segments_sealed_total"@, "Total immutable storage segments sealed"@, "counter"@, s.segments_sealed_total),
        ("keirox_parquet_files_exported_total"@, "Total Parquet files exported"@, "counter"@, s.parquet_files_exported_total),
        ("keirox_memory_usage_bytes"@, "Current memory usage in bytes"@, "gauge"@, s.memory_usage_bytes),
        ("keirox_raft_leader_status"@, "1 if node is cluster leader, 0 otherwise"@, "gauge"@, s.raft_leader_status),
        ("keirox_raft_current_term"@, "Current consensus term"@, "gauge"@, s.raft_current_term),
        ("keirox_raft_commit_index"@, "Current committed Raft log index"@, "gauge"@, s.raft_commit_index),
        ("keirox_coordinator_epoch"@, "Current active coordinator epoch"@, "gauge"@, s.coordinator_epoch),
        ("keirox_s3_uploaded_bytes_total"@, "Total bytes streamed to S3"@, "counter"@, s.s3_uploaded_bytes_total),
        ("keirox_s3_backlog_bytes"@, "Current NVMe backlog bytes pending S3 upload"@, "gauge"@, s.s3_backlog_bytes),
    ]
}

/// One metric's exposition block: help, type and sample lines.
pub open spec fn prom_block(m: PromMetric) -> Seq<char> {
    "# HELP "@ + m.0 + " "@ + m.1 + "\n"@ + "# TYPE "@ + m.0 + " "@ + m.2 + "\n"@ + m.0 + " "@
        + decimal(m.3 as nat) + "\n"@
}

/// Blocks separated by blank lines.
pub open spec fn prom_text(ms: Seq<PromMetric>) -> Seq<char>
    decreases ms.len(),
{
    if ms.len() == 0 {
        Seq::empty()
    } else if ms.len() == 1 {
        prom_block(ms[0])
    } else {
        prom_text(ms.drop_last()) + "\n"@ + prom_block(ms.last())
    }
}

/// A JSON field: name and value.
pub type JsonField = (Seq<char>, u64);

/// The JSON fields of a snapshot, in order.
pub open spec fn json_fields(s: MetricSnapshot) -> Seq<JsonField> {
    seq![
        ("ingest_messages_total"@, s.ingest_messages_total),
        ("ingest_bytes_total"@, s.ingest_bytes_total),
        ("wal_append_count"@, s.wal_append_count),
        ("wal_append_avg_latency_us"@, s.wal_append_avg_latency_us),
        ("wal_append_max_latency_us"@, s.wal_append_max_latency_us),
        ("active_leases_count"@, s.active_leases_count),
        ("watermark_offset"@, s.watermark_offset),
        ("dlq_evictions_total"@, s.dlq_evictions_total),
        ("segments_sealed_total"@, s.segments_sealed_total),
        ("parquet_files_exported_total"@, s.parquet_files_exported_total),
        ("memory_usage_bytes"@, s.memory_usage_bytes),
        ("raft_leader_status"@, s.raft_leader_status),
        ("raft_current_term"@, s.raft_current_term),
        ("raft_commit_index"@, s.raft_commit_index),
        ("coordinator_epoch"@, s.coordinator_epoch),
        ("s3_uploaded_bytes_total"@, s.s3_uploaded_bytes_total),
        ("s3_backlog_bytes"@, s.s3_backlog_bytes),
    ]
}

/// `"name":value` pairs joined by commas.
pub open spec fn json_pairs(fs: Seq<JsonField>) -> Seq<char>
    decreases fs.len(),
{
    if fs.len() == 0 {
        Seq::empty()
    } else if fs.len() == 1 {
        "\""@ + fs[0].0 + "\":"@ + decimal(fs[0].1 as nat)
    } else {
        json_pairs(fs.drop_last()) + ","@ + "\""@ + fs.last().0 + "\":"@ + decimal(fs.last().1 as nat)
    }
}

/// The snapshot the registry's values give: the average WAL latency is the sum over
/// the count, or 0 before any append.
pub open spec fn snapshot_of(v: RegistryView) -> MetricSnapshot {
    MetricSnapshot {
        ingest_messages_total: v.ingest_messages_total,
        ingest_bytes_total: v.ingest_bytes_total,
        wal_append_count: v.wal_append_count,
        wal_append_avg_latency_us: if v.wal_append_count > 0 {
            v.wal_append_latency_sum_us / v.wal_append_count
        } else {
            0
        },
        wal_append_max_latency_us: v.wal_append_latency_max_us,
        active_leases_count: v.active_leases_count,
        watermark_offset: v.watermark_offset,
        dlq_evictions_total: v.dlq_evictions_total,
        segments_sealed_total: v.segments_sealed_total,
        parquet_files_exported_total: v.parquet_files_exported_total,
        memory_usage_bytes: v.memory_usage_bytes,
        raft_leader_status: v.raft_leader_status,
        raft_current_term: v.raft_current_term,
        raft_commit_index: v.raft_commit_index,
        coordinator_epoch: v.coordinator_epoch,
        s3_uploaded_bytes_total: v.s3_uploaded_bytes_total,
        s3_backlog_bytes: v.s3_backlog_bytes,
    }
}


/// A snapshot with every value at zero.
pub open spec fn zero_snapshot() -> MetricSnapshot {
    MetricSnapshot {
        ingest_messages_total: 0,
        ingest_bytes_total: 0,
        wal_append_count: 0,
        wal_append_avg_latency_us: 0,
        wal_append_max_latency_us: 0,
        active_leases_count: 0,
        watermark_offset: 0,
        dlq_evictions_total: 0,
        segments_sealed_total: 0,
        parquet_files_exported_total: 0,
        memory_usage_bytes: 0,
        raft_leader_status: 0,
        raft_current_term: 0,
        raft_commit_index: 0,
        coordinator_epoch: 0,
        s3_uploaded_bytes_total: 0,
        s3_backlog_bytes: 0,
    }
}


/// A registry view with every value at zero.
pub open spec fn zero_view() -> RegistryView {
    RegistryView {
        ingest_messages_total: 0,
        ingest_bytes_total: 0,
        wal_append_count: 0,
        wal_append_latency_sum_us: 0,
        wal_append_latency_max_us: 0,
        active_leases_count: 0,
        watermark_offset: 0,
        dlq_evictions_total: 0,
        segments_sealed_total: 0,
        parquet_files_exported_total: 0,
        memory_usage_bytes: 0,
        raft_leader_status: 0,
        raft_current_term: 0,
        raft_commit_index: 0,
        coordinator_epoch: 0,
        s3_uploaded_bytes_total: 0,
        s3_backlog_bytes: 0,
    }
}

/// One call of a recorder or setter of the registry, with its arguments.
pub enum TelemetryCall {
    /// `record_ingest(messages, bytes)`.
    Ingest(u64, u64),
    /// `record_wal_append(latency_us)`.
    WalAppend(u64),
    /// `set_active_leases(count)`.
    ActiveLeases(u64),
    /// `set_watermark(offset)`.
    Watermark(u64),
    /// `set_memory_usage(bytes)`.
    MemoryUsage(u64),
    /// `set_coordinator_epoch(epoch)`.
    CoordinatorEpoch(u64),
    /// `set_s3_backlog(bytes)`.
    S3Backlog(u64),
    /// `record_dlq_eviction()`.
    DlqEviction,
    /// `record_segment_sealed()`.
    SegmentSealed,
    /// `record_parquet_export()`.
    ParquetExport,
    /// `set_raft_status(is_leader, term, commit_index)`.
    RaftStatus(bool, u64, u64),
    /// `record_s3_upload(bytes)`.
    S3Upload(u64),
}

/// The registry's values after one call: counters add with wrap-around, the WAL
/// maximum keeps the largest latency, gauges take the value set.
pub open spec fn after_call(v: RegistryView, c: TelemetryCall) -> RegistryView {
    match c {
        TelemetryCall::Ingest(m, b) => RegistryView {
            ingest_messages_total: v.ingest_messages_total.wrapping_add(m),
            ingest_bytes_total: v.ingest_bytes_total.wrapping_add(b),
            ..v
        },
        TelemetryCall::WalAppend(l) => RegistryView {
            wal_append_count: v.wal_append_count.wrapping_add(1),
            wal_append_latency_sum_us: v.wal_append_latency_sum_us.wrapping_add(l),
            wal_append_latency_max_us: if l > v.wal_append_latency_max_us {
                l
            } else {
                v.wal_append_latency_max_us
            },
            ..v
        },
        TelemetryCall::ActiveLeases(n) => RegistryView { active_leases_count: n, ..v },
        TelemetryCall::Watermark(n) => RegistryView { watermark_offset: n, ..v },
        TelemetryCall::MemoryUsage(n) => RegistryView { memory_usage_bytes: n, ..v },
        TelemetryCall::CoordinatorEpoch(n) => RegistryView { coordinator_epoch: n, ..v },
        TelemetryCall::S3Backlog(n) => RegistryView { s3_backlog_bytes: n, ..v },
        TelemetryCall::DlqEviction => RegistryView { dlq_evictions_total: v.dlq_evictions_total.wrapping_add(1), ..v },
        TelemetryCall::SegmentSealed => RegistryView {
            segments_sealed_total: v.segments_sealed_total.wrapping_add(1),
            ..v
        },
        TelemetryCall::ParquetExport => RegistryView {
            parquet_files_exported_total: v.parquet_files_exported_total.wrapping_add(1),
            ..v
        },
        TelemetryCall::RaftStatus(leader, term, commit) => RegistryView {
            raft_leader_status: if leader {
                1
            } else {
                0
            },
            raft_current_term: term,
            raft_commit_index: commit,
            ..v
        },
        TelemetryCall::S3Upload(b) => RegistryView {
            s3_uploaded_bytes_total: v.s3_uploaded_bytes_total.wrapping_add(b),
            ..v
        },
    }
}

/// The registry's values after a sequence of calls, in order.
pub open spec fn after_calls(v: RegistryView, cs: Seq<TelemetryCall>) -> RegistryView
    decreases cs.len(),
{
    if cs.len() == 0 {
        v
    } else {
        after_call(after_calls(v, cs.drop_last()), cs.last())
    }
}

/// The counters the calls add to.
pub enum Counter {
    /// Messages ingested.
    IngestMessages,
    /// Bytes ingested.
    IngestBytes,
    /// WAL appends.
    WalAppends,
    /// WAL append latencies.
    WalLatency,
    /// Dead-letter evictions.
    DlqEvictions,
    /// Sealed segments.
    SegmentsSealed,
    /// Exported Parquet files.
    ParquetExports,
    /// Bytes uploaded to S3.
    S3Uploaded,
}

/// What one call adds to a counter.
pub open spec fn amount(c: TelemetryCall, k: Counter) -> nat {
    match (c, k) {
        (TelemetryCall::Ingest(m, _), Counter::IngestMessages) => m as nat,
        (TelemetryCall::Ingest(_, b), Counter::IngestBytes) => b as nat,
        (TelemetryCall::WalAppend(_), Counter::WalAppends) => 1,
        (TelemetryCall::WalAppend(l), Counter::WalLatency) => l as nat,
        (TelemetryCall::DlqEviction, Counter::DlqEvictions) => 1,
        (TelemetryCall::SegmentSealed, Counter::SegmentsSealed) => 1,
        (TelemetryCall::ParquetExport, Counter::ParquetExports) => 1,
        (TelemetryCall::S3Upload(b), Counter::S3Uploaded) => b as nat,
        _ => 0,
    }
}

/// The sum of what the calls add to a counter.
pub open spec fn total(cs: Seq<TelemetryCall>, k: Counter) -> nat
    decreases cs.len(),
{
    if cs.len() == 0 {
        0
    } else {
        total(cs.drop_last(), k) + amount(cs.last(), k)
    }
}

/// The gauges the calls set.
pub enum Gauge {
    /// Active leases.
    ActiveLeases,
    /// Base watermark.
    Watermark,
    /// Memory in use.
    MemoryUsage,
    /// Coordinator epoch.
    CoordinatorEpoch,
    /// S3 backlog.
    S3Backlog,
    /// Raft leadership, 1 or 0.
    RaftLeader,
    /// Raft term.
    RaftTerm,
    /// Raft commit index.
    RaftCommit,
}

/// The value one call sets a gauge to, if it sets it.
pub open spec fn set_value(c: TelemetryCall, g: Gauge) -> Option<u64> {
    match (c, g) {
        (TelemetryCall::ActiveLeases(n), Gauge::ActiveLeases) => Some(n),
        (TelemetryCall::Watermark(n), Gauge::Watermark) => Some(n),
        (TelemetryCall::MemoryUsage(n), Gauge::MemoryUsage) => Some(n),
        (TelemetryCall::CoordinatorEpoch(n), Gauge::CoordinatorEpoch) => Some(n),
        (TelemetryCall::S3Backlog(n), Gauge::S3Backlog) => Some(n),
        (TelemetryCall::RaftStatus(l, _, _), Gauge::RaftLeader) => Some(if l { 1u64 } else { 0u64 }),
        (TelemetryCall::RaftStatus(_, t, _), Gauge::RaftTerm) => Some(t),
        (TelemetryCall::RaftStatus(_, _, c), Gauge::RaftCommit) => Some(c),
        _ => None,
    }
}

/// The last value the calls set a gauge to, 0 when none sets it.
pub open spec fn latest(cs: Seq<TelemetryCall>, g: Gauge) -> u64
    decreases cs.len(),
{
    if cs.len() == 0 {
        0
    } else {
        match set_value(cs.last(), g) {
            Some(n) => n,
            None => latest(cs.drop_last(), g),
        }
    }
}

/// The largest WAL append latency among the calls, 0 when there is none.
pub open spec fn max_latency(cs: Seq<TelemetryCall>) -> u64
    decreases cs.len(),
{
    if cs.len() == 0 {
        0
    } else {
        let m = max_latency(cs.drop_last());
        match cs.last() {
            TelemetryCall::WalAppend(l) => if l > m {
                l
            } else {
                m
            },
            _ => m,
        }
    }
}

/// No counter sum of the calls exceeds `u64::MAX`.
pub open spec fn totals_fit(cs: Seq<TelemetryCall>) -> bool {
    &&& total(cs, Counter::IngestMessages) <= u64::MAX
    &&& total(cs, Counter::IngestBytes) <= u64::MAX
    &&& total(cs, Counter::WalAppends) <= u64::MAX
    &&& total(cs, Counter::WalLatency) <= u64::MAX
    &&& total(cs, Counter::DlqEvictions) <= u64::MAX
    &&& total(cs, Counter::SegmentsSealed) <= u64::MAX
    &&& total(cs, Counter::ParquetExports) <= u64::MAX
    &&& total(cs, Counter::S3Uploaded) <= u64::MAX
}

/// The registry's values as the sums, maxima and last settings of the calls.
pub open spec fn tally(cs: Seq<TelemetryCall>) -> RegistryView {
    RegistryView {
        ingest_messages_total: total(cs, Counter::IngestMessages) as u64,
        ingest_bytes_total: total(cs, Counter::IngestBytes) as u64,
        wal_append_count: total(cs, Counter::WalAppends) as u64,
        wal_append_latency_sum_us: total(cs, Counter::WalLatency) as u64,
        wal_append_latency_max_us: max_latency(cs),
        active_leases_count: latest(cs, Gauge::ActiveLeases),
        watermark_offset: latest(cs, Gauge::Watermark),
        dlq_evictions_total: total(cs, Counter::DlqEvictions) as u64,
        segments_sealed_total: total(cs, Counter::SegmentsSealed) as u64,
        parquet_files_exported_total: total(cs, Counter::ParquetExports) as u64,
        memory_usage_bytes: latest(cs, Gauge::MemoryUsage),
        raft_leader_status: latest(cs, Gauge::RaftLeader),
        raft_current_term: latest(cs, Gauge::RaftTerm),
        raft_commit_index: latest(cs, Gauge::RaftCommit),
        coordinator_epoch: latest(cs, Gauge::CoordinatorEpoch),
        s3_uploaded_bytes_total: total(cs, Counter::S3Uploaded) as u64,
        s3_backlog_bytes: latest(cs, Gauge::S3Backlog),
    }
}

proof fn lemma_total_prefix(cs: Seq<TelemetryCall>, k: Counter)
    requires
        cs.len() > 0,
    ensures
        total(cs.drop_last(), k) <= total(cs, k),
{
}

/// From a fresh registry, any sequence of record and set calls whose counter sums fit
/// in 64 bits leaves every counter at the sum of what the calls added, the WAL maximum
/// at the largest latency recorded, and every gauge at the last value set (0 if never
/// set). The snapshot therefore reports those sums, that maximum, those gauges, and the
/// WAL average as the latency sum over the append count (0 before any append).
pub proof fn law_snapshot_tallies_calls(cs: Seq<TelemetryCall>)
    requires
        totals_fit(cs),
    ensures
        after_calls(zero_view(), cs) == tally(cs),
        snapshot_of(after_calls(zero_view(), cs)) == snapshot_of(tally(cs)),
    decreases cs.len(),
{
    if cs.len() > 0 {
        let rest = cs.drop_last();
        lemma_total_prefix(cs, Counter::IngestMessages);
        lemma_total_prefix(cs, Counter::IngestBytes);
        lemma_total_prefix(cs, Counter::WalAppends);
        lemma_total_prefix(cs, Counter::WalLatency);
        lemma_total_prefix(cs, Counter::DlqEvictions);
        lemma_total_prefix(cs, Counter::SegmentsSealed);
        lemma_total_prefix(cs, Counter::ParquetExports);
        lemma_total_prefix(cs, Counter::S3Uploaded);
        law_snapshot_tallies_calls(rest);
    }
}

fn prom_table(s: &MetricSnapshot) -> (t: Vec<(&'static str, &'static str, &'static str, u64)>)
    ensures
        t@.map_values(|e: (&'static str, &'static str, &'static str, u64)| (e.0@, e.1@, e.2@, e.3))
            == prom_metrics(*s),
{
    let mut t: Vec<(&'static str, &'static str, &'static str, u64)> = Vec::new();
    t.push(("keirox_ingest_messages_total", "Total messages ingested", "counter", s.ingest_messages_total));
    t.push(("keirox_ingest_bytes_total", "Total bytes ingested", "counter", s.ingest_bytes_total));
    t.push(("keirox_wal_append_operations_total", "Total WAL batch append operations", "counter", s.wal_append_count));
    t.push(("keirox_wal_append_latency_avg_microseconds", "Average WAL append latency", "gauge", s.wal_append_avg_latency_us));
    t.push(("keirox_wal_append_latency_max_microseconds", "Max WAL append latency", "gauge", s.wal_append_max_latency_us));
    t.push(("keirox_active_leases_count", "Current active consumer leases", "gauge", s.active_leases_count));
    t.push(("keirox_watermark_offset", "Monotonic base watermark offset", "gauge", s.watermark_offset));
    t.push(("keirox_dlq_evictions_total", "Total messages evicted to virtual DLQ", "counter", s.dlq_evictions_total));
    t.push(("keirox_segments_sealed_total", "Total immutable storage segments sealed", "counter", s.segments_sealed_total));
    t.push(("keirox_parquet_files_exported_total", "Total Parquet files exported", "counter", s.parquet_files_exported_total));
    t.push(("keirox_memory_usage_bytes", "Current memory usage in bytes", "gauge", s.memory_usage_bytes));
    t.push(("keirox_raft_leader_status", "1 if node is cluster leader, 0 otherwise", "gauge", s.raft_leader_status));
    t.push(("keirox_raft_current_term", "Current consensus term", "gauge", s.raft_current_term));
    t.push(("keirox_raft_commit_index", "Current committed Raft log index", "gauge", s.raft_commit_index));
    t.push(("keirox_coordinator_epoch", "Current active coordinator epoch", "gauge", s.coordinator_epoch));
    t.push(("keirox_s3_uploaded_bytes_total", "Total bytes streamed to S3", "counter", s.s3_uploaded_bytes_total));
    t.push(("keirox_s3_backlog_bytes", "Current NVMe backlog bytes pending S3 upload", "gauge", s.s3_backlog_bytes));
    assert(t@.map_values(|e: (&'static str, &'static str, &'static str, u64)| (e.0@, e.1@, e.2@, e.3))
        =~= prom_metrics(*s));
    t
}

fn json_table(s: &MetricSnapshot) -> (t: Vec<(&'static str, u64)>)
    ensures
        t@.map_values(|e: (&'static str, u64)| (e.0@, e.1)) == json_fields(*s),
{
    let mut t: Vec<(&'static str, u64)> = Vec::new();
    t.push(("ingest_messages_total", s.ingest_messages_total));
    t.push(("ingest_bytes_total", s.ingest_bytes_total));
    t.push(("wal_append_count", s.wal_append_count));
    t.push(("wal_append_avg_latency_us", s.wal_append_avg_latency_us));
    t.push(("wal_append_max_latency_us", s.wal_append_max_latency_us));
    t.push(("active_leases_count", s.active_leases_count));
    t.push(("watermark_offset", s.watermark_offset));
    t.push(("dlq_evictions_total", s.dlq_evictions_total));
    t.push(("segments_sealed_total", s.segments_sealed_total));
    t.push(("parquet_files_exported_total", s.parquet_files_exported_total));
    t.push(("memory_usage_bytes", s.memory_usage_bytes));
    t.push(("raft_leader_status", s.raft_leader_status));
    t.push(("raft_current_term", s.raft_current_term));
    t.push(("raft_commit_index", s.raft_commit_index));
    t.push(("coordinator_epoch", s.coordinator_epoch));
    t.push(("s3_uploaded_bytes_total", s.s3_uploaded_bytes_total));
    t.push(("s3_backlog_bytes", s.s3_backlog_bytes));
    assert(t@.map_values(|e: (&'static str, u64)| (e.0@, e.1)) =~= json_fields(*s));
    t
}

impl TelemetryRegistry {
    /// A registry with every value at zero.
    pub fn new() -> (r: Self)
        ensures
            r@ == zero_view(),
            snapshot_of(r@) == zero_snapshot(),
    {
        TelemetryRegistry {
            ingest_messages_total: 0,
            ingest_bytes_total: 0,
            wal_append_count: 0,
            wal_append_latency_sum_us: 0,
            wal_append_latency_max_us: 0,
            active_leases_count: 0,
            watermark_offset: 0,
            dlq_evictions_total: 0,
            segments_sealed_total: 0,
            parquet_files_exported_total: 0,
            memory_usage_bytes: 0,
            raft_leader_status: 0,
            raft_current_term: 0,
            raft_commit_index: 0,
            coordinator_epoch: 0,
            s3_uploaded_bytes_total: 0,
            s3_backlog_bytes: 0,
        }
    }

    /// Count ingested messages and bytes.
    pub fn record_ingest(&mut self, messages: u64, bytes: u64)
        ensures
            final(self)@ == after_call(old(self)@, TelemetryCall::Ingest(messages, bytes)),
    {
        self.ingest_messages_total = self.ingest_messages_total.wrapping_add(messages);
        self.ingest_bytes_total = self.ingest_bytes_total.wrapping_add(bytes);
    }

    /// Count a WAL append and its latency, keeping the largest latency seen.
    pub fn record_wal_append(&mut self, latency_us: u64)
        ensures
            final(self)@ == after_call(old(self)@, TelemetryCall::WalAppend(latency_us)),
    {
        self.wal_append_count = self.wal_append_count.wrapping_add(1);
        self.wal_append_latency_sum_us = self.wal_append_latency_sum_us.wrapping_add(latency_us);
        if latency_us > self.wal_append_latency_max_us {
            self.wal_append_latency_max_us = latency_us;
        }
    }

    /// Set the number of active leases.
    pub fn set_active_leases(&mut self, count: u64)
        ensures
            final(self)@ == after_call(old(self)@, TelemetryCall::ActiveLeases(count)),
    {
        self.active_leases_count = count;
    }

    /// Set the base watermark.
    pub fn set_watermark(&mut self, offset: u64)
        ensures
            final(self)@ == after_call(old(self)@, TelemetryCall::Watermark(offset)),
    {
        self.watermark_offset = offset;
    }

    /// Set the memory in use.
    pub fn set_memory_usage(&mut self, bytes: u64)
        ensures
            final(self)@ == after_call(old(self)@, TelemetryCall::MemoryUsage(bytes)),
    {
        self.memory_usage_bytes = bytes;
    }

    /// Set the coordinator epoch.
    pub fn set_coordinator_epoch(&mut self, epoch: u64)
        ensures
            final(self)@ == after_call(old(self)@, TelemetryCall::CoordinatorEpoch(epoch)),
    {
        self.coordinator_epoch = epoch;
    }

    /// Set the bytes waiting for upload.
    pub fn set_s3_backlog(&mut self, bytes: u64)
        ensures
            final(self)@ == after_call(old(self)@, TelemetryCall::S3Backlog(bytes)),
    {
        self.s3_backlog_bytes = bytes;
    }

    /// Count a dead-letter eviction.
    pub fn record_dlq_eviction(&mut self)
        ensures
            final(self)@ == after_call(old(self)@, TelemetryCall::DlqEviction),
    {
        self.dlq_evictions_total = self.dlq_evictions_total.wrapping_add(1);
    }

    /// Count a sealed segment.
    pub fn record_segment_sealed(&mut self)
        ensures
            final(self)@ == after_call(old(self)@, TelemetryCall::SegmentSealed),
    {
        self.segments_sealed_total = self.segments_sealed_total.wrapping_add(1);
    }

    /// Count an exported Parquet file.
    pub fn record_parquet_export(&mut self)
        ensures
            final(self)@ == after_call(old(self)@, TelemetryCall::ParquetExport),
    {
        self.parquet_files_exported_total = self.parquet_files_exported_total.wrapping_add(1);
    }

    /// Set leadership (1 or 0), term and commit index.
    pub fn set_raft_status(&mut self, is_leader: bool, term: u64, commit_index: u64)
        ensures
            final(self)@ == after_call(old(self)@, TelemetryCall::RaftStatus(is_leader, term, commit_index)),
    {
        self.raft_leader_status = if is_leader {
            1
        } else {
            0
        };
        self.raft_current_term = term;
        self.raft_commit_index = commit_index;
    }

    /// Count bytes uploaded to S3.
    pub fn record_s3_upload(&mut self, bytes: u64)
        ensures
            final(self)@ == after_call(old(self)@, TelemetryCall::S3Upload(bytes)),
    {
        self.s3_uploaded_bytes_total = self.s3_uploaded_bytes_total.wrapping_add(bytes);
    }

    /// The current values.
    pub fn snapshot(&self) -> (s: MetricSnapshot)
        ensures
            s == snapshot_of(self@),
    {
        let count = self.wal_append_count;
        let avg = if count > 0 {
            self.wal_append_latency_sum_us / count
        } else {
            0
        };
        MetricSnapshot {
            ingest_messages_total: self.ingest_messages_total,
            ingest_bytes_total: self.ingest_bytes_total,
            wal_append_count: count,
            wal_append_avg_latency_us: avg,
            wal_append_max_latency_us: self.wal_append_latency_max_us,
            active_leases_count: self.active_leases_count,
            watermark_offset: self.watermark_offset,
            dlq_evictions_total: self.dlq_evictions_total,
            segments_sealed_total: self.segments_sealed_total,
            parquet_files_exported_total: self.parquet_files_exported_total,
            memory_usage_bytes: self.memory_usage_bytes,
            raft_leader_status: self.raft_leader_status,
            raft_current_term: self.raft_current_term,
            raft_commit_index: self.raft_commit_index,
            coordinator_epoch: self.coordinator_epoch,
            s3_uploaded_bytes_total: self.s3_uploaded_bytes_total,
            s3_backlog_bytes: self.s3_backlog_bytes,
        }
    }

    /// Prometheus text exposition of the snapshot.
    pub fn render_prometheus(&self) -> (out: String)
        ensures
            out@ == prom_text(prom_metrics(snapshot_of(self@))),
    {
        let snap = self.snapshot();
        let table = prom_table(&snap);
        let ghost ms = prom_metrics(snap);
        let mut out = String::new();
        let mut i: usize = 0;
        assert(ms.take(0) =~= Seq::<PromMetric>::empty());
        while i < table.len()
            invariant
                ms == table@.map_values(
                    |e: (&'static str, &'static str, &'static str, u64)| (e.0@, e.1@, e.2@, e.3),
                ),
                i <= table@.len(),
                out@ == prom_text(ms.take(i as int)),
            decreases table.len() - i,
        {
            let e = table[i];
            if i > 0 {
                push_str(&mut out, "\n");
            }
            push_str(&mut out, "# HELP ");
            push_str(&mut out, e.0);
            push_str(&mut out, " ");
            push_str(&mut out, e.1);
            push_str(&mut out, "\n");
            push_str(&mut out, "# TYPE ");
            push_str(&mut out, e.0);
            push_str(&mut out, " ");
            push_str(&mut out, e.2);
            push_str(&mut out, "\n");
            push_str(&mut out, e.0);
            push_str(&mut out, " ");
            push_decimal(&mut out, e.3);
            push_str(&mut out, "\n");
            proof {
                let w = ms.take(i as int + 1);
                assert(w.drop_last() =~= ms.take(i as int));
                assert(w.last() == ms[i as int]);
                if i == 0 {
                    assert(w.len() == 1);
                }
            }
            i = i + 1;
        }
        assert(ms.take(ms.len() as int) =~= ms);
        out
    }

    /// JSON object of the snapshot.
    pub fn render_json(&self) -> (out: String)
        ensures
            out@ == "{"@ + json_pairs(json_fields(snapshot_of(self@))) + "}"@,
    {
        let snap = self.snapshot();
        let table = json_table(&snap);
        let ghost fs = json_fields(snap);
        let mut out = String::new();
        push_str(&mut out, "{");
        let ghost start = out@;
        let mut i: usize = 0;
        assert(fs.take(0) =~= Seq::<JsonField>::empty());
        while i < table.len()
            invariant
                fs == table@.map_values(|e: (&'static str, u64)| (e.0@, e.1)),
                i <= table@.len(),
                out@ == start + json_pairs(fs.take(i as int)),
            decreases table.len() - i,
        {
            let e = table[i];
            if i > 0 {
                push_str(&mut out, ",");
            }
            push_str(&mut out, "\"");
            push_str(&mut out, e.0);
            push_str(&mut out, "\":");
            push_decimal(&mut out, e.1);
            proof {
                let w = fs.take(i as int + 1);
                assert(w.drop_last() =~= fs.take(i as int));
                assert(w.last() == fs[i as int]);
                if i == 0 {
                    assert(w.len() == 1);
                }
            }
            i = i + 1;
        }
        assert(fs.take(fs.len() as int) =~= fs);
        push_str(&mut out, "}");
        out
    }
}

impl Default for TelemetryRegistry {
    fn default() -> (r: Self)
        ensures
            r@ == zero_view(),
            snapshot_of(r@) == zero_snapshot(),
    {
        TelemetryRegistry::new()
    }
}

/// A registry shared between tasks.
pub type SharedTelemetry = std::sync::Arc<TelemetryRegistry>;

} // verus!
