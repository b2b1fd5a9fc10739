//! Administrative inspection reports and their JSON rendering.
use crate::model::{id_text, Offset, StreamId, TenantId};
use crate::text::{decimal, push_decimal, push_str};
use vstd::prelude::*;

verus! {

/// Stream inspection report.
#[derive(Debug, Clone, Copy)]
pub struct StreamInspectionReport {
    /// Tenant.
    pub tenant_id: TenantId,
    /// Stream.
    pub stream_id: StreamId,
    /// Current sequence.
    pub current_sequence: u64,
    /// Base offset.
    pub base_offset: Offset,
    /// Segment sequence.
    pub segment_sequence: u32,
    /// Entries in the sparse index.
    pub sparse_index_count: usize,
}

/// JSON of a stream inspection report.
pub open spec fn stream_report_json(r: StreamInspectionReport) -> Seq<char> {
    "{\"tenant_id\":\""@ + id_text("tenant-"@, r.tenant_id.0@) + "\",\"stream_id\":\""@ + id_text(
        "stream-"@,
        r.stream_id.0@,
    ) + "\",\"current_sequence\":"@ + decimal(r.current_sequence as nat) + ",\"base_offset\":"@
        + decimal(r.base_offset as nat) + ",\"segment_sequence\":"@ + decimal(r.segment_sequence as nat)
        + ",\"sparse_index_count\":"@ + decimal(r.sparse_index_count as nat) + "}"@
}

impl StreamInspectionReport {
    /// Renders the report as a JSON object.
    pub fn render_json(&self) -> (s: String)
        ensures
            s@ == stream_report_json(*self),
    {
        let mut s = String::new();
        push_str(&mut s, "{\"tenant_id\":\"");
        let t = self.tenant_id.to_string();
        push_str(&mut s, t.as_str());
        push_str(&mut s, "\",\"stream_id\":\"");
        let st = self.stream_id.to_string();
        push_str(&mut s, st.as_str());
        push_str(&mut s, "\",\"current_sequence\":");
        push_decimal(&mut s, self.current_sequence);
        push_str(&mut s, ",\"base_offset\":");
        push_decimal(&mut s, self.base_offset);
        push_str(&mut s, ",\"segment_sequence\":");
        push_decimal(&mut s, self.segment_sequence as u64);
        push_str(&mut s, ",\"sparse_index_count\":");
        push_decimal(&mut s, self.sparse_index_count as u64);
        push_str(&mut s, "}");
        s
    }
}

/// Consumer group inspection report.
#[derive(Debug, Clone)]
pub struct ConsumerGroupInspectionReport {
    /// Tenant.
    pub tenant_id: TenantId,
    /// Consumer group.
    pub group_id: String,
    /// Stream.
    pub stream_id: StreamId,
    /// Base watermark.
    pub watermark_base: Offset,
    /// Offsets leased.
    pub leased_count: usize,
    /// Offsets acknowledged.
    pub acked_count: usize,
    /// Offsets evicted to the dead-letter queue.
    pub dlq_evicted_count: usize,
    /// Sample of evicted offsets.
    pub dlq_sample_offsets: Vec<Offset>,
}

/// Decimals joined by commas.
pub open spec fn joined_offsets(v: Seq<u64>) -> Seq<char>
    decreases v.len(),
{
    if v.len() == 0 {
        Seq::empty()
    } else if v.len() == 1 {
        decimal(v[0] as nat)
    } else {
        joined_offsets(v.drop_last()) + ","@ + decimal(v.last() as nat)
    }
}

/// JSON of a consumer group inspection report.
pub open spec fn group_report_json(r: ConsumerGroupInspectionReport) -> Seq<char> {
    "{\"tenant_id\":\""@ + id_text("tenant-"@, r.tenant_id.0@) + "\",\"group_id\":\""@ + r.group_id@
        + "\",\"stream_id\":\""@ + id_text("stream-"@, r.stream_id.0@) + "\",\"watermark_base\":"@
        + decimal(r.watermark_base as nat) + ",\"leased_count\":"@ + decimal(r.leased_count as nat)
        + ",\"acked_count\":"@ + decimal(r.acked_count as nat) + ",\"dlq_evicted_count\":"@ + decimal(
        r.dlq_evicted_count as nat,
    ) + ",\"dlq_sample_offsets\":["@ + joined_offsets(r.dlq_sample_offsets@) + "]}"@
}

fn push_joined(s: &mut String, v: &Vec<u64>)
    ensures
        final(s)@ == old(s)@ + joined_offsets(v@),
{
    let ghost start = s@;
    let mut i: usize = 0;
    assert(v@.take(0) =~= Seq::<u64>::empty());
    while i < v.len()
        invariant
            i <= v@.len(),
            s@ == start + joined_offsets(v@.take(i as int)),
        decreases v.len() - i,
    {
        if i > 0 {
            push_str(s, ",");
        }
        push_decimal(s, v[i]);
        proof {
            let t = v@.take(i as int + 1);
            assert(t.drop_last() =~= v@.take(i as int));
            assert(t.last() == v@[i as int]);
            if i == 0 {
                assert(t.len() == 1);
            }
        }
        i = i + 1;
    }
    assert(v@.take(v@.len() as int) =~= v@);
}

impl ConsumerGroupInspectionReport {
    /// Renders the report as a JSON object.
    pub fn render_json(&self) -> (s: String)
        ensures
            s@ == group_report_json(*self),
    {
        let mut s = String::new();
        push_str(&mut s, "{\"tenant_id\":\"");
        let t = self.tenant_id.to_string();
        push_str(&mut s, t.as_str());
        push_str(&mut s, "\",\"group_id\":\"");
        push_str(&mut s, self.group_id.as_str());
        push_str(&mut s, "\",\"stream_id\":\"");
        let st = self.stream_id.to_string();
        push_str(&mut s, st.as_str());
        push_str(&mut s, "\",\"watermark_base\":");
        push_decimal(&mut s, self.watermark_base);
        push_str(&mut s, ",\"leased_count\":");
        push_decimal(&mut s, self.leased_count as u64);
        push_str(&mut s, ",\"acked_count\":");
        push_decimal(&mut s, self.acked_count as u64);
        push_str(&mut s, ",\"dlq_evicted_count\":");
        push_decimal(&mut s, self.dlq_evicted_count as u64);
        push_str(&mut s, ",\"dlq_sample_offsets\":[");
        push_joined(&mut s, &self.dlq_sample_offsets);
        push_str(&mut s, "]}");
        s
    }
}

/// Storage statistics report.
#[derive(Debug, Clone, Copy, PartialEq, Eq, Structural)]
pub struct StorageStatsReport {
    /// Active segment.
    pub active_segment_id: u32,
    /// Sealed segments.
    pub sealed_segments_count: usize,
    /// Bytes appended.
    pub total_bytes_appended: u64,
    /// Entries in the sparse index.
    pub sparse_index_count: usize,
}

/// JSON of a storage statistics report.
pub open spec fn storage_report_json(r: StorageStatsReport) -> Seq<char> {
    "{\"active_segment_id\":"@ + decimal(r.active_segment_id as nat) + ",\"sealed_segments_count\":"@
        + decimal(r.sealed_segments_count as nat) + ",\"total_bytes_appended\":"@ + decimal(
        r.total_bytes_appended as nat,
    ) + ",\"sparse_index_count\":"@ + decimal(r.sparse_index_count as nat) + "}"@
}

impl StorageStatsReport {
    /// Renders the report as a JSON object.
    pub fn render_json(&self) -> (s: String)
        ensures
            s@ == storage_report_json(*self),
    {
        let mut s = String::new();
        push_str(&mut s, "{\"active_segment_id\":");
        push_decimal(&mut s, self.active_segment_id as u64);
        push_str(&mut s, ",\"sealed_segments_count\":");
        push_decimal(&mut s, self.sealed_segments_count as u64);
        push_str(&mut s, ",\"total_bytes_appended\":");
        push_decimal(&mut s, self.total_bytes_appended);
        push_str(&mut s, ",\"sparse_index_count\":");
        push_decimal(&mut s, self.sparse_index_count as u64);
        push_str(&mut s, "}");
        s
    }
}

} // verus!
