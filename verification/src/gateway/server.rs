//! Kafka gateway decisions: which APIs are served, and how each produced batch is
//! answered: from the idempotence check, or from the outcome of the cluster append.
use crate::error::KeiroxError;
use crate::gateway::idempotence::{preflight, PreflightResult, ProducerIdempotenceTracker, TrackerKey, ProducerSequenceState};
use crate::gateway::protocol::{
    KafkaApiKey, KafkaErrorCode, KafkaPartitionResponse, KafkaProduceRecordBatch,
    KafkaProduceResponse, KafkaRequestHeader,
};
use crate::gateway::topic_mapper::{topic_stream_bytes, TopicMapper};
use crate::model::{StreamId, TenantId};
use crate::text::{push_str, str_equal};
use vstd::prelude::*;

verus! {

/// Append time reported on every partition response, in milliseconds.
pub const LOG_APPEND_TIME_MS: i64 = 1_700_000_000_000;

/// What to do with a produced batch.
#[derive(Debug, Clone, Copy)]
pub enum ProduceStep {
    /// Answer at once, without touching the cluster.
    Respond(KafkaPartitionResponse),
    /// Append the records to this stream of this tenant, then complete the batch.
    Ingest {
        /// Tenant.
        tenant_id: TenantId,
        /// Stream of the topic partition.
        stream_id: StreamId,
    },
}

/// A partition response with no error.
pub open spec fn ok_response(partition: i32, offset: i64) -> KafkaPartitionResponse {
    KafkaPartitionResponse {
        partition,
        error_code: KafkaErrorCode::NoError,
        base_offset: offset,
        log_append_time_ms: LOG_APPEND_TIME_MS,
    }
}

/// A partition response carrying an error.
pub open spec fn error_response(partition: i32, code: KafkaErrorCode) -> KafkaPartitionResponse {
    KafkaPartitionResponse {
        partition,
        error_code: code,
        base_offset: -1i64,
        log_append_time_ms: LOG_APPEND_TIME_MS,
    }
}

/// The preflight decision on a batch.
pub open spec fn batch_preflight(m: Map<TrackerKey, ProducerSequenceState>, b: KafkaProduceRecordBatch) -> PreflightResult {
    preflight(m, b.producer_id, b.producer_epoch, b.base_sequence, b.topic@, b.partition)
}

/// Responses grouped by topic text, in order of first appearance.
pub open spec fn grouped_view(r: KafkaProduceResponse) -> Seq<(Seq<char>, Seq<KafkaPartitionResponse>)> {
    r.responses@.map_values(|e: (String, Vec<KafkaPartitionResponse>)| (e.0@, e.1@))
}

/// No topic is listed twice.
pub open spec fn topics_unique(g: Seq<(Seq<char>, Seq<KafkaPartitionResponse>)>) -> bool {
    forall|i: int, j: int| 0 <= i < j < g.len() ==> g[i].0 != g[j].0
}

/// `g` with `resp` added under `topic`: appended to its group, or as a new group.
pub open spec fn add_to_group(
    g: Seq<(Seq<char>, Seq<KafkaPartitionResponse>)>,
    topic: Seq<char>,
    resp: KafkaPartitionResponse,
) -> Seq<(Seq<char>, Seq<KafkaPartitionResponse>)> {
    if exists|i: int| 0 <= i < g.len() && g[i].0 == topic {
        let i = choose|i: int| 0 <= i < g.len() && g[i].0 == topic;
        g.update(i, (topic, g[i].1.push(resp)))
    } else {
        g.push((topic, seq![resp]))
    }
}

impl KafkaProduceResponse {
    /// An empty response.
    pub fn new() -> (r: Self)
        ensures
            grouped_view(r) == Seq::<(Seq<char>, Seq<KafkaPartitionResponse>)>::empty(),
            r.throttle_time_ms == 0,
    {
        let r = KafkaProduceResponse { responses: Vec::new(), throttle_time_ms: 0 };
        assert(grouped_view(r) =~= Seq::<(Seq<char>, Seq<KafkaPartitionResponse>)>::empty());
        r
    }

    /// Adds a partition response under its topic.
    pub fn add(&mut self, topic: &str, resp: KafkaPartitionResponse)
        requires
            topics_unique(grouped_view(*old(self))),
        ensures
            topics_unique(grouped_view(*final(self))),
            grouped_view(*final(self)) == add_to_group(grouped_view(*old(self)), topic@, resp),
            final(self).throttle_time_ms == old(self).throttle_time_ms,
    {
        let ghost g = grouped_view(*self);
        let ghost tt = self.throttle_time_ms;
        let mut i: usize = 0;
        while i < self.responses.len()
            invariant
                tt == self.throttle_time_ms,
                tt == old(self).throttle_time_ms,
                g == grouped_view(*old(self)),
                g == grouped_view(*self),
                topics_unique(g),
                i <= self.responses@.len(),
                forall|j: int| 0 <= j < i ==> g[j].0 != topic@,
            decreases self.responses.len() - i,
        {
            if str_equal(self.responses[i].0.as_str(), topic) {
                let mut entry = self.responses.remove(i);
                entry.1.push(resp);
                self.responses.insert(i, entry);
                proof {
                    assert(g[i as int].0 == topic@);
                    let k = choose|k: int| 0 <= k < g.len() && g[k].0 == topic@;
                    assert(k == i);
                    assert(grouped_view(*self) =~= g.update(i as int, (topic@, g[i as int].1.push(resp))));
                    assert(add_to_group(g, topic@, resp) == g.update(i as int, (topic@, g[i as int].1.push(resp))));
                }
                return;
            }
            i = i + 1;
        }
        let mut t = String::new();
        push_str(&mut t, topic);
        let mut v: Vec<KafkaPartitionResponse> = Vec::new();
        v.push(resp);
        self.responses.push((t, v));
        proof {
            assert(grouped_view(*self) =~= g.push((topic@, seq![resp])));
        }
    }
}

/// Kafka gateway state: topic naming and the idempotence tracker.
#[derive(Debug)]
pub struct KafkaGatewayServer {
    topic_mapper: TopicMapper,
    idempotence_tracker: ProducerIdempotenceTracker,
}

impl KafkaGatewayServer {
    /// Tracker well formed.
    pub closed spec fn wf(&self) -> bool {
        self.idempotence_tracker.wf()
    }

    /// Tracked producer states.
    pub closed spec fn producers(&self) -> Map<TrackerKey, ProducerSequenceState> {
        self.idempotence_tracker@
    }

    /// The tenant served.
    pub closed spec fn tenant(&self) -> TenantId {
        self.topic_mapper.tenant()
    }

    /// A gateway for a default tenant, tracking no producers.
    pub fn new(default_tenant: TenantId) -> (r: Self)
        ensures
            r.wf(),
            r.tenant() == default_tenant,
            r.producers() == Map::<TrackerKey, ProducerSequenceState>::empty(),
    {
        KafkaGatewayServer {
            topic_mapper: TopicMapper::new(default_tenant),
            idempotence_tracker: ProducerIdempotenceTracker::new(),
        }
    }

    /// Decide how to handle a produced batch: a duplicate is answered with the offset
    /// recorded before, a refused batch with its error, anything else is ingested into
    /// the topic partition's stream.
    pub fn prepare_batch(&self, batch: &KafkaProduceRecordBatch) -> (s: ProduceStep)
        requires
            self.wf(),
        ensures
            match batch_preflight(self.producers(), *batch) {
                PreflightResult::Duplicate(o) => s == ProduceStep::Respond(ok_response(batch.partition, o)),
                PreflightResult::Error(c) => s == ProduceStep::Respond(error_response(batch.partition, c)),
                PreflightResult::Proceed => s matches ProduceStep::Ingest { tenant_id, stream_id }
                    && tenant_id == self.tenant() && stream_id.0@ == topic_stream_bytes(
                    batch.topic@,
                    batch.partition,
                ),
            },
    {
        let pre = self.idempotence_tracker.check_preflight(
            batch.producer_id,
            batch.producer_epoch,
            batch.base_sequence,
            batch.topic.as_str(),
            batch.partition,
        );
        match pre {
            PreflightResult::Duplicate(cached_offset) => ProduceStep::Respond(
                KafkaPartitionResponse {
                    partition: batch.partition,
                    error_code: KafkaErrorCode::NoError,
                    base_offset: cached_offset,
                    log_append_time_ms: LOG_APPEND_TIME_MS,
                },
            ),
            PreflightResult::Error(err_code) => ProduceStep::Respond(
                KafkaPartitionResponse {
                    partition: batch.partition,
                    error_code: err_code,
                    base_offset: -1,
                    log_append_time_ms: LOG_APPEND_TIME_MS,
                },
            ),
            PreflightResult::Proceed => {
                let stream_id = self.topic_mapper.map_to_stream(batch.topic.as_str(), batch.partition);
                ProduceStep::Ingest { tenant_id: self.topic_mapper.tenant_id(), stream_id }
            },
        }
    }

    /// Complete an ingested batch from the cluster's answer: an appended batch is
    /// recorded by the idempotence tracker and answered with the offset it returns; an
    /// unavailable quorum is answered as leader-not-available, any other failure as an
    /// unknown server error.
    pub fn complete_batch(&mut self, batch: &KafkaProduceRecordBatch, produced: Result<u64, KeiroxError>) -> (r: KafkaPartitionResponse)
        requires
            old(self).wf(),
            batch.producer_id != -1 && batch_preflight(old(self).producers(), *batch) is Proceed
                ==> i32::MIN < batch.base_sequence + (batch.records@.len() as i32) <= i32::MAX,
        ensures
            final(self).wf(),
            final(self).tenant() == old(self).tenant(),
            produced matches Ok(off) ==> {
                let count = batch.records@.len() as i32;
                let pre = batch_preflight(old(self).producers(), *batch);
                &&& (batch.producer_id == -1 || pre is Proceed) ==> r == ok_response(batch.partition, off as i64)
                &&& batch.producer_id == -1 ==> final(self).producers() == old(self).producers()
                &&& (batch.producer_id != -1 && pre is Proceed) ==> final(self).producers()
                    == old(self).producers().insert(
                    (batch.producer_id, batch.topic@, batch.partition),
                    ProducerSequenceState {
                        epoch: batch.producer_epoch,
                        last_sequence: (batch.base_sequence + count - 1) as i32,
                        last_offset: off as i64,
                    },
                )
                &&& batch.producer_id != -1 ==> (pre matches PreflightResult::Duplicate(o) ==> r
                    == ok_response(batch.partition, o) && final(self).producers() == old(self).producers())
                &&& batch.producer_id != -1 ==> (pre matches PreflightResult::Error(c) ==> r
                    == error_response(batch.partition, c) && final(self).producers() == old(self).producers())
            },
            produced matches Err(e) ==> final(self).producers() == old(self).producers() && r
                == error_response(
                batch.partition,
                if e is QuorumUnavailable {
                    KafkaErrorCode::LeaderNotAvailable
                } else {
                    KafkaErrorCode::UnknownServerError
                },
            ),
    {
        match produced {
            Ok(assigned_offset) => {
                match self.idempotence_tracker.verify_and_update(
                    batch.producer_id,
                    batch.producer_epoch,
                    batch.base_sequence,
                    batch.records.len() as i32,
                    batch.topic.as_str(),
                    batch.partition,
                    assigned_offset as i64,
                ) {
                    Ok(final_offset) => KafkaPartitionResponse {
                        partition: batch.partition,
                        error_code: KafkaErrorCode::NoError,
                        base_offset: final_offset,
                        log_append_time_ms: LOG_APPEND_TIME_MS,
                    },
                    Err(err_code) => KafkaPartitionResponse {
                        partition: batch.partition,
                        error_code: err_code,
                        base_offset: -1,
                        log_append_time_ms: LOG_APPEND_TIME_MS,
                    },
                }
            },
            Err(KeiroxError::QuorumUnavailable(_)) => KafkaPartitionResponse {
                partition: batch.partition,
                error_code: KafkaErrorCode::LeaderNotAvailable,
                base_offset: -1,
                log_append_time_ms: LOG_APPEND_TIME_MS,
            },
            Err(_) => KafkaPartitionResponse {
                partition: batch.partition,
                error_code: KafkaErrorCode::UnknownServerError,
                base_offset: -1,
                log_append_time_ms: LOG_APPEND_TIME_MS,
            },
        }
    }

    /// Supported API keys with their minimum and maximum versions.
    pub fn handle_api_versions(&self) -> (v: Vec<(KafkaApiKey, i16, i16)>)
        ensures
            v@ == seq![
                (KafkaApiKey::Produce, 0i16, 8i16),
                (KafkaApiKey::Fetch, 0i16, 11i16),
                (KafkaApiKey::ListOffsets, 0i16, 5i16),
                (KafkaApiKey::Metadata, 0i16, 9i16),
                (KafkaApiKey::OffsetCommit, 0i16, 7i16),
                (KafkaApiKey::OffsetFetch, 0i16, 6i16),
                (KafkaApiKey::FindCoordinator, 0i16, 3i16),
                (KafkaApiKey::ApiVersions, 0i16, 3i16),
                (KafkaApiKey::InitProducerId, 0i16, 2i16),
            ],
    {
        let mut v: Vec<(KafkaApiKey, i16, i16)> = Vec::new();
        v.push((KafkaApiKey::Produce, 0, 8));
        v.push((KafkaApiKey::Fetch, 0, 11));
        v.push((KafkaApiKey::ListOffsets, 0, 5));
        v.push((KafkaApiKey::Metadata, 0, 9));
        v.push((KafkaApiKey::OffsetCommit, 0, 7));
        v.push((KafkaApiKey::OffsetFetch, 0, 6));
        v.push((KafkaApiKey::FindCoordinator, 0, 3));
        v.push((KafkaApiKey::ApiVersions, 0, 3));
        v.push((KafkaApiKey::InitProducerId, 0, 2));
        assert(v@ =~= seq![
            (KafkaApiKey::Produce, 0i16, 8i16),
            (KafkaApiKey::Fetch, 0i16, 11i16),
            (KafkaApiKey::ListOffsets, 0i16, 5i16),
            (KafkaApiKey::Metadata, 0i16, 9i16),
            (KafkaApiKey::OffsetCommit, 0i16, 7i16),
            (KafkaApiKey::OffsetFetch, 0i16, 6i16),
            (KafkaApiKey::FindCoordinator, 0i16, 3i16),
            (KafkaApiKey::ApiVersions, 0i16, 3i16),
            (KafkaApiKey::InitProducerId, 0i16, 2i16),
        ]);
        v
    }

    /// Route a request: every supported API is accepted, an unsupported key is answered
    /// with the unsupported-version code.
    pub fn dispatch_request(&self, header: &KafkaRequestHeader) -> (r: Result<KafkaErrorCode, KeiroxError>)
        ensures
            r == Ok::<KafkaErrorCode, KeiroxError>(
                if header.api_key is Unsupported {
                    KafkaErrorCode::UnsupportedVersion
                } else {
                    KafkaErrorCode::NoError
                },
            ),
    {
        match header.api_key {
            KafkaApiKey::Unsupported(_) => Ok(KafkaErrorCode::UnsupportedVersion),
            _ => Ok(KafkaErrorCode::NoError),
        }
    }
}

} // verus!
