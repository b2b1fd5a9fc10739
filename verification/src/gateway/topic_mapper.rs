//! Deterministic naming of streams: Kafka topic partitions, queues and routing keys map
//! to stream identifiers through xxHash64.
use crate::digest::{xxh64_digest, xxhash64};
use crate::model::{StreamId, TenantId};
use crate::text::append_bytes;
use vstd::bytes::{spec_u32_to_le_bytes, spec_u64_to_le_bytes, u32_to_le_bytes, u64_to_le_bytes};
use vstd::prelude::*;
use vstd::utf8::encode_utf8;

verus! {

/// A tenant-scoped stream id: the tenant's first 8 bytes, then a 64-bit hash, little endian.
pub open spec fn tenant_stream_bytes(t: TenantId, h: u64) -> Seq<u8> {
    t.0@.take(8) + spec_u64_to_le_bytes(h)
}

/// Builds a tenant-scoped stream id.
pub fn tenant_stream(t: TenantId, h: u64) -> (s: StreamId)
    ensures
        s.0@ == tenant_stream_bytes(t, h),
{
    let b = u64_to_le_bytes(h);
    let raw: [u8; 16] = [
        t.0[0], t.0[1], t.0[2], t.0[3], t.0[4], t.0[5], t.0[6], t.0[7],
        b[0], b[1], b[2], b[3], b[4], b[5], b[6], b[7],
    ];
    proof {
        vstd::bytes::lemma_auto_spec_u64_to_from_le_bytes();
    }
    assert(raw@ =~= tenant_stream_bytes(t, h));
    StreamId(raw)
}

/// The bytes hashed for a topic partition: the topic's UTF-8 bytes, then the partition
/// index's four bytes in little-endian order.
pub open spec fn topic_partition_bytes(topic: Seq<char>, partition: i32) -> Seq<u8> {
    encode_utf8(topic) + spec_u32_to_le_bytes(partition as u32)
}

/// The stream of a topic partition: two xxHash64 digests of its bytes (seeds
/// `0xCAFE_BABE` and `0xDEAD_BEEF`), each little endian.
pub open spec fn topic_stream_bytes(topic: Seq<char>, partition: i32) -> Seq<u8> {
    spec_u64_to_le_bytes(xxh64_digest(0xCAFE_BABE, topic_partition_bytes(topic, partition)))
        + spec_u64_to_le_bytes(xxh64_digest(0xDEAD_BEEF, topic_partition_bytes(topic, partition)))
}

/// The bytes of a topic partition.
pub fn topic_partition_data(topic: &str, partition: i32) -> (d: Vec<u8>)
    ensures
        d@ == topic_partition_bytes(topic@, partition),
{
    let mut d: Vec<u8> = Vec::new();
    append_bytes(&mut d, topic.as_bytes());
    let p = u32_to_le_bytes(partition as u32);
    append_bytes(&mut d, p.as_slice());
    d
}

/// Topic mapper translating between Kafka topic names and Keirox Stream identifiers.
#[derive(Debug, Clone, Copy)]
pub struct TopicMapper {
    default_tenant: TenantId,
}

impl TopicMapper {
    /// The tenant this mapper serves.
    pub closed spec fn tenant(&self) -> TenantId {
        self.default_tenant
    }

    /// Initialize topic mapper with default tenant context.
    pub fn new(default_tenant: TenantId) -> (r: Self)
        ensures
            r.tenant() == default_tenant,
    {
        TopicMapper { default_tenant }
    }

    /// Derive a deterministic 128-bit `StreamId` from a Kafka topic name and partition
    /// index.
    pub fn map_to_stream(&self, topic: &str, partition: i32) -> (s: StreamId)
        ensures
            s.0@ == topic_stream_bytes(topic@, partition),
    {
        let data = topic_partition_data(topic, partition);
        let h1 = xxhash64(0xCAFE_BABE, data.as_slice());
        let h2 = xxhash64(0xDEAD_BEEF, data.as_slice());
        let a = u64_to_le_bytes(h1);
        let b = u64_to_le_bytes(h2);
        let raw: [u8; 16] = [
            a[0], a[1], a[2], a[3], a[4], a[5], a[6], a[7],
            b[0], b[1], b[2], b[3], b[4], b[5], b[6], b[7],
        ];
        proof {
            vstd::bytes::lemma_auto_spec_u64_to_from_le_bytes();
        }
        assert(raw@ =~= topic_stream_bytes(topic@, partition));
        StreamId(raw)
    }

    /// Tenant identifier for gateway operations.
    pub fn tenant_id(&self) -> (t: TenantId)
        ensures
            t == self.tenant(),
    {
        self.default_tenant
    }
}

} // verus!
