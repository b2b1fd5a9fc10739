//! Kafka wire-protocol frames: API keys, error codes, and request and response headers.
use crate::error::KeiroxError;
use crate::text::push_str;
use vstd::prelude::*;
use vstd::utf8::{decode_utf8, valid_utf8};

verus! {

/// A `bytes::Bytes` buffer.
#[verifier::external_type_specification]
#[verifier::external_body]
pub struct ExBytes(bytes::Bytes);

/// A `bytes::BytesMut` buffer.
#[verifier::external_type_specification]
#[verifier::external_body]
pub struct ExBytesMut(bytes::BytesMut);

/// The bytes a `Bytes` buffer has left to read.
pub uninterp spec fn bytes_content(b: bytes::Bytes) -> Seq<u8>;

/// The bytes written into a `BytesMut` buffer.
pub uninterp spec fn bytes_mut_content(b: bytes::BytesMut) -> Seq<u8>;

/// The remaining bytes of a `Bytes` buffer, copied (`Bytes::to_vec`).
#[verifier::external_body]
fn bytes_remaining(b: &bytes::Bytes) -> (v: Vec<u8>)
    ensures
        v@ == bytes_content(*b),
{
    b.to_vec()
}

/// `Buf::advance`: drops the first `n` remaining bytes (it panics past the end, which
/// `requires` rules out).
#[verifier::external_body]
fn bytes_advance(b: &mut bytes::Bytes, n: usize)
    requires
        n <= bytes_content(*old(b)).len(),
    ensures
        bytes_content(*final(b)) == bytes_content(*old(b)).skip(n as int),
{
    bytes::Buf::advance(b, n)
}

/// `BufMut::put_slice`: appends the bytes.
#[verifier::external_body]
fn bytes_mut_put(b: &mut bytes::BytesMut, data: &[u8])
    ensures
        bytes_mut_content(*final(b)) == bytes_mut_content(*old(b)) + data@,
{
    bytes::BufMut::put_slice(b, data)
}

/// `Bytes::from(Vec<u8>)`: a buffer holding the bytes.
#[verifier::external_body]
pub(crate) fn bytes_from_vec(v: Vec<u8>) -> (b: bytes::Bytes)
    ensures
        bytes_content(b) == v@,
{
    bytes::Bytes::from(v)
}

/// `String::from_utf8`: the string when the bytes are valid UTF-8.
#[verifier::external_body]
pub(crate) fn string_from_utf8(v: Vec<u8>) -> (r: Option<String>)
    ensures
        r is Some <==> valid_utf8(v@),
        r matches Some(s) ==> s@ == decode_utf8(v@),
{
    String::from_utf8(v).ok()
}

/// Standard Kafka API Keys supported in the certified gateway subset.
#[derive(Debug, Clone, Copy, PartialEq, Eq, Structural, Hash)]
pub enum KafkaApiKey {
    /// Produce messages (Key 0).
    Produce,
    /// Fetch messages (Key 1).
    Fetch,
    /// List partition offsets (Key 2).
    ListOffsets,
    /// Metadata discovery (Key 3).
    Metadata,
    /// Offset commit (Key 8).
    OffsetCommit,
    /// Offset fetch (Key 9).
    OffsetFetch,
    /// Find coordinator (Key 10).
    FindCoordinator,
    /// API versions negotiation (Key 18).
    ApiVersions,
    /// Initialize idempotent producer ID (Key 22).
    InitProducerId,
    /// Unsupported API key.
    Unsupported(i16),
}

/// The API key a wire number stands for.
pub open spec fn api_key_of(v: i16) -> KafkaApiKey {
    if v == 0 {
        KafkaApiKey::Produce
    } else if v == 1 {
        KafkaApiKey::Fetch
    } else if v == 2 {
        KafkaApiKey::ListOffsets
    } else if v == 3 {
        KafkaApiKey::Metadata
    } else if v == 8 {
        KafkaApiKey::OffsetCommit
    } else if v == 9 {
        KafkaApiKey::OffsetFetch
    } else if v == 10 {
        KafkaApiKey::FindCoordinator
    } else if v == 18 {
        KafkaApiKey::ApiVersions
    } else if v == 22 {
        KafkaApiKey::InitProducerId
    } else {
        KafkaApiKey::Unsupported(v)
    }
}

impl From<i16> for KafkaApiKey {
    fn from(val: i16) -> (r: Self) {
        match val {
            0 => KafkaApiKey::Produce,
            1 => KafkaApiKey::Fetch,
            2 => KafkaApiKey::ListOffsets,
            3 => KafkaApiKey::Metadata,
            8 => KafkaApiKey::OffsetCommit,
            9 => KafkaApiKey::OffsetFetch,
            10 => KafkaApiKey::FindCoordinator,
            18 => KafkaApiKey::ApiVersions,
            22 => KafkaApiKey::InitProducerId,
            other => KafkaApiKey::Unsupported(other),
        }
    }
}

impl vstd::std_specs::convert::FromSpecImpl<i16> for KafkaApiKey {
    open spec fn obeys_from_spec() -> bool {
        true
    }

    open spec fn from_spec(v: i16) -> KafkaApiKey {
        api_key_of(v)
    }
}

/// Standard Kafka Error Codes mapped to Keirox error states.
#[derive(Debug, Clone, Copy, PartialEq, Eq, Structural)]
pub enum KafkaErrorCode {
    /// No error (Success, 0).
    NoError,
    /// Topic or partition does not exist (3).
    UnknownTopicOrPartition,
    /// Leader not available (5).
    LeaderNotAvailable,
    /// Not leader or follower (6).
    NotLeaderOrFollower,
    /// Request timed out (7).
    RequestTimedOut,
    /// Invalid required acks parameter (21).
    InvalidRequiredAcks,
    /// Unsupported API version or operation (35).
    UnsupportedVersion,
    /// Duplicate sequence number for idempotent produce (46).
    DuplicateSequenceNumber,
    /// Out of order sequence number for idempotent produce (47).
    OutOfOrderSequenceNumber,
    /// General broker server failure (-1).
    UnknownServerError,
}

/// The wire number of an error code.
pub open spec fn error_code_value(c: KafkaErrorCode) -> i16 {
    match c {
        KafkaErrorCode::NoError => 0,
        KafkaErrorCode::UnknownTopicOrPartition => 3,
        KafkaErrorCode::LeaderNotAvailable => 5,
        KafkaErrorCode::NotLeaderOrFollower => 6,
        KafkaErrorCode::RequestTimedOut => 7,
        KafkaErrorCode::InvalidRequiredAcks => 21,
        KafkaErrorCode::UnsupportedVersion => 35,
        KafkaErrorCode::DuplicateSequenceNumber => 46,
        KafkaErrorCode::OutOfOrderSequenceNumber => 47,
        KafkaErrorCode::UnknownServerError => -1i16,
    }
}

impl KafkaErrorCode {
    /// Convert error code to standard i16 wire representation.
    pub fn to_i16(self) -> (v: i16)
        ensures
            v == error_code_value(self),
    {
        match self {
            KafkaErrorCode::NoError => 0,
            KafkaErrorCode::UnknownTopicOrPartition => 3,
            KafkaErrorCode::LeaderNotAvailable => 5,
            KafkaErrorCode::NotLeaderOrFollower => 6,
            KafkaErrorCode::RequestTimedOut => 7,
            KafkaErrorCode::InvalidRequiredAcks => 21,
            KafkaErrorCode::UnsupportedVersion => 35,
            KafkaErrorCode::DuplicateSequenceNumber => 46,
            KafkaErrorCode::OutOfOrderSequenceNumber => 47,
            KafkaErrorCode::UnknownServerError => -1i16,
        }
    }
}

/// Big-endian 16-bit signed integer from two bytes.
pub open spec fn be_i16(b0: u8, b1: u8) -> i16 {
    let u = b0 as int * 256 + b1 as int;
    if u >= 32768 {
        (u - 65536) as i16
    } else {
        u as i16
    }
}

/// Big-endian 32-bit signed integer from four bytes.
pub open spec fn be_i32(b0: u8, b1: u8, b2: u8, b3: u8) -> i32 {
    let u = ((b0 as int * 256 + b1 as int) * 256 + b2 as int) * 256 + b3 as int;
    if u >= 0x8000_0000 {
        (u - 0x1_0000_0000) as i32
    } else {
        u as i32
    }
}

fn read_i16(d: &[u8], at: usize) -> (v: i16)
    requires
        at + 2 <= d@.len(),
    ensures
        v == be_i16(d@[at as int], d@[at as int + 1]),
{
    let u: u32 = (d[at] as u32) * 256 + (d[at + 1] as u32);
    if u >= 32768 {
        (u as i32 - 65536) as i16
    } else {
        u as i16
    }
}

fn read_i32(d: &[u8], at: usize) -> (v: i32)
    requires
        at + 4 <= d@.len(),
    ensures
        v == be_i32(d@[at as int], d@[at as int + 1], d@[at as int + 2], d@[at as int + 3]),
{
    let u: u64 = (((d[at] as u64) * 256 + (d[at + 1] as u64)) * 256 + (d[at + 2] as u64)) * 256 + (
    d[at + 3] as u64);
    if u >= 0x8000_0000 {
        (u as i64 - 0x1_0000_0000) as i32
    } else {
        u as i32
    }
}

/// Kafka request header (v1/v2).
#[derive(Debug, Clone, PartialEq, Eq)]
pub struct KafkaRequestHeader {
    /// API key.
    pub api_key: KafkaApiKey,
    /// API version.
    pub api_version: i16,
    /// Correlation ID.
    pub correlation_id: i32,
    /// Client identifier.
    pub client_id: Option<String>,
}

/// What decoding a header from the front of `d` gives: the header or an error message,
/// and how many bytes were read.
pub enum HeaderDecode {
    /// A header and the bytes it took.
    Decoded(KafkaApiKey, i16, i32, Option<Seq<char>>, nat),
    /// An error message and the bytes read before it was found.
    Failed(Seq<char>, nat),
}

/// Decoding of a request header: key, version and correlation id (8 bytes), then, when
/// at least two more bytes remain, a 16-bit client id length; a positive length is
/// followed by that many bytes of UTF-8.
pub open spec fn decode_header(d: Seq<u8>) -> HeaderDecode {
    if d.len() < 8 {
        HeaderDecode::Failed("Header buffer underflow"@, 0)
    } else {
        let key = api_key_of(be_i16(d[0], d[1]));
        let version = be_i16(d[2], d[3]);
        let corr = be_i32(d[4], d[5], d[6], d[7]);
        if d.len() < 10 {
            HeaderDecode::Decoded(key, version, corr, None, 8)
        } else {
            let len = be_i16(d[8], d[9]);
            if len <= 0 {
                HeaderDecode::Decoded(key, version, corr, None, 10)
            } else if d.len() - 10 < len {
                HeaderDecode::Failed("Client ID buffer underflow in Kafka request header"@, 10)
            } else {
                let raw = d.subrange(10, 10 + len);
                if valid_utf8(raw) {
                    HeaderDecode::Decoded(key, version, corr, Some(decode_utf8(raw)), (10 + len) as nat)
                } else {
                    HeaderDecode::Failed("Malformed UTF-8 in Kafka client_id"@, (10 + len) as nat)
                }
            }
        }
    }
}

impl KafkaRequestHeader {
    /// Decode a request header from the front of a byte slice: the header or the error,
    /// with the number of bytes read.
    pub fn decode_slice(d: &[u8]) -> (r: (Result<KafkaRequestHeader, KeiroxError>, usize))
        ensures
            match decode_header(d@) {
                HeaderDecode::Decoded(key, version, corr, client, used) => r.0 matches Ok(h)
                    && h.api_key == key && h.api_version == version && h.correlation_id == corr
                    && (match client {
                    Some(c) => h.client_id matches Some(s) && s@ == c,
                    None => h.client_id is None,
                }) && r.1 == used,
                HeaderDecode::Failed(msg, used) => r.0 matches Err(KeiroxError::Internal(m)) && m@
                    == msg && r.1 == used,
            },
    {
        if d.len() < 8 {
            let mut m = String::new();
            push_str(&mut m, "Header buffer underflow");
            return (Err(KeiroxError::Internal(m)), 0);
        }
        let api_key = KafkaApiKey::from(read_i16(d, 0));
        let api_version = read_i16(d, 2);
        let correlation_id = read_i32(d, 4);
        if d.len() < 10 {
            return (Ok(KafkaRequestHeader { api_key, api_version, correlation_id, client_id: None }), 8);
        }
        let len = read_i16(d, 8);
        if len <= 0 {
            return (
                Ok(KafkaRequestHeader { api_key, api_version, correlation_id, client_id: None }),
                10,
            );
        }
        let n = len as usize;
        if d.len() - 10 < n {
            let mut m = String::new();
            push_str(&mut m, "Client ID buffer underflow in Kafka request header");
            return (Err(KeiroxError::Internal(m)), 10);
        }
        let mut raw: Vec<u8> = Vec::new();
        let mut i: usize = 0;
        while i < n
            invariant
                d@.len() >= 10,
                d@.len() == d.len(),
                n <= d@.len() - 10,
                i <= n,
                raw@ == d@.subrange(10, 10 + i as int),
            decreases n - i,
        {
            raw.push(d[10 + i]);
            i = i + 1;
            assert(raw@ =~= d@.subrange(10, 10 + i as int));
        }
        match string_from_utf8(raw) {
            Some(s) => (
                Ok(KafkaRequestHeader { api_key, api_version, correlation_id, client_id: Some(s) }),
                10 + n,
            ),
            None => {
                let mut m = String::new();
                push_str(&mut m, "Malformed UTF-8 in Kafka client_id");
                (Err(KeiroxError::Internal(m)), 10 + n)
            },
        }
    }

    /// Decode a request header from a buffer, consuming the bytes read (also when
    /// decoding fails part way).
    pub fn decode(buf: &mut bytes::Bytes) -> (r: Result<KafkaRequestHeader, KeiroxError>)
        ensures
            match decode_header(bytes_content(*old(buf))) {
                HeaderDecode::Decoded(key, version, corr, client, used) => r matches Ok(h) && h.api_key
                    == key && h.api_version == version && h.correlation_id == corr && (match client {
                    Some(c) => h.client_id matches Some(s) && s@ == c,
                    None => h.client_id is None,
                }) && bytes_content(*final(buf)) == bytes_content(*old(buf)).skip(used as int),
                HeaderDecode::Failed(msg, used) => r matches Err(KeiroxError::Internal(m)) && m@ == msg
                    && bytes_content(*final(buf)) == bytes_content(*old(buf)).skip(used as int),
            },
    {
        let data = bytes_remaining(buf);
        let (r, used) = Self::decode_slice(data.as_slice());
        bytes_advance(buf, used);
        r
    }
}

/// Big-endian bytes of a 32-bit signed integer.
pub open spec fn be_i32_bytes(v: i32) -> Seq<u8> {
    let u: int = if v < 0 { v + 0x1_0000_0000 } else { v as int };
    seq![
        (u / 0x100_0000) as u8,
        ((u / 0x1_0000) % 256) as u8,
        ((u / 256) % 256) as u8,
        (u % 256) as u8,
    ]
}

/// Big-endian encoding of a 32-bit signed integer.
pub fn i32_be_bytes(v: i32) -> (b: Vec<u8>)
    ensures
        b@ == be_i32_bytes(v),
{
    let u: u64 = if v < 0 {
        (v as i64 + 0x1_0000_0000) as u64
    } else {
        v as u64
    };
    let mut b: Vec<u8> = Vec::new();
    b.push((u / 0x100_0000) as u8);
    b.push(((u / 0x1_0000) % 256) as u8);
    b.push(((u / 256) % 256) as u8);
    b.push((u % 256) as u8);
    b
}

/// Kafka response header.
#[derive(Debug, Clone, PartialEq, Eq, Structural)]
pub struct KafkaResponseHeader {
    /// Correlation ID echoing request.
    pub correlation_id: i32,
}

impl KafkaResponseHeader {
    /// Encode the response header: the correlation id, big endian.
    pub fn encode(&self, dst: &mut bytes::BytesMut)
        ensures
            bytes_mut_content(*final(dst)) == bytes_mut_content(*old(dst)) + be_i32_bytes(
                self.correlation_id,
            ),
    {
        let b = i32_be_bytes(self.correlation_id);
        bytes_mut_put(dst, b.as_slice());
    }
}

/// Produce request record partition batch.
#[derive(Debug, Clone)]
pub struct KafkaProduceRecordBatch {
    /// Topic name.
    pub topic: String,
    /// Partition index.
    pub partition: i32,
    /// Idempotent producer ID (if enabled).
    pub producer_id: i64,
    /// Idempotent producer epoch.
    pub producer_epoch: i16,
    /// Base sequence number.
    pub base_sequence: i32,
    /// Raw payload records.
    pub records: Vec<Vec<u8>>,
}

/// Topic partition offset result.
#[derive(Debug, Clone, Copy, PartialEq, Eq, Structural)]
pub struct KafkaPartitionResponse {
    /// Partition index.
    pub partition: i32,
    /// Error code.
    pub error_code: KafkaErrorCode,
    /// Base offset assigned by Keirox.
    pub base_offset: i64,
    /// Append timestamp in milliseconds.
    pub log_append_time_ms: i64,
}

/// Kafka Produce Response: partition responses grouped by topic, topics in the order
/// they first appear.
#[derive(Debug, Clone)]
pub struct KafkaProduceResponse {
    /// Topic -> partition responses.
    pub responses: Vec<(String, Vec<KafkaPartitionResponse>)>,
    /// Throttle time in milliseconds.
    pub throttle_time_ms: i32,
}

} // verus!
