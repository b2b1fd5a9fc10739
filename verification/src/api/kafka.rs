//! Kafka wire framing for the client API: API keys, request and response headers, and
//! their big-endian encodings.
use crate::error::KeiroxError;
use crate::gateway::protocol::{bytes_content, bytes_from_vec, string_from_utf8};
use crate::text::{append_bytes, decimal, push_decimal, push_str};
use vstd::prelude::*;
use vstd::slice::slice_subrange;
use vstd::utf8::{decode_utf8, encode_utf8, valid_utf8};

verus! {

/// Kafka API keys of the client API.
#[derive(Debug, Clone, Copy, PartialEq, Eq, Structural, Hash)]
pub enum KafkaApiKey {
    /// Produce (0).
    Produce,
    /// Fetch (1).
    Fetch,
    /// ListOffsets (2).
    ListOffsets,
    /// Metadata (3).
    Metadata,
    /// OffsetCommit (8).
    OffsetCommit,
    /// OffsetFetch (9).
    OffsetFetch,
    /// JoinGroup (11).
    JoinGroup,
    /// Heartbeat (12).
    Heartbeat,
    /// LeaveGroup (13).
    LeaveGroup,
    /// SyncGroup (14).
    SyncGroup,
}

/// The wire number of a key.
pub open spec fn key_value(k: KafkaApiKey) -> u16 {
    match k {
        KafkaApiKey::Produce => 0,
        KafkaApiKey::Fetch => 1,
        KafkaApiKey::ListOffsets => 2,
        KafkaApiKey::Metadata => 3,
        KafkaApiKey::OffsetCommit => 8,
        KafkaApiKey::OffsetFetch => 9,
        KafkaApiKey::JoinGroup => 11,
        KafkaApiKey::Heartbeat => 12,
        KafkaApiKey::LeaveGroup => 13,
        KafkaApiKey::SyncGroup => 14,
    }
}

/// The key a wire number stands for, if any.
pub open spec fn key_of_value(v: u16) -> Option<KafkaApiKey> {
    if v == 0 {
        Some(KafkaApiKey::Produce)
    } else if v == 1 {
        Some(KafkaApiKey::Fetch)
    } else if v == 2 {
        Some(KafkaApiKey::ListOffsets)
    } else if v == 3 {
        Some(KafkaApiKey::Metadata)
    } else if v == 8 {
        Some(KafkaApiKey::OffsetCommit)
    } else if v == 9 {
        Some(KafkaApiKey::OffsetFetch)
    } else if v == 11 {
        Some(KafkaApiKey::JoinGroup)
    } else if v == 12 {
        Some(KafkaApiKey::Heartbeat)
    } else if v == 13 {
        Some(KafkaApiKey::LeaveGroup)
    } else if v == 14 {
        Some(KafkaApiKey::SyncGroup)
    } else {
        None
    }
}

impl KafkaApiKey {
    /// The key of a wire number, `None` for numbers outside the supported set.
    pub fn from_u16(key: u16) -> (r: Option<KafkaApiKey>)
        ensures
            r == key_of_value(key),
    {
        match key {
            0 => Some(KafkaApiKey::Produce),
            1 => Some(KafkaApiKey::Fetch),
            2 => Some(KafkaApiKey::ListOffsets),
            3 => Some(KafkaApiKey::Metadata),
            8 => Some(KafkaApiKey::OffsetCommit),
            9 => Some(KafkaApiKey::OffsetFetch),
            11 => Some(KafkaApiKey::JoinGroup),
            12 => Some(KafkaApiKey::Heartbeat),
            13 => Some(KafkaApiKey::LeaveGroup),
            14 => Some(KafkaApiKey::SyncGroup),
            _ => None,
        }
    }

    /// The wire number of the key.
    pub fn to_u16(self) -> (v: u16)
        ensures
            v == key_value(self),
    {
        match self {
            KafkaApiKey::Produce => 0,
            KafkaApiKey::Fetch => 1,
            KafkaApiKey::ListOffsets => 2,
            KafkaApiKey::Metadata => 3,
            KafkaApiKey::OffsetCommit => 8,
            KafkaApiKey::OffsetFetch => 9,
            KafkaApiKey::JoinGroup => 11,
            KafkaApiKey::Heartbeat => 12,
            KafkaApiKey::LeaveGroup => 13,
            KafkaApiKey::SyncGroup => 14,
        }
    }
}

/// Big-endian unsigned 16-bit value of two bytes.
pub open spec fn be_u16(b0: u8, b1: u8) -> u16 {
    (b0 as int * 256 + b1 as int) as u16
}

/// Big-endian unsigned 32-bit value of four bytes.
pub open spec fn be_u32(b0: u8, b1: u8, b2: u8, b3: u8) -> u32 {
    (((b0 as int * 256 + b1 as int) * 256 + b2 as int) * 256 + b3 as int) as u32
}

/// Big-endian bytes of a 16-bit value.
pub open spec fn u16_bytes(v: u16) -> Seq<u8> {
    seq![(v / 256) as u8, (v % 256) as u8]
}

/// Big-endian bytes of a 32-bit value.
pub open spec fn u32_bytes(v: u32) -> Seq<u8> {
    seq![(v / 0x100_0000) as u8, ((v / 0x1_0000) % 256) as u8, ((v / 256) % 256) as u8, (v % 256) as u8]
}

/// Big-endian bytes of a 16-bit signed value (two's complement).
pub open spec fn i16_bytes(v: i16) -> Seq<u8> {
    u16_bytes((if v < 0 { v + 65536 } else { v as int }) as u16)
}

fn push_u16(v: &mut Vec<u8>, x: u16)
    ensures
        final(v)@ == old(v)@ + u16_bytes(x),
{
    v.push((x / 256) as u8);
    v.push((x % 256) as u8);
    assert(final(v)@ =~= old(v)@ + u16_bytes(x)) by {
    }
}

fn push_u32(v: &mut Vec<u8>, x: u32)
    ensures
        final(v)@ == old(v)@ + u32_bytes(x),
{
    let ghost start = v@;
    v.push((x / 0x100_0000) as u8);
    v.push(((x / 0x1_0000) % 256) as u8);
    v.push(((x / 256) % 256) as u8);
    v.push((x % 256) as u8);
    assert(v@ =~= start + u32_bytes(x));
}

fn get_u16(d: &[u8], at: usize) -> (v: u16)
    requires
        at + 2 <= d@.len(),
    ensures
        v == be_u16(d@[at as int], d@[at as int + 1]),
{
    (d[at] as u16) * 256 + (d[at + 1] as u16)
}

fn get_u32(d: &[u8], at: usize) -> (v: u32)
    requires
        at + 4 <= d@.len(),
    ensures
        v == be_u32(d@[at as int], d@[at as int + 1], d@[at as int + 2], d@[at as int + 3]),
{
    (((d[at] as u32) * 256 + (d[at + 1] as u32)) * 256 + (d[at + 2] as u32)) * 256 + (d[at + 3] as u32)
}

fn get_i16(d: &[u8], at: usize) -> (v: i16)
    requires
        at + 2 <= d@.len(),
    ensures
        v == crate::gateway::protocol::be_i16(d@[at as int], d@[at as int + 1]),
{
    let u: u32 = (d[at] as u32) * 256 + (d[at + 1] as u32);
    if u >= 32768 {
        (u as i32 - 65536) as i16
    } else {
        u as i16
    }
}

/// Kafka request header.
#[derive(Debug, Clone, PartialEq, Eq)]
pub struct KafkaRequestHeader {
    /// API key.
    pub api_key: KafkaApiKey,
    /// API version.
    pub api_version: u16,
    /// Correlation ID.
    pub correlation_id: u32,
    /// Client identifier.
    pub client_id: Option<String>,
}

/// Wire form of a request header: key, version and correlation id big endian, then the
/// client id's byte length (16-bit, truncated) and bytes, or -1 without a client id.
pub open spec fn request_bytes(key: KafkaApiKey, version: u16, corr: u32, client: Option<Seq<char>>) -> Seq<u8> {
    u16_bytes(key_value(key)) + u16_bytes(version) + u32_bytes(corr) + match client {
        Some(c) => i16_bytes(encode_utf8(c).len() as i16) + encode_utf8(c),
        None => i16_bytes(-1i16),
    }
}

/// What decoding a request header gives: fields or an error message, and the bytes read.
pub enum RequestDecode {
    /// The fields and the bytes they took.
    Decoded(KafkaApiKey, u16, u32, Option<Seq<char>>, nat),
    /// An error and the bytes read before it.
    Failed(Seq<char>, nat),
}

/// Decoding of a request header: fewer than 8 bytes fail; an unknown key fails after
/// its two bytes; a positive client id length with that many bytes left reads them as
/// UTF-8 (invalid text gives no client id); otherwise there is no client id.
pub open spec fn decode_request(d: Seq<u8>) -> RequestDecode {
    if d.len() < 8 {
        RequestDecode::Failed("Buffer too short for Kafka request header"@, 0)
    } else if key_of_value(be_u16(d[0], d[1])) is None {
        RequestDecode::Failed(
            "Unsupported Kafka API key: "@ + decimal(be_u16(d[0], d[1]) as nat),
            2,
        )
    } else {
        let key = key_of_value(be_u16(d[0], d[1]))->0;
        let version = be_u16(d[2], d[3]);
        let corr = be_u32(d[4], d[5], d[6], d[7]);
        if d.len() < 10 {
            RequestDecode::Decoded(key, version, corr, None, 8)
        } else {
            let len = crate::gateway::protocol::be_i16(d[8], d[9]);
            if len > 0 && d.len() - 10 >= len {
                let raw = d.subrange(10, 10 + len);
                RequestDecode::Decoded(
                    key,
                    version,
                    corr,
                    if valid_utf8(raw) { Some(decode_utf8(raw)) } else { None },
                    (10 + len) as nat,
                )
            } else {
                RequestDecode::Decoded(key, version, corr, None, 10)
            }
        }
    }
}

impl KafkaRequestHeader {
    /// Decode a header from the front of a byte cursor, advancing it past the bytes read
    /// (also when decoding fails part way).
    pub fn decode<'a>(buf: &mut &'a [u8]) -> (r: Result<KafkaRequestHeader, KeiroxError>)
        ensures
            match decode_request(old(buf)@) {
                RequestDecode::Decoded(key, version, corr, client, used) => r matches Ok(h)
                    && h.api_key == key && h.api_version == version && h.correlation_id == corr
                    && (match client {
                    Some(c) => h.client_id matches Some(s) && s@ == c,
                    None => h.client_id is None,
                }) && final(buf)@ == old(buf)@.skip(used as int),
                RequestDecode::Failed(msg, used) => r matches Err(KeiroxError::Internal(m)) && m@
                    == msg && final(buf)@ == old(buf)@.skip(used as int),
            },
    {
        let d: &'a [u8] = *buf;
        let n = d.len();
        if n < 8 {
            let mut m = String::new();
            push_str(&mut m, "Buffer too short for Kafka request header");
            assert(d@.skip(0) =~= d@);
            return Err(KeiroxError::Internal(m));
        }
        let raw_key = get_u16(d, 0);
        let api_key = match KafkaApiKey::from_u16(raw_key) {
            Some(k) => k,
            None => {
                let mut m = String::new();
                push_str(&mut m, "Unsupported Kafka API key: ");
                push_decimal(&mut m, raw_key as u64);
                *buf = slice_subrange(d, 2, n);
                return Err(KeiroxError::Internal(m));
            },
        };
        let api_version = get_u16(d, 2);
        let correlation_id = get_u32(d, 4);
        if n < 10 {
            *buf = slice_subrange(d, 8, n);
            return Ok(KafkaRequestHeader { api_key, api_version, correlation_id, client_id: None });
        }
        let len = get_i16(d, 8);
        if len > 0 && n - 10 >= len as usize {
            let l = len as usize;
            let raw = slice_subrange(d, 10, 10 + l);
            let mut bytes: Vec<u8> = Vec::new();
            append_bytes(&mut bytes, raw);
            let client_id = string_from_utf8(bytes);
            *buf = slice_subrange(d, 10 + l, n);
            Ok(KafkaRequestHeader { api_key, api_version, correlation_id, client_id })
        } else {
            *buf = slice_subrange(d, 10, n);
            Ok(KafkaRequestHeader { api_key, api_version, correlation_id, client_id: None })
        }
    }

    /// Encode the header: key, version and correlation id big endian, then the client id
    /// with a 16-bit length, or -1 without one.
    pub fn encode(&self) -> (b: bytes::Bytes)
        ensures
            bytes_content(b) == request_bytes(
                self.api_key,
                self.api_version,
                self.correlation_id,
                match self.client_id {
                    Some(s) => Some(s@),
                    None => None,
                },
            ),
    {
        let mut v: Vec<u8> = Vec::new();
        push_u16(&mut v, self.api_key.to_u16());
        push_u16(&mut v, self.api_version);
        push_u32(&mut v, self.correlation_id);
        match &self.client_id {
            Some(id) => {
                let bs = id.as_str().as_bytes();
                let l = bs.len() as i16;
                let u: u16 = if l < 0 {
                    (l as i32 + 65536) as u16
                } else {
                    l as u16
                };
                push_u16(&mut v, u);
                append_bytes(&mut v, bs);
            },
            None => {
                push_u16(&mut v, 0xFFFF);
            },
        }
        bytes_from_vec(v)
    }
}

/// Kafka response header.
#[derive(Debug, Clone, Copy, PartialEq, Eq, Structural)]
pub struct KafkaResponseHeader {
    /// Correlation ID echoing the request.
    pub correlation_id: u32,
}

impl KafkaResponseHeader {
    /// Encode the header: the correlation id, big endian.
    pub fn encode(&self) -> (b: bytes::Bytes)
        ensures
            bytes_content(b) == u32_bytes(self.correlation_id),
    {
        let mut v: Vec<u8> = Vec::new();
        push_u32(&mut v, self.correlation_id);
        assert(v@ =~= u32_bytes(self.correlation_id));
        bytes_from_vec(v)
    }

    /// Decode a header from the front of a byte cursor, advancing it by 4 bytes.
    pub fn decode<'a>(buf: &mut &'a [u8]) -> (r: Result<KafkaResponseHeader, KeiroxError>)
        ensures
            old(buf)@.len() < 4 ==> (r matches Err(KeiroxError::Internal(m)) && m@
                == "Buffer too short for Kafka response header"@ && final(buf)@ == old(buf)@),
            old(buf)@.len() >= 4 ==> r == Ok::<KafkaResponseHeader, KeiroxError>(
                KafkaResponseHeader {
                    correlation_id: be_u32(old(buf)@[0], old(buf)@[1], old(buf)@[2], old(buf)@[3]),
                },
            ) && final(buf)@ == old(buf)@.skip(4),
    {
        let d: &'a [u8] = *buf;
        if d.len() < 4 {
            let mut m = String::new();
            push_str(&mut m, "Buffer too short for Kafka response header");
            return Err(KeiroxError::Internal(m));
        }
        let c = get_u32(d, 0);
        *buf = slice_subrange(d, 4, d.len());
        Ok(KafkaResponseHeader { correlation_id: c })
    }
}

/// A 32-bit value read back from its big-endian bytes.
pub proof fn law_u32_roundtrip(v: u32)
    ensures
        be_u32(u32_bytes(v)[0], u32_bytes(v)[1], u32_bytes(v)[2], u32_bytes(v)[3]) == v,
{
    let b0 = v / 0x100_0000;
    let b1 = (v / 0x1_0000) % 256;
    let b2 = (v / 256) % 256;
    let b3 = v % 256;
    assert(((b0 * 256 + b1) * 256 + b2) * 256 + b3 == v) by (nonlinear_arith)
        requires b0 == v / 0x100_0000, b1 == (v / 0x1_0000) % 256, b2 == (v / 256) % 256, b3 == v % 256;
}

/// A 16-bit value read back from its big-endian bytes.
pub proof fn law_u16_roundtrip(v: u16)
    ensures
        be_u16(u16_bytes(v)[0], u16_bytes(v)[1]) == v,
{
}

/// A request header with a non-empty client id of at most 32767 bytes decodes back from
/// its encoding, every byte read.
pub proof fn law_request_header_roundtrip(key: KafkaApiKey, version: u16, corr: u32, client: Seq<char>)
    requires
        0 < encode_utf8(client).len() <= 32767,
    ensures
        decode_request(request_bytes(key, version, corr, Some(client))) == RequestDecode::Decoded(
            key,
            version,
            corr,
            Some(client),
            request_bytes(key, version, corr, Some(client)).len(),
        ),
{
    let raw = encode_utf8(client);
    let l = raw.len() as i16;
    let d = request_bytes(key, version, corr, Some(client));
    law_u16_roundtrip(key_value(key));
    law_u16_roundtrip(version);
    law_u32_roundtrip(corr);
    law_u16_roundtrip(l as u16);
    assert(d.len() == 10 + raw.len());
    assert(d.subrange(10, 10 + raw.len() as int) =~= raw);
    assert(d[0] == u16_bytes(key_value(key))[0]);
    assert(d[1] == u16_bytes(key_value(key))[1]);
    assert(d[2] == u16_bytes(version)[0]);
    assert(d[3] == u16_bytes(version)[1]);
    assert(d[4] == u32_bytes(corr)[0]);
    assert(d[7] == u32_bytes(corr)[3]);
    assert(d[8] == i16_bytes(l)[0]);
    assert(d[9] == i16_bytes(l)[1]);
    assert(crate::gateway::protocol::be_i16(d[8], d[9]) == l);
    vstd::utf8::encode_utf8_valid_utf8(client);
    vstd::utf8::encode_utf8_decode_utf8(client);
}

} // verus!
