//! AWS SQS translation: queues map to tenant-scoped streams, sends are answered with an
//! MD5 of the body, and lease tokens travel as opaque receipt handles.
use crate::coordinator::epoch_fencing::EpochFencedToken;
use crate::coordinator::shard::{CoordinatorEpoch, ShardId};
use crate::digest::{md5, md5_digest, xxh64_digest, xxhash64};
use crate::error::KeiroxError;
use crate::gateway::topic_mapper::{tenant_stream, tenant_stream_bytes};
use crate::model::{StreamId, TenantId};
use crate::text::{
    hex_bytes, hex_fixed, lemma_hex_bytes_len, lemma_hex_fixed_chars,
    lemma_hex_fixed_len, lemma_hex_fixed_value, parse_hex, parse_hex_unsigned, pow16,
    push_hex_bytes, push_hex_fixed, push_str, str_chars, string_push,
};
use vstd::prelude::*;
use vstd::utf8::encode_utf8;

verus! {

/// Request to publish a message via SQS SendMessage.
#[derive(Debug, Clone)]
pub struct SqsSendMessageRequest {
    /// Target queue URL or queue name.
    pub queue_url: String,
    /// Message body payload string.
    pub message_body: String,
    /// Delay delivery seconds (0..900).
    pub delay_seconds: u32,
    /// SQS message attributes.
    pub message_attributes: Vec<(String, String)>,
    /// FIFO message deduplication ID.
    pub message_deduplication_id: Option<String>,
    /// FIFO message group ID.
    pub message_group_id: Option<String>,
}

/// Response returned from SQS SendMessage.
#[derive(Debug, Clone)]
pub struct SqsSendMessageResponse {
    /// Assigned unique SQS Message ID.
    pub message_id: String,
    /// Monotonic log offset sequence number.
    pub sequence_number: u64,
    /// MD5 of the message body, in hexadecimal.
    pub md5_of_body: String,
}

/// Request to poll messages via SQS ReceiveMessage.
#[derive(Debug, Clone)]
pub struct SqsReceiveMessageRequest {
    /// Target queue URL.
    pub queue_url: String,
    /// Max messages to return (1..10).
    pub max_number_of_messages: u32,
    /// Lease duration in seconds.
    pub visibility_timeout_s: u32,
    /// Long polling wait time in seconds (0..20).
    pub wait_time_seconds: u32,
}

/// Individual message received from SQS queue.
#[derive(Debug, Clone)]
pub struct SqsMessage {
    /// Unique Message ID.
    pub message_id: String,
    /// Opaque receipt handle encoding lease token.
    pub receipt_handle: String,
    /// Body string.
    pub body: String,
    /// Message attributes.
    pub attributes: Vec<(String, String)>,
}

/// Response returned from SQS ReceiveMessage.
#[derive(Debug, Clone)]
pub struct SqsReceiveMessageResponse {
    /// List of leased messages.
    pub messages: Vec<SqsMessage>,
}

/// The text after the last `/`, or the whole text when it holds none.
pub open spec fn last_segment(s: Seq<char>) -> Seq<char>
    decreases s.len(),
{
    if s.len() == 0 {
        s
    } else if s.last() == '/' {
        Seq::empty()
    } else {
        last_segment(s.drop_last()).push(s.last())
    }
}

/// Lowercase hexadecimal MD5 of a body's UTF-8 bytes.
pub open spec fn body_md5_hex(body: Seq<char>) -> Seq<char> {
    hex_bytes(md5_digest(encode_utf8(body)))
}

/// Message id of a send: `msg-`, the offset in 16 hexadecimal digits, `-`, and the first
/// 8 digits of the body's MD5.
pub open spec fn message_id_text(offset: u64, body: Seq<char>) -> Seq<char> {
    "msg-"@ + hex_fixed(offset as nat, 16) + "-"@ + body_md5_hex(body).take(8)
}

/// Receipt handle of a token: `RH-{shard:08x}-{epoch:016x}-{offset:016x}-{nonce:08x}`.
pub open spec fn receipt_handle_text(t: EpochFencedToken) -> Seq<char> {
    "RH-"@ + hex_fixed(t.shard_id.0 as nat, 8) + "-"@ + hex_fixed(t.epoch.0 as nat, 16) + "-"@
        + hex_fixed(t.offset as nat, 16) + "-"@ + hex_fixed(t.nonce as nat, 8)
}

/// The pieces of a text between `-` separators (as `split('-')`).
pub open spec fn split_dash(s: Seq<char>) -> Seq<Seq<char>>
    decreases s.len(),
{
    if s.len() == 0 {
        seq![Seq::<char>::empty()]
    } else {
        let init = split_dash(s.drop_last());
        if s.last() == '-' {
            init.push(Seq::<char>::empty())
        } else {
            init.update(init.len() - 1, init.last().push(s.last()))
        }
    }
}

/// What decoding a receipt handle gives.
pub open spec fn decode_handle(s: Seq<char>) -> Result<(u32, u64, u64, u32), Seq<char>> {
    if !(s.len() >= 3 && s.take(3) == "RH-"@) {
        Err("Invalid SQS receipt handle format"@)
    } else {
        let parts = split_dash(s.skip(3));
        if parts.len() != 4 {
            Err("Malformed SQS receipt handle segments"@)
        } else if parse_hex_unsigned(parts[0], u32::MAX as nat) is None {
            Err("Invalid shard_id in receipt handle"@)
        } else if parse_hex_unsigned(parts[1], u64::MAX as nat) is None {
            Err("Invalid epoch in receipt handle"@)
        } else if parse_hex_unsigned(parts[2], u64::MAX as nat) is None {
            Err("Invalid offset in receipt handle"@)
        } else if parse_hex_unsigned(parts[3], u32::MAX as nat) is None {
            Err("Invalid nonce in receipt handle"@)
        } else {
            Ok(
                (
                    parse_hex_unsigned(parts[0], u32::MAX as nat)->0 as u32,
                    parse_hex_unsigned(parts[1], u64::MAX as nat)->0 as u64,
                    parse_hex_unsigned(parts[2], u64::MAX as nat)->0 as u64,
                    parse_hex_unsigned(parts[3], u32::MAX as nat)->0 as u32,
                ),
            )
        }
    }
}

/// SQS Translation Gateway: queue naming, send responses and receipt handles for one
/// tenant.
#[derive(Debug, Clone, Copy)]
pub struct SqsGatewayServer {
    tenant_id: TenantId,
}

impl SqsGatewayServer {
    /// The tenant served.
    pub closed spec fn tenant(&self) -> TenantId {
        self.tenant_id
    }

    /// Create a new SQS Gateway Server for a tenant.
    pub fn new(tenant_id: TenantId) -> (r: Self)
        ensures
            r.tenant() == tenant_id,
    {
        SqsGatewayServer { tenant_id }
    }

    /// Tenant identifier for gateway operations.
    pub fn tenant_id(&self) -> (t: TenantId)
        ensures
            t == self.tenant(),
    {
        self.tenant_id
    }

    /// Map queue URL/name to internal deterministic StreamId: the tenant's first 8 bytes,
    /// then the xxHash64 of the URL.
    pub fn map_queue_to_stream(&self, queue_url: &str) -> (s: StreamId)
        ensures
            s.0@ == tenant_stream_bytes(self.tenant(), xxh64_digest(0, encode_utf8(queue_url@))),
    {
        let h = xxhash64(0, queue_url.as_bytes());
        tenant_stream(self.tenant_id, h)
    }

    /// The response to a send whose body was stored at `offset`.
    pub fn send_message_response(offset: u64, message_body: &str) -> (r: SqsSendMessageResponse)
        ensures
            r.sequence_number == offset,
            r.md5_of_body@ == body_md5_hex(message_body@),
            r.message_id@ == message_id_text(offset, message_body@),
    {
        let digest = md5(message_body.as_bytes());
        let mut md5_hex = String::new();
        push_hex_bytes(&mut md5_hex, &digest);
        proof {
            lemma_hex_bytes_len(digest@);
        }
        let hex_chars = str_chars(md5_hex.as_str());
        let mut message_id = String::new();
        push_str(&mut message_id, "msg-");
        push_hex_fixed(&mut message_id, offset, 16);
        push_str(&mut message_id, "-");
        let ghost start = message_id@;
        let mut i: usize = 0;
        while i < 8
            invariant
                i <= 8,
                hex_chars@ == md5_hex@,
                md5_hex@.len() == 32,
                message_id@ == start + md5_hex@.take(i as int),
            decreases 8 - i,
        {
            string_push(&mut message_id, hex_chars[i]);
            i = i + 1;
            assert(message_id@ =~= start + md5_hex@.take(i as int));
        }
        SqsSendMessageResponse { message_id, sequence_number: offset, md5_of_body: md5_hex }
    }

    /// Consumer group of a queue: `sqs-group-` and the last path segment of its URL.
    pub fn queue_group_id(queue_url: &str) -> (g: String)
        ensures
            g@ == "sqs-group-"@ + last_segment(queue_url@),
    {
        let chars = str_chars(queue_url);
        let mut start: usize = 0;
        let mut i: usize = 0;
        while i < chars.len()
            invariant
                chars@ == queue_url@,
                start <= i <= chars@.len(),
                last_segment(chars@.take(i as int)) == chars@.subrange(start as int, i as int),
            decreases chars.len() - i,
        {
            let ghost pre = chars@.take(i as int);
            if chars[i] == '/' {
                start = i + 1;
            }
            i = i + 1;
            assert(chars@.take(i as int).drop_last() =~= pre);
            assert(chars@.subrange(start as int, i as int) =~= if chars@[i - 1] == '/' {
                Seq::<char>::empty()
            } else {
                chars@.subrange(start as int, i - 1).push(chars@[i - 1])
            });
        }
        assert(chars@.take(chars@.len() as int) =~= chars@);
        let mut g = String::new();
        push_str(&mut g, "sqs-group-");
        let mut j: usize = start;
        let ghost base = g@;
        while j < chars.len()
            invariant
                start <= j <= chars@.len(),
                g@ == base + chars@.subrange(start as int, j as int),
            decreases chars.len() - j,
        {
            string_push(&mut g, chars[j]);
            j = j + 1;
            assert(g@ =~= base + chars@.subrange(start as int, j as int));
        }
        g
    }

    /// Encode an epoch-fenced token into an opaque SQS receipt handle.
    pub fn encode_receipt_handle(token: EpochFencedToken) -> (s: String)
        ensures
            s@ == receipt_handle_text(token),
    {
        let mut s = String::new();
        push_str(&mut s, "RH-");
        push_hex_fixed(&mut s, token.shard_id.0 as u64, 8);
        push_str(&mut s, "-");
        push_hex_fixed(&mut s, token.epoch.0, 16);
        push_str(&mut s, "-");
        push_hex_fixed(&mut s, token.offset, 16);
        push_str(&mut s, "-");
        push_hex_fixed(&mut s, token.nonce as u64, 8);
        s
    }

    /// Decode an opaque SQS receipt handle back into an epoch-fenced token.
    pub fn decode_receipt_handle(receipt_handle: &str) -> (r: Result<EpochFencedToken, KeiroxError>)
        ensures
            match decode_handle(receipt_handle@) {
                Ok((sh, ep, off, no)) => r == Ok::<EpochFencedToken, KeiroxError>(
                    EpochFencedToken {
                        shard_id: ShardId(sh),
                        epoch: CoordinatorEpoch(ep),
                        offset: off,
                        nonce: no,
                    },
                ),
                Err(msg) => r matches Err(KeiroxError::Internal(m)) && m@ == msg,
            },
    {
        let chars = str_chars(receipt_handle);
        let n = chars.len();
        proof {
            reveal_strlit("RH-");
        }
        if !(n >= 3 && chars[0] == 'R' && chars[1] == 'H' && chars[2] == '-') {
            proof {
                if chars@.len() >= 3 && chars@.take(3) == "RH-"@ {
                    assert(chars@.take(3)[0] == 'R');
                    assert(chars@.take(3)[1] == 'H');
                    assert(chars@.take(3)[2] == '-');
                }
            }
            return Err(internal("Invalid SQS receipt handle format"));
        }
        assert(chars@.take(3) =~= "RH-"@);
        let ghost f = |b: (usize, usize)| chars@.subrange(b.0 as int, b.1 as int);
        let mut bounds: Vec<(usize, usize)> = Vec::new();
        let mut cur: usize = 3;
        let mut i: usize = 3;
        assert(chars@.subrange(3, 3) =~= Seq::<char>::empty());
        assert(bounds@.map_values(f) =~= Seq::<Seq<char>>::empty());
        while i < n
            invariant
                n == chars@.len(),
                3 <= cur <= i <= n,
                f == (|b: (usize, usize)| chars@.subrange(b.0 as int, b.1 as int)),
                forall|k: int| 0 <= k < bounds@.len() ==> 3 <= (#[trigger] bounds@[k]).0 <= bounds@[k].1 <= n,
                split_dash(chars@.subrange(3, i as int)) == bounds@.map_values(f).push(
                    chars@.subrange(cur as int, i as int),
                ),
            decreases n - i,
        {
            let ghost prev = chars@.subrange(3, i as int);
            let ghost prev_bounds = bounds@;
            let ghost prev_cur = cur;
            if chars[i] == '-' {
                bounds.push((cur, i));
                cur = i + 1;
            }
            i = i + 1;
            proof {
                let now = chars@.subrange(3, i as int);
                assert(now.drop_last() =~= prev);
                assert(now.last() == chars@[i - 1]);
                if chars@[i - 1] == '-' {
                    assert(bounds@.map_values(f) =~= prev_bounds.map_values(f).push(
                        chars@.subrange(prev_cur as int, i - 1),
                    ));
                    assert(chars@.subrange(cur as int, i as int) =~= Seq::<char>::empty());
                } else {
                    assert(bounds@ == prev_bounds);
                    assert(chars@.subrange(cur as int, i as int) =~= chars@.subrange(
                        cur as int,
                        i - 1,
                    ).push(chars@[i - 1]));
                }
            }
        }
        assert(chars@.subrange(3, n as int) =~= receipt_handle@.skip(3));
        if bounds.len() != 3 {
            return Err(internal("Malformed SQS receipt handle segments"));
        }
        let ghost parts = split_dash(receipt_handle@.skip(3));
        assert(parts[0] == f(bounds@[0]));
        assert(parts[1] == f(bounds@[1]));
        assert(parts[2] == f(bounds@[2]));
        assert(parts[3] == chars@.subrange(cur as int, n as int));
        let b0 = bounds[0];
        let b1 = bounds[1];
        let b2 = bounds[2];
        let shard = match parse_hex(&chars, b0.0, b0.1, 0xFFFF_FFFF) {
            Some(v) => v,
            None => {
                return Err(internal("Invalid shard_id in receipt handle"));
            },
        };
        let epoch = match parse_hex(&chars, b1.0, b1.1, 0xFFFF_FFFF_FFFF_FFFF) {
            Some(v) => v,
            None => {
                return Err(internal("Invalid epoch in receipt handle"));
            },
        };
        let offset = match parse_hex(&chars, b2.0, b2.1, 0xFFFF_FFFF_FFFF_FFFF) {
            Some(v) => v,
            None => {
                return Err(internal("Invalid offset in receipt handle"));
            },
        };
        let nonce = match parse_hex(&chars, cur, n, 0xFFFF_FFFF) {
            Some(v) => v,
            None => {
                return Err(internal("Invalid nonce in receipt handle"));
            },
        };
        Ok(
            EpochFencedToken::new(
                ShardId(shard as u32),
                CoordinatorEpoch(epoch),
                offset,
                nonce as u32,
            ),
        )
    }
}

fn internal(msg: &str) -> (e: KeiroxError)
    ensures
        e matches KeiroxError::Internal(m) && m@ == msg@,
{
    let mut m = String::new();
    push_str(&mut m, msg);
    KeiroxError::Internal(m)
}

proof fn lemma_split_nonempty(s: Seq<char>)
    ensures
        split_dash(s).len() >= 1,
    decreases s.len(),
{
    if s.len() > 0 {
        lemma_split_nonempty(s.drop_last());
    }
}

proof fn lemma_split_no_dash(x: Seq<char>)
    requires
        forall|i: int| 0 <= i < x.len() ==> x[i] != '-',
    ensures
        split_dash(x) == seq![x],
    decreases x.len(),
{
    if x.len() > 0 {
        lemma_split_no_dash(x.drop_last());
        assert(x.drop_last().push(x.last()) =~= x);
    } else {
        assert(x =~= Seq::<char>::empty());
    }
}

proof fn lemma_split_concat(p: Seq<char>, q: Seq<char>)
    ensures
        split_dash(p.push('-') + q) == split_dash(p) + split_dash(q),
    decreases q.len(),
{
    let w = p.push('-') + q;
    if q.len() == 0 {
        assert(w =~= p.push('-'));
        assert(w.drop_last() =~= p);
        assert(split_dash(p) + split_dash(q) =~= split_dash(p).push(Seq::<char>::empty()));
    } else {
        assert(w.drop_last() =~= p.push('-') + q.drop_last());
        assert(w.last() == q.last());
        lemma_split_concat(p, q.drop_last());
        lemma_split_nonempty(q.drop_last());
        lemma_split_nonempty(p);
        let x = split_dash(p);
        let y = split_dash(q.drop_last());
        if q.last() == '-' {
            assert((x + y).push(Seq::<char>::empty()) =~= x + y.push(Seq::<char>::empty()));
        } else {
            assert((x + y).update(x.len() + y.len() - 1, (x + y).last().push(q.last())) =~= x
                + y.update(y.len() - 1, y.last().push(q.last())));
        }
    }
}

proof fn lemma_pow16_values()
    ensures
        pow16(8) == 0x1_0000_0000,
        pow16(16) == 0x1_0000_0000_0000_0000,
{
    reveal_with_fuel(pow16, 17);
}

proof fn lemma_parse_fixed(n: nat, width: nat, max: nat)
    requires
        width > 0,
        n < pow16(width),
        n <= max,
    ensures
        parse_hex_unsigned(hex_fixed(n, width), max) == Some(n),
{
    lemma_hex_fixed_len(n, width);
    lemma_hex_fixed_chars(n, width);
    lemma_hex_fixed_value(n, width);
    assert(hex_fixed(n, width)[0] != '+');
}

/// A receipt handle decodes back to the token it was encoded from.
pub proof fn law_receipt_handle_roundtrip(t: EpochFencedToken)
    ensures
        decode_handle(receipt_handle_text(t)) == Ok::<(u32, u64, u64, u32), Seq<char>>(
            (t.shard_id.0, t.epoch.0, t.offset, t.nonce),
        ),
{
    reveal_strlit("RH-");
    reveal_strlit("-");
    let a = hex_fixed(t.shard_id.0 as nat, 8);
    let b = hex_fixed(t.epoch.0 as nat, 16);
    let c = hex_fixed(t.offset as nat, 16);
    let d = hex_fixed(t.nonce as nat, 8);
    let s = receipt_handle_text(t);
    lemma_hex_fixed_len(t.shard_id.0 as nat, 8);
    lemma_hex_fixed_chars(t.shard_id.0 as nat, 8);
    lemma_hex_fixed_chars(t.epoch.0 as nat, 16);
    lemma_hex_fixed_chars(t.offset as nat, 16);
    lemma_hex_fixed_chars(t.nonce as nat, 8);
    assert(s.take(3) =~= "RH-"@);
    let rest = s.skip(3);
    assert(rest =~= a.push('-') + (b.push('-') + (c.push('-') + d)));
    lemma_split_no_dash(a);
    lemma_split_no_dash(b);
    lemma_split_no_dash(c);
    lemma_split_no_dash(d);
    lemma_split_concat(c, d);
    lemma_split_concat(b, c.push('-') + d);
    lemma_split_concat(a, b.push('-') + (c.push('-') + d));
    let parts = split_dash(rest);
    assert(parts =~= seq![a, b, c, d]);
    lemma_pow16_values();
    lemma_parse_fixed(t.shard_id.0 as nat, 8, u32::MAX as nat);
    lemma_parse_fixed(t.epoch.0 as nat, 16, u64::MAX as nat);
    lemma_parse_fixed(t.offset as nat, 16, u64::MAX as nat);
    lemma_parse_fixed(t.nonce as nat, 8, u32::MAX as nat);
}

} // verus!
