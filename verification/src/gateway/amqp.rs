//! AMQP translation for direct and default exchanges: a routing key maps to a
//! tenant-scoped stream, and topic or headers exchanges are refused.
use crate::digest::{xxh64_digest, xxhash64};
use crate::error::KeiroxError;
use crate::gateway::topic_mapper::{tenant_stream, tenant_stream_bytes};
use crate::model::{StreamId, TenantId};
use crate::text::{push_str, str_chars, str_equal};
use vstd::prelude::*;
use vstd::utf8::encode_utf8;

verus! {

/// AMQP exchange types.
#[derive(Debug, Clone, Copy, PartialEq, Eq, Structural)]
pub enum AmqpExchangeType {
    /// Default direct exchange (empty name).
    DefaultDirect,
    /// Named direct exchange.
    Direct,
    /// Fanout exchange.
    Fanout,
    /// Topic exchange (refused).
    TopicUnsupported,
    /// Headers exchange (refused).
    HeadersUnsupported,
}

/// Request to publish a message via AMQP basic.publish.
#[derive(Debug, Clone)]
pub struct AmqpPublishRequest {
    /// Exchange name.
    pub exchange: String,
    /// Routing key.
    pub routing_key: String,
    /// Mandatory flag.
    pub mandatory: bool,
    /// Immediate flag.
    pub immediate: bool,
    /// Message payload.
    pub payload: Vec<u8>,
    /// Content type.
    pub content_type: String,
    /// Message headers.
    pub headers: Vec<(String, String)>,
}

/// Publisher confirmation returned after a durable append.
#[derive(Debug, Clone)]
pub struct AmqpPublishConfirmation {
    /// Offset the message was stored at.
    pub offset: u64,
    /// Exchange name.
    pub exchange: String,
    /// Routing key.
    pub routing_key: String,
}

/// `t` occurs in `s` as a contiguous piece.
pub open spec fn contains_text(s: Seq<char>, t: Seq<char>) -> bool {
    exists|i: int| 0 <= i && i + t.len() <= s.len() && #[trigger] s.subrange(i, i + t.len()) == t
}

fn find_text(s: &Vec<char>, t: &Vec<char>) -> (b: bool)
    ensures
        b == contains_text(s@, t@),
{
    if t.len() > s.len() {
        proof {
            if contains_text(s@, t@) {
                let i = choose|i: int| 0 <= i && i + t@.len() <= s@.len() && #[trigger] s@.subrange(i, i + t@.len()) == t@;
            }
        }
        return false;
    }
    let mut i: usize = 0;
    let last = s.len() - t.len();
    while i <= last
        invariant
            last == s@.len() - t@.len(),
            s@.len() <= usize::MAX,
            t@.len() <= s@.len(),
            i <= s@.len() - t@.len() + 1,
            forall|k: int| 0 <= k < i ==> #[trigger] s@.subrange(k, k + t@.len()) != t@,
        decreases last + 1 - i,
    {
        let mut j: usize = 0;
        let mut same = true;
        while j < t.len()
            invariant
                i + t@.len() <= s@.len(),
                s@.len() <= usize::MAX,
                j <= t@.len(),
                same == forall|q: int| 0 <= q < j ==> s@[i + q] == t@[q],
            decreases t.len() - j,
        {
            if s[i + j] != t[j] {
                same = false;
            }
            j = j + 1;
        }
        if same {
            assert(s@.subrange(i as int, i + t@.len()) =~= t@);
            return true;
        }
        proof {
            let q = choose|q: int| 0 <= q < t@.len() && s@[i + q] != t@[q];
            assert(s@.subrange(i as int, i + t@.len())[q] != t@[q]);
        }
        i = i + 1;
    }
    proof {
        if contains_text(s@, t@) {
            let k = choose|k: int| 0 <= k && k + t@.len() <= s@.len() && #[trigger] s@.subrange(k, k + t@.len()) == t@;
            assert(k < i);
        }
    }
    false
}

/// Message of a refused topic exchange.
pub open spec fn topic_refusal_text() -> Seq<char> {
    "AMQP topic exchange topology is unsupported in Phase 4 certified subset per ADR-070"@
}

/// Message of a refused headers exchange.
pub open spec fn headers_refusal_text() -> Seq<char> {
    "AMQP headers exchange topology is unsupported in Phase 4 certified subset per ADR-070"@
}

/// AMQP Gateway Server for one tenant.
#[derive(Debug, Clone, Copy)]
pub struct AmqpGatewayServer {
    tenant_id: TenantId,
}

impl AmqpGatewayServer {
    /// The tenant served.
    pub closed spec fn tenant(&self) -> TenantId {
        self.tenant_id
    }

    /// Create a new AMQP gateway for a tenant.
    pub fn new(tenant_id: TenantId) -> (r: Self)
        ensures
            r.tenant() == tenant_id,
    {
        AmqpGatewayServer { tenant_id }
    }

    /// Tenant identifier for gateway operations.
    pub fn tenant_id(&self) -> (t: TenantId)
        ensures
            t == self.tenant(),
    {
        self.tenant_id
    }

    /// Resolve the stream for a publish: topic exchanges (`amq.topic` or a name containing
    /// `.topic.`) and the headers exchange are refused; otherwise the routing key maps to
    /// the tenant's first 8 bytes followed by its xxHash64.
    pub fn resolve_stream(&self, exchange: &str, routing_key: &str) -> (r: Result<StreamId, KeiroxError>)
        ensures
            (exchange@ == "amq.topic"@ || contains_text(exchange@, ".topic."@)) ==> (r matches Err(
                KeiroxError::Internal(m),
            ) && m@ == topic_refusal_text()),
            !(exchange@ == "amq.topic"@ || contains_text(exchange@, ".topic."@)) && exchange@
                == "amq.headers"@ ==> (r matches Err(KeiroxError::Internal(m)) && m@
                == headers_refusal_text()),
            !(exchange@ == "amq.topic"@ || contains_text(exchange@, ".topic."@)) && exchange@
                != "amq.headers"@ ==> (r matches Ok(s) && s.0@ == tenant_stream_bytes(
                self.tenant(),
                xxh64_digest(0, encode_utf8(routing_key@)),
            )),
    {
        let ex = str_chars(exchange);
        let pat = str_chars(".topic.");
        if str_equal(exchange, "amq.topic") || find_text(&ex, &pat) {
            let mut m = String::new();
            push_str(
                &mut m,
                "AMQP topic exchange topology is unsupported in Phase 4 certified subset per ADR-070",
            );
            return Err(KeiroxError::Internal(m));
        }
        if str_equal(exchange, "amq.headers") {
            let mut m = String::new();
            push_str(
                &mut m,
                "AMQP headers exchange topology is unsupported in Phase 4 certified subset per ADR-070",
            );
            return Err(KeiroxError::Internal(m));
        }
        let h = xxhash64(0, routing_key.as_bytes());
        Ok(tenant_stream(self.tenant_id, h))
    }

    /// The confirmation of a publish stored at `offset`.
    pub fn publish_confirmation(offset: u64, req: AmqpPublishRequest) -> (c: AmqpPublishConfirmation)
        ensures
            c.offset == offset,
            c.exchange == req.exchange,
            c.routing_key == req.routing_key,
    {
        AmqpPublishConfirmation { offset, exchange: req.exchange, routing_key: req.routing_key }
    }
}

} // verus!
