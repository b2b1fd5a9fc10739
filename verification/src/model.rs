//! Domain identifiers: tenants, micro-streams and log offsets.
use crate::text::{hex_bytes, push_hex_bytes, push_str};
use vstd::prelude::*;

verus! {

/// Monotonic log offset.
pub type Offset = u64;

/// Byte-wise equality of two 16-byte identifiers.
pub fn bytes16_eq(a: &[u8; 16], b: &[u8; 16]) -> (r: bool)
    ensures
        r == (a@ == b@),
{
    let mut i: usize = 0;
    while i < 16
        invariant
            0 <= i <= 16,
            a@.len() == 16,
            b@.len() == 16,
            forall|j: int| 0 <= j < i ==> a@[j] == b@[j],
        decreases 16 - i,
    {
        if a[i] != b[i] {
            return false;
        }
        i = i + 1;
    }
    assert(a@ =~= b@);
    true
}

/// 16-byte UUID representation for tenants.
#[derive(Debug, Clone, Copy, PartialOrd, Ord, Hash)]
pub struct TenantId(pub [u8; 16]);

impl PartialEq for TenantId {
    fn eq(&self, other: &Self) -> (r: bool) {
        bytes16_eq(&self.0, &other.0)
    }
}

impl Eq for TenantId {}

impl vstd::std_specs::cmp::PartialEqSpecImpl for TenantId {
    open spec fn obeys_eq_spec() -> bool {
        true
    }

    open spec fn eq_spec(&self, other: &Self) -> bool {
        self.0@ == other.0@
    }
}

/// Text of an identifier: a prefix, then two hexadecimal digits per byte.
pub open spec fn id_text(prefix: Seq<char>, bytes: Seq<u8>) -> Seq<char> {
    prefix + hex_bytes(bytes)
}

impl TenantId {
    /// Renders `tenant-` followed by the 32 hexadecimal digits of the identifier.
    pub fn to_string(&self) -> (s: String)
        ensures
            s@ == id_text("tenant-"@, self.0@),
    {
        let mut s = String::new();
        push_str(&mut s, "tenant-");
        push_hex_bytes(&mut s, &self.0);
        s
    }
}

/// 16-byte UUID representation for micro-streams.
#[derive(Debug, Clone, Copy, PartialOrd, Ord, Hash)]
pub struct StreamId(pub [u8; 16]);

impl PartialEq for StreamId {
    fn eq(&self, other: &Self) -> (r: bool) {
        bytes16_eq(&self.0, &other.0)
    }
}

impl Eq for StreamId {}

impl vstd::std_specs::cmp::PartialEqSpecImpl for StreamId {
    open spec fn obeys_eq_spec() -> bool {
        true
    }

    open spec fn eq_spec(&self, other: &Self) -> bool {
        self.0@ == other.0@
    }
}

impl StreamId {
    /// Renders `stream-` followed by the 32 hexadecimal digits of the identifier.
    pub fn to_string(&self) -> (s: String)
        ensures
            s@ == id_text("stream-"@, self.0@),
    {
        let mut s = String::new();
        push_str(&mut s, "stream-");
        push_hex_bytes(&mut s, &self.0);
        s
    }
}

} // verus!
