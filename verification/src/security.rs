//! Envelope encryption with per-tenant data keys, crypto-shredding with erasure proofs,
//! and a tamper-evident, hash-chained audit trail.
use crate::digest::{
    aead_error_text, aes256gcm_open, aes256gcm_seal, aes_gcm_open, aes_gcm_seal, crc32,
    crc32_checksum, fill_random, sha256, sha256_digest,
};
use crate::error::KeiroxError;
use crate::model::{StreamId, TenantId};
use crate::keyed::{
    lemma_pairs_absent, lemma_pairs_empty, lemma_pairs_lookup, lemma_pairs_push,
    lemma_pairs_update, pairs_map, pairs_unique,
};
use crate::text::{append_bytes, debug_bytes, decimal, push_debug_bytes, push_decimal, push_str};
use vstd::bytes::{spec_u64_to_le_bytes, u64_to_le_bytes};
use vstd::utf8::decode_utf8;
use vstd::prelude::*;
use vstd::utf8::encode_utf8;

verus! {

/// Unique identifier for a Data Encryption Key (DEK).
#[derive(Debug, Clone, Copy, PartialEq, Eq, Structural, Hash)]
pub struct DekId(pub u64);

/// `{:?}` of a key id: `DekId(n)`.
pub open spec fn dek_debug(d: DekId) -> Seq<char> {
    "DekId("@ + decimal(d.0 as nat) + ")"@
}

/// `{:?}` of a tenant id: `TenantId([b0, b1, ...])`.
pub open spec fn tenant_debug(t: TenantId) -> Seq<char> {
    "TenantId("@ + debug_bytes(t.0@) + ")"@
}

fn push_dek_debug(s: &mut String, d: DekId)
    ensures
        final(s)@ == old(s)@ + dek_debug(d),
{
    push_str(s, "DekId(");
    push_decimal(s, d.0);
    push_str(s, ")");
}

fn push_tenant_debug(s: &mut String, t: TenantId)
    ensures
        final(s)@ == old(s)@ + tenant_debug(t),
{
    push_str(s, "TenantId(");
    push_debug_bytes(s, &t.0);
    push_str(s, ")");
}

/// The key under which a tenant's data key is kept.
pub open spec fn key_of(t: TenantId, d: DekId) -> (Seq<u8>, u64) {
    (t.0@, d.0)
}

/// Associated data bound into every ciphertext: tenant bytes, then stream bytes.
pub open spec fn binding_aad(t: TenantId, s: StreamId) -> Seq<u8> {
    t.0@ + s.0@
}

fn make_aad(t: TenantId, s: StreamId) -> (aad: Vec<u8>)
    ensures
        aad@ == binding_aad(t, s),
{
    let mut aad: Vec<u8> = Vec::new();
    let mut i: usize = 0;
    while i < 16
        invariant
            i <= 16,
            t.0@.len() == 16,
            aad@ == t.0@.take(i as int),
        decreases 16 - i,
    {
        aad.push(t.0[i]);
        i = i + 1;
        assert(aad@ =~= t.0@.take(i as int));
    }
    let mut j: usize = 0;
    while j < 16
        invariant
            j <= 16,
            t.0@.len() == 16,
            s.0@.len() == 16,
            aad@ == t.0@ + s.0@.take(j as int),
        decreases 16 - j,
    {
        aad.push(s.0[j]);
        j = j + 1;
        assert(aad@ =~= t.0@ + s.0@.take(j as int));
    }
    assert(t.0@.take(16) =~= t.0@);
    assert(s.0@.take(16) =~= s.0@);
    aad
}

/// Message of a data key that is missing or destroyed.
pub open spec fn dek_missing_text(t: TenantId, d: DekId) -> Seq<char> {
    "DEK "@ + dek_debug(d) + " for tenant "@ + tenant_debug(t) + " not found or destroyed"@
}

/// Message of a crypto-shredded data key.
pub open spec fn dek_shredded_text(t: TenantId, d: DekId) -> Seq<char> {
    "Crypto-shredded: DEK "@ + dek_debug(d) + " for tenant "@ + tenant_debug(t) + " is destroyed"@
}

/// Encrypted ciphertext payload containing 12-byte nonce, ciphertext, and 16-byte auth tag.
#[derive(Debug, Clone, PartialEq, Eq)]
pub struct EncryptedPayload {
    /// DEK ID used to encrypt this payload.
    pub dek_id: DekId,
    /// 12-byte initialization vector / nonce.
    pub nonce: [u8; 12],
    /// Ciphertext bytes including authenticated tag.
    pub ciphertext: Vec<u8>,
}

/// KMS Envelope Provider managing key generation, envelope encryption, and DEK lifecycle.
pub struct KmsEnvelopeProvider {
    master_key: [u8; 32],
    keys: Vec<(TenantId, DekId, [u8; 32])>,
}

/// Keys of a key table.
pub open spec fn key_table_key(e: (TenantId, DekId, [u8; 32])) -> (Seq<u8>, u64) {
    key_of(e.0, e.1)
}

/// No key occurs twice in a key table.
pub open spec fn key_table_unique(s: Seq<(TenantId, DekId, [u8; 32])>) -> bool {
    forall|i: int, j: int| 0 <= i < j < s.len() ==> key_table_key(s[i]) != key_table_key(s[j])
}

/// The map a key table holds.
pub open spec fn key_table_map(s: Seq<(TenantId, DekId, [u8; 32])>) -> Map<(Seq<u8>, u64), Seq<u8>> {
    Map::new(
        |k: (Seq<u8>, u64)| exists|i: int| 0 <= i < s.len() && key_table_key(s[i]) == k,
        |k: (Seq<u8>, u64)|
            {
                let i = choose|i: int| 0 <= i < s.len() && key_table_key(s[i]) == k;
                s[i].2@
            },
    )
}

proof fn lemma_key_table_lookup(s: Seq<(TenantId, DekId, [u8; 32])>, i: int)
    requires
        key_table_unique(s),
        0 <= i < s.len(),
    ensures
        key_table_map(s).contains_key(key_table_key(s[i])),
        key_table_map(s)[key_table_key(s[i])] == s[i].2@,
{
    let k = key_table_key(s[i]);
    assert(exists|j: int| 0 <= j < s.len() && key_table_key(s[j]) == k);
    let j = choose|j: int| 0 <= j < s.len() && key_table_key(s[j]) == k;
    if j < i {
        assert(key_table_key(s[j]) != key_table_key(s[i]));
    } else if j > i {
        assert(key_table_key(s[i]) != key_table_key(s[j]));
    }
}

impl KmsEnvelopeProvider {
    /// No tenant key is registered twice.
    pub closed spec fn wf(&self) -> bool {
        key_table_unique(self.keys@)
    }

    /// The registered data keys, by tenant bytes and key id.
    pub closed spec fn dek_map(&self) -> Map<(Seq<u8>, u64), Seq<u8>> {
        key_table_map(self.keys@)
    }

    /// The master key bytes.
    pub closed spec fn master(&self) -> Seq<u8> {
        self.master_key@
    }

    /// Create a new KMS Envelope Provider with a specified master key.
    pub fn new(master_key: [u8; 32]) -> (r: Self)
        ensures
            r.wf(),
            r.dek_map() == Map::<(Seq<u8>, u64), Seq<u8>>::empty(),
            r.master() == master_key@,
    {
        let r = KmsEnvelopeProvider { master_key, keys: Vec::new() };
        assert(key_table_map(r.keys@) =~= Map::<(Seq<u8>, u64), Seq<u8>>::empty());
        r
    }

    /// Initialize a provider with a random master key from the operating system.
    pub fn with_random_master_key() -> (r: Self)
        ensures
            r.wf(),
            r.dek_map() == Map::<(Seq<u8>, u64), Seq<u8>>::empty(),
    {
        let mut master_key = [0u8; 32];
        fill_random(&mut master_key);
        Self::new(master_key)
    }

    /// Access master Key Encryption Key (KEK) slice.
    pub fn master_key(&self) -> (r: &[u8; 32])
        ensures
            r@ == self.master(),
    {
        &self.master_key
    }

    fn find(&self, tenant_id: TenantId, dek_id: DekId) -> (r: Option<usize>)
        requires
            self.wf(),
        ensures
            match r {
                Some(i) => i < self.keys@.len() && key_table_key(self.keys@[i as int]) == key_of(
                    tenant_id,
                    dek_id,
                ),
                None => !self.dek_map().contains_key(key_of(tenant_id, dek_id)),
            },
    {
        let mut i: usize = 0;
        while i < self.keys.len()
            invariant
                i <= self.keys@.len(),
                forall|j: int| 0 <= j < i ==> key_table_key(self.keys@[j]) != key_of(tenant_id, dek_id),
            decreases self.keys.len() - i,
        {
            let e = &self.keys[i];
            if e.1.0 == dek_id.0 && e.0 == tenant_id {
                return Some(i);
            }
            i = i + 1;
        }
        None
    }

    /// Register a fresh random DEK for a tenant, replacing any earlier one under that id.
    pub fn generate_dek(&mut self, tenant_id: TenantId, dek_id: DekId) -> (r: Result<[u8; 32], KeiroxError>)
        requires
            old(self).wf(),
        ensures
            final(self).wf(),
            final(self).master() == old(self).master(),
            r matches Ok(k) && final(self).dek_map() == old(self).dek_map().insert(
                key_of(tenant_id, dek_id),
                k@,
            ),
    {
        let mut dek = [0u8; 32];
        fill_random(&mut dek);
        let ghost s = self.keys@;
        let entry = (tenant_id, dek_id, dek);
        match self.find(tenant_id, dek_id) {
            Some(i) => {
                self.keys.set(i, entry);
                proof {
                    let t = self.keys@;
                    assert(key_table_unique(t)) by {
                        assert forall|a: int, b: int| 0 <= a < b < t.len() implies key_table_key(t[a])
                            != key_table_key(t[b]) by {
                            assert(key_table_key(t[a]) == key_table_key(s[a]));
                            assert(key_table_key(t[b]) == key_table_key(s[b]));
                        }
                    }
                    lemma_key_table_replace(s, i as int, entry);
                }
            },
            None => {
                self.keys.push(entry);
                proof {
                    lemma_key_table_push(s, entry);
                }
            },
        }
        Ok(dek)
    }

    /// Retrieve active plaintext DEK if not erased.
    pub fn get_dek(&self, tenant_id: TenantId, dek_id: DekId) -> (r: Result<[u8; 32], KeiroxError>)
        requires
            self.wf(),
        ensures
            self.dek_map().contains_key(key_of(tenant_id, dek_id)) ==> (r matches Ok(k) && k@
                == self.dek_map()[key_of(tenant_id, dek_id)]),
            !self.dek_map().contains_key(key_of(tenant_id, dek_id)) ==> (r matches Err(
                KeiroxError::KeyDestroyed(m),
            ) && m@ == dek_missing_text(tenant_id, dek_id)),
    {
        match self.find(tenant_id, dek_id) {
            Some(i) => {
                proof {
                    lemma_key_table_lookup(self.keys@, i as int);
                }
                Ok(self.keys[i].2)
            },
            None => {
                let mut m = String::new();
                push_str(&mut m, "DEK ");
                push_dek_debug(&mut m, dek_id);
                push_str(&mut m, " for tenant ");
                push_tenant_debug(&mut m, tenant_id);
                push_str(&mut m, " not found or destroyed");
                Err(KeiroxError::KeyDestroyed(m))
            },
        }
    }

    /// Invalidate/erase a DEK from local memory; `Ok(true)` when it was there.
    pub fn erase_dek(&mut self, tenant_id: TenantId, dek_id: DekId) -> (r: Result<bool, KeiroxError>)
        requires
            old(self).wf(),
        ensures
            final(self).wf(),
            final(self).master() == old(self).master(),
            r == Ok::<bool, KeiroxError>(old(self).dek_map().contains_key(key_of(tenant_id, dek_id))),
            final(self).dek_map() == old(self).dek_map().remove(key_of(tenant_id, dek_id)),
    {
        let ghost s = self.keys@;
        match self.find(tenant_id, dek_id) {
            Some(i) => {
                self.keys.remove(i);
                proof {
                    lemma_key_table_lookup(s, i as int);
                    lemma_key_table_remove(s, i as int);
                }
                Ok(true)
            },
            None => {
                assert(key_table_map(s).remove(key_of(tenant_id, dek_id)) =~= key_table_map(s));
                Ok(false)
            },
        }
    }

    /// Encrypt with AES-256-GCM under a given nonce, binding tenant and stream as
    /// associated data.
    pub fn encrypt_with_nonce(
        &self,
        tenant_id: TenantId,
        stream_id: StreamId,
        dek_id: DekId,
        plaintext: &[u8],
        nonce: [u8; 12],
    ) -> (r: Result<EncryptedPayload, KeiroxError>)
        requires
            self.wf(),
        ensures
            !self.dek_map().contains_key(key_of(tenant_id, dek_id)) ==> (r matches Err(
                KeiroxError::KeyDestroyed(m),
            ) && m@ == dek_missing_text(tenant_id, dek_id)),
            self.dek_map().contains_key(key_of(tenant_id, dek_id)) ==> {
                let sealed = aes256gcm_seal(
                    self.dek_map()[key_of(tenant_id, dek_id)],
                    nonce@,
                    binding_aad(tenant_id, stream_id),
                    plaintext@,
                );
                &&& sealed matches Some(c) ==> (r matches Ok(p) && p.dek_id == dek_id && p.nonce@
                    == nonce@ && p.ciphertext@ == c)
                &&& sealed is None ==> (r matches Err(KeiroxError::Internal(m)) && m@
                    == "AES-GCM encryption error: "@ + "aead::Error"@)
            },
    {
        let dek = match self.get_dek(tenant_id, dek_id) {
            Ok(k) => k,
            Err(e) => {
                return Err(e);
            },
        };
        let aad = make_aad(tenant_id, stream_id);
        match aes_gcm_seal(&dek, &nonce, aad.as_slice(), plaintext) {
            Ok(ciphertext) => Ok(EncryptedPayload { dek_id, nonce, ciphertext }),
            Err(e) => {
                let mut m = String::new();
                push_str(&mut m, "AES-GCM encryption error: ");
                let t = aead_error_text(&e);
                push_str(&mut m, t.as_str());
                Err(KeiroxError::Internal(m))
            },
        }
    }

    /// Encrypt a plaintext record payload with AES-256-GCM under a fresh random nonce,
    /// binding tenant and stream as associated data.
    pub fn encrypt(&self, tenant_id: TenantId, stream_id: StreamId, dek_id: DekId, plaintext: &[u8]) -> (r:
        Result<EncryptedPayload, KeiroxError>)
        requires
            self.wf(),
        ensures
            !self.dek_map().contains_key(key_of(tenant_id, dek_id)) ==> (r matches Err(
                KeiroxError::KeyDestroyed(m),
            ) && m@ == dek_missing_text(tenant_id, dek_id)),
            r matches Ok(p) ==> self.dek_map().contains_key(key_of(tenant_id, dek_id)) && p.dek_id
                == dek_id && aes256gcm_seal(
                self.dek_map()[key_of(tenant_id, dek_id)],
                p.nonce@,
                binding_aad(tenant_id, stream_id),
                plaintext@,
            ) == Some(p.ciphertext@),
    {
        let mut nonce = [0u8; 12];
        fill_random(&mut nonce);
        self.encrypt_with_nonce(tenant_id, stream_id, dek_id, plaintext, nonce)
    }

    /// Decrypt an encrypted payload with AES-256-GCM and verify the tenant and stream
    /// binding. What `encrypt` sealed under the same key, tenant and stream opens to the
    /// original plaintext.
    pub fn decrypt(&self, tenant_id: TenantId, stream_id: StreamId, payload: &EncryptedPayload) -> (r:
        Result<Vec<u8>, KeiroxError>)
        requires
            self.wf(),
        ensures
            !self.dek_map().contains_key(key_of(tenant_id, payload.dek_id)) ==> (r matches Err(
                KeiroxError::KeyDestroyed(m),
            ) && m@ == dek_missing_text(tenant_id, payload.dek_id)),
            self.dek_map().contains_key(key_of(tenant_id, payload.dek_id)) ==> {
                let key = self.dek_map()[key_of(tenant_id, payload.dek_id)];
                let aad = binding_aad(tenant_id, stream_id);
                &&& aes256gcm_open(key, payload.nonce@, aad, payload.ciphertext@) matches Some(p)
                    ==> (r matches Ok(q) && q@ == p)
                &&& aes256gcm_open(key, payload.nonce@, aad, payload.ciphertext@) is None ==> (r matches Err(
                    KeiroxError::Internal(m),
                ) && m@ == "AES-GCM decryption/authentication error: "@ + "aead::Error"@)
                &&& forall|msg: Seq<u8>|
                    #[trigger] aes256gcm_seal(key, payload.nonce@, aad, msg) == Some(
                        payload.ciphertext@,
                    ) ==> (r matches Ok(q) && q@ == msg)
            },
    {
        let dek = match self.get_dek(tenant_id, payload.dek_id) {
            Ok(k) => k,
            Err(e) => {
                return Err(e);
            },
        };
        let aad = make_aad(tenant_id, stream_id);
        match aes_gcm_open(&dek, &payload.nonce, aad.as_slice(), payload.ciphertext.as_slice()) {
            Ok(p) => Ok(p),
            Err(e) => {
                let mut m = String::new();
                push_str(&mut m, "AES-GCM decryption/authentication error: ");
                let t = aead_error_text(&e);
                push_str(&mut m, t.as_str());
                Err(KeiroxError::Internal(m))
            },
        }
    }
}

proof fn lemma_key_table_replace(
    s: Seq<(TenantId, DekId, [u8; 32])>,
    i: int,
    e: (TenantId, DekId, [u8; 32]),
)
    requires
        key_table_unique(s),
        0 <= i < s.len(),
        key_table_key(s[i]) == key_table_key(e),
    ensures
        key_table_unique(s.update(i, e)),
        key_table_map(s.update(i, e)) == key_table_map(s).insert(key_table_key(e), e.2@),
{
    let t = s.update(i, e);
    assert forall|a: int, b: int| 0 <= a < b < t.len() implies key_table_key(t[a]) != key_table_key(
        t[b],
    ) by {
        assert(key_table_key(t[a]) == key_table_key(s[a]));
        assert(key_table_key(t[b]) == key_table_key(s[b]));
    }
    let m = key_table_map(s).insert(key_table_key(e), e.2@);
    assert forall|k: (Seq<u8>, u64)| #[trigger]
        key_table_map(t).contains_key(k) <==> m.contains_key(k) by {
        if key_table_map(s).contains_key(k) {
            let j = choose|j: int| 0 <= j < s.len() && key_table_key(s[j]) == k;
            assert(key_table_key(t[j]) == k);
        }
        if key_table_map(t).contains_key(k) {
            let j = choose|j: int| 0 <= j < t.len() && key_table_key(t[j]) == k;
            assert(key_table_key(s[j]) == k);
        }
        if k == key_table_key(e) {
            assert(key_table_key(t[i]) == k);
        }
    }
    assert forall|k: (Seq<u8>, u64)| #[trigger] key_table_map(t).contains_key(k) implies key_table_map(
        t,
    )[k] == m[k] by {
        let j = choose|j: int| 0 <= j < t.len() && key_table_key(t[j]) == k;
        lemma_key_table_lookup(t, j);
        if j != i {
            lemma_key_table_lookup(s, j);
        }
    }
    assert(key_table_map(t) =~= m);
}

proof fn lemma_key_table_push(s: Seq<(TenantId, DekId, [u8; 32])>, e: (TenantId, DekId, [u8; 32]))
    requires
        key_table_unique(s),
        !key_table_map(s).contains_key(key_table_key(e)),
    ensures
        key_table_unique(s.push(e)),
        key_table_map(s.push(e)) == key_table_map(s).insert(key_table_key(e), e.2@),
{
    let t = s.push(e);
    assert forall|a: int, b: int| 0 <= a < b < t.len() implies key_table_key(t[a]) != key_table_key(
        t[b],
    ) by {
        if b == s.len() {
            assert(key_table_key(t[a]) == key_table_key(s[a]));
            if key_table_key(s[a]) == key_table_key(e) {
                assert(key_table_map(s).contains_key(key_table_key(e)));
            }
        }
    }
    let m = key_table_map(s).insert(key_table_key(e), e.2@);
    assert forall|k: (Seq<u8>, u64)| #[trigger]
        key_table_map(t).contains_key(k) <==> m.contains_key(k) by {
        if key_table_map(s).contains_key(k) {
            let j = choose|j: int| 0 <= j < s.len() && key_table_key(s[j]) == k;
            assert(key_table_key(t[j]) == k);
        }
        if key_table_map(t).contains_key(k) {
            let j = choose|j: int| 0 <= j < t.len() && key_table_key(t[j]) == k;
            if j < s.len() {
                assert(key_table_key(s[j]) == k);
            }
        }
        if k == key_table_key(e) {
            assert(key_table_key(t[s.len() as int]) == k);
        }
    }
    assert forall|k: (Seq<u8>, u64)| #[trigger] key_table_map(t).contains_key(k) implies key_table_map(
        t,
    )[k] == m[k] by {
        let j = choose|j: int| 0 <= j < t.len() && key_table_key(t[j]) == k;
        lemma_key_table_lookup(t, j);
        if j < s.len() {
            lemma_key_table_lookup(s, j);
        }
    }
    assert(key_table_map(t) =~= m);
}

proof fn lemma_key_table_remove(s: Seq<(TenantId, DekId, [u8; 32])>, i: int)
    requires
        key_table_unique(s),
        0 <= i < s.len(),
    ensures
        key_table_unique(s.remove(i)),
        key_table_map(s.remove(i)) == key_table_map(s).remove(key_table_key(s[i])),
{
    let t = s.remove(i);
    assert forall|a: int, b: int| 0 <= a < b < t.len() implies key_table_key(t[a]) != key_table_key(
        t[b],
    ) by {
        let a2 = if a < i { a } else { a + 1 };
        let b2 = if b < i { b } else { b + 1 };
        assert(t[a] == s[a2]);
        assert(t[b] == s[b2]);
    }
    let m = key_table_map(s).remove(key_table_key(s[i]));
    assert forall|k: (Seq<u8>, u64)| #[trigger]
        key_table_map(t).contains_key(k) <==> m.contains_key(k) by {
        if m.contains_key(k) {
            let j = choose|j: int| 0 <= j < s.len() && key_table_key(s[j]) == k;
            let j2 = if j < i { j } else { j - 1 };
            assert(j != i);
            assert(t[j2] == s[j]);
        }
        if key_table_map(t).contains_key(k) {
            let j = choose|j: int| 0 <= j < t.len() && key_table_key(t[j]) == k;
            let j2 = if j < i { j } else { j + 1 };
            assert(t[j] == s[j2]);
            assert(key_table_key(s[j2]) != key_table_key(s[i]));
        }
    }
    assert forall|k: (Seq<u8>, u64)| #[trigger] key_table_map(t).contains_key(k) implies key_table_map(
        t,
    )[k] == m[k] by {
        let j = choose|j: int| 0 <= j < t.len() && key_table_key(t[j]) == k;
        let j2 = if j < i { j } else { j + 1 };
        assert(t[j] == s[j2]);
        lemma_key_table_lookup(t, j);
        lemma_key_table_lookup(s, j2);
    }
    assert(key_table_map(t) =~= m);
}

/// Record of a destroyed DEK for GDPR/CCPA crypto-shredding compliance.
#[derive(Debug, Clone)]
pub struct DestroyedKeyEntry {
    /// Owning tenant ID.
    pub tenant_id: TenantId,
    /// Destroyed DEK ID.
    pub dek_id: DekId,
    /// Associated micro-stream ID (if stream-scoped).
    pub stream_id: Option<StreamId>,
    /// Destruction timestamp (epoch nanoseconds).
    pub destroyed_at_ns: u64,
    /// Authorized operator or service principal initiating destruction.
    pub operator_id: String,
    /// Justification or ticket reference for compliance audit.
    pub reason: String,
}

impl DestroyedKeyEntry {
    /// An equal copy.
    pub fn duplicate(&self) -> (r: Self)
        ensures
            r == *self,
    {
        DestroyedKeyEntry {
            tenant_id: self.tenant_id,
            dek_id: self.dek_id,
            stream_id: self.stream_id,
            destroyed_at_ns: self.destroyed_at_ns,
            operator_id: self.operator_id.clone(),
            reason: self.reason.clone(),
        }
    }
}

/// Entries of a destruction list, keyed by tenant bytes and key id.
pub open spec fn destroyed_pairs(v: Seq<DestroyedKeyEntry>) -> Seq<((Seq<u8>, u64), DestroyedKeyEntry)> {
    v.map_values(|e: DestroyedKeyEntry| (key_of(e.tenant_id, e.dek_id), e))
}

/// Registry of destroyed keys ensuring that crypto-shredded data cannot be decrypted or restored.
#[derive(Debug)]
pub struct DestroyedKeyRegistry {
    entries: Vec<DestroyedKeyEntry>,
}

impl View for DestroyedKeyRegistry {
    type V = Map<(Seq<u8>, u64), DestroyedKeyEntry>;

    closed spec fn view(&self) -> Map<(Seq<u8>, u64), DestroyedKeyEntry> {
        pairs_map(destroyed_pairs(self.entries@))
    }
}

impl DestroyedKeyRegistry {
    /// Each destroyed key is listed once.
    pub closed spec fn wf(&self) -> bool {
        pairs_unique(destroyed_pairs(self.entries@))
    }

    /// Create a new empty destroyed key registry.
    pub fn new() -> (r: Self)
        ensures
            r.wf(),
            r@ == Map::<(Seq<u8>, u64), DestroyedKeyEntry>::empty(),
    {
        let r = DestroyedKeyRegistry { entries: Vec::new() };
        proof {
            lemma_pairs_empty(destroyed_pairs(r.entries@));
        }
        r
    }

    fn find(&self, tenant_id: TenantId, dek_id: DekId) -> (r: Option<usize>)
        requires
            self.wf(),
        ensures
            match r {
                Some(i) => i < self.entries@.len() && destroyed_pairs(self.entries@)[i as int].0
                    == key_of(tenant_id, dek_id),
                None => !self@.contains_key(key_of(tenant_id, dek_id)),
            },
    {
        let ghost p = destroyed_pairs(self.entries@);
        let mut i: usize = 0;
        while i < self.entries.len()
            invariant
                p == destroyed_pairs(self.entries@),
                i <= self.entries@.len(),
                forall|j: int| 0 <= j < i ==> p[j].0 != key_of(tenant_id, dek_id),
            decreases self.entries.len() - i,
        {
            let e = &self.entries[i];
            if e.dek_id.0 == dek_id.0 && e.tenant_id == tenant_id {
                return Some(i);
            }
            i = i + 1;
        }
        proof {
            lemma_pairs_absent(p, key_of(tenant_id, dek_id));
        }
        None
    }

    /// Record the destruction of a DEK, replacing an earlier record of the same key.
    pub fn record_destruction(&mut self, entry: DestroyedKeyEntry) -> (r: Result<(), KeiroxError>)
        requires
            old(self).wf(),
        ensures
            final(self).wf(),
            r is Ok,
            final(self)@ == old(self)@.insert(key_of(entry.tenant_id, entry.dek_id), entry),
    {
        let ghost s = self.entries@;
        let ghost k = key_of(entry.tenant_id, entry.dek_id);
        match self.find(entry.tenant_id, entry.dek_id) {
            Some(i) => {
                self.entries.set(i, entry);
                proof {
                    lemma_pairs_update(destroyed_pairs(s), i as int, entry);
                    assert(destroyed_pairs(self.entries@) =~= destroyed_pairs(s).update(
                        i as int,
                        (k, entry),
                    ));
                }
            },
            None => {
                self.entries.push(entry);
                proof {
                    lemma_pairs_push(destroyed_pairs(s), k, entry);
                    assert(destroyed_pairs(self.entries@) =~= destroyed_pairs(s).push((k, entry)));
                }
            },
        }
        Ok(())
    }

    /// Check if a DEK has been destroyed.
    pub fn is_destroyed(&self, tenant_id: TenantId, dek_id: DekId) -> (b: bool)
        requires
            self.wf(),
        ensures
            b == self@.contains_key(key_of(tenant_id, dek_id)),
    {
        match self.find(tenant_id, dek_id) {
            Some(i) => {
                proof {
                    lemma_pairs_lookup(destroyed_pairs(self.entries@), i as int);
                }
                true
            },
            None => false,
        }
    }

    /// Verify that a DEK is active, returning an error if destroyed.
    pub fn verify_active(&self, tenant_id: TenantId, dek_id: DekId) -> (r: Result<(), KeiroxError>)
        requires
            self.wf(),
        ensures
            r is Ok <==> !self@.contains_key(key_of(tenant_id, dek_id)),
            r matches Err(e) ==> (e matches KeiroxError::KeyDestroyed(m) && m@ == dek_shredded_text(
                tenant_id,
                dek_id,
            )),
    {
        if self.is_destroyed(tenant_id, dek_id) {
            let mut m = String::new();
            push_str(&mut m, "Crypto-shredded: DEK ");
            push_dek_debug(&mut m, dek_id);
            push_str(&mut m, " for tenant ");
            push_tenant_debug(&mut m, tenant_id);
            push_str(&mut m, " is destroyed");
            Err(KeiroxError::KeyDestroyed(m))
        } else {
            Ok(())
        }
    }

    /// All destroyed key entries for audit report generation, each key once.
    pub fn list_destroyed(&self) -> (r: Vec<DestroyedKeyEntry>)
        requires
            self.wf(),
        ensures
            pairs_unique(destroyed_pairs(r@)),
            pairs_map(destroyed_pairs(r@)) == self@,
    {
        let mut r: Vec<DestroyedKeyEntry> = Vec::new();
        let mut i: usize = 0;
        while i < self.entries.len()
            invariant
                i <= self.entries@.len(),
                r@ == self.entries@.take(i as int),
            decreases self.entries.len() - i,
        {
            r.push(self.entries[i].duplicate());
            i = i + 1;
            assert(r@ =~= self.entries@.take(i as int));
        }
        assert(r@ =~= self.entries@);
        r
    }
}

impl Default for DestroyedKeyRegistry {
    fn default() -> (r: Self)
        ensures
            r.wf(),
            r@ == Map::<(Seq<u8>, u64), DestroyedKeyEntry>::empty(),
    {
        DestroyedKeyRegistry::new()
    }
}

/// Cryptographic proof of erasure certificate.
#[derive(Debug, Clone)]
pub struct ErasureProof {
    /// Unique proof identifier.
    pub proof_id: String,
    /// Tenant ID subject to erasure.
    pub tenant_id: TenantId,
    /// Shredded DEK ID.
    pub dek_id: DekId,
    /// Target micro-stream (if scoped).
    pub stream_id: Option<StreamId>,
    /// Erasure timestamp (epoch nanoseconds).
    pub erased_at_ns: u64,
    /// Operator ID who executed the erasure.
    pub operator_id: String,
    /// Legal/compliance justification.
    pub reason: String,
    /// CRC-32 over the erasure attributes.
    pub verification_checksum: u32,
}

/// The bytes an erasure proof's checksum covers, in order: proof id, tenant, key id and
/// erasure time (little endian), operator, reason.
pub open spec fn proof_bytes(p: ErasureProof) -> Seq<u8> {
    encode_utf8(p.proof_id@) + p.tenant_id.0@ + spec_u64_to_le_bytes(p.dek_id.0) + spec_u64_to_le_bytes(
        p.erased_at_ns,
    ) + encode_utf8(p.operator_id@) + encode_utf8(p.reason@)
}

impl ErasureProof {
    /// Verify the integrity of the erasure proof: its checksum is the CRC-32 of its
    /// attributes.
    pub fn is_valid(&self) -> (b: bool)
        ensures
            b == (self.verification_checksum == crc32_checksum(proof_bytes(*self))),
    {
        let expected_crc = self.compute_checksum();
        self.verification_checksum == expected_crc
    }

    fn compute_checksum(&self) -> (c: u32)
        ensures
            c == crc32_checksum(proof_bytes(*self)),
    {
        let mut data: Vec<u8> = Vec::new();
        append_bytes(&mut data, self.proof_id.as_str().as_bytes());
        append_bytes(&mut data, &self.tenant_id.0);
        let d = u64_to_le_bytes(self.dek_id.0);
        append_bytes(&mut data, d.as_slice());
        let t = u64_to_le_bytes(self.erased_at_ns);
        append_bytes(&mut data, t.as_slice());
        append_bytes(&mut data, self.operator_id.as_str().as_bytes());
        append_bytes(&mut data, self.reason.as_str().as_bytes());
        crc32(data.as_slice())
    }
}

/// Identifier of the proof of one shredding: `PROOF-SHRED-{first tenant byte}-{dek}-{time}`.
pub open spec fn shred_proof_id(t: TenantId, d: DekId, now_ns: u64) -> Seq<char> {
    "PROOF-SHRED-"@ + decimal(t.0@[0] as nat) + "-"@ + decimal(d.0 as nat) + "-"@ + decimal(
        now_ns as nat,
    )
}

/// Crypto-shredding engine executing GDPR/CCPA erasure workflows.
pub struct CryptoShreddingEngine {
    kms: KmsEnvelopeProvider,
    registry: DestroyedKeyRegistry,
}

impl CryptoShreddingEngine {
    /// Both parts are well formed.
    pub closed spec fn wf(&self) -> bool {
        self.kms.wf() && self.registry.wf()
    }

    /// The key provider.
    pub closed spec fn kms_view(&self) -> KmsEnvelopeProvider {
        self.kms
    }

    /// The registry of destroyed keys.
    pub closed spec fn registry_view(&self) -> DestroyedKeyRegistry {
        self.registry
    }

    /// Create a new CryptoShreddingEngine over a key provider and a registry.
    pub fn new(kms: KmsEnvelopeProvider, registry: DestroyedKeyRegistry) -> (r: Self)
        requires
            kms.wf(),
            registry.wf(),
        ensures
            r.wf(),
            r.kms_view() == kms,
            r.registry_view() == registry,
    {
        CryptoShreddingEngine { kms, registry }
    }

    /// The key provider.
    pub fn kms(&self) -> (r: &KmsEnvelopeProvider)
        ensures
            *r == self.kms_view(),
    {
        &self.kms
    }

    /// The key provider, to register keys.
    pub fn kms_mut(&mut self) -> (r: &mut KmsEnvelopeProvider)
        ensures
            *r == old(self).kms_view(),
            final(self).kms_view() == *final(r),
            final(self).registry_view() == old(self).registry_view(),
    {
        &mut self.kms
    }

    /// The registry of destroyed keys.
    pub fn registry(&self) -> (r: &DestroyedKeyRegistry)
        ensures
            *r == self.registry_view(),
    {
        &self.registry
    }

    /// Execute crypto-shredding for a DEK: erase it from the key provider, record its
    /// destruction, and produce a checksummed erasure proof.
    pub fn shred_dek(
        &mut self,
        tenant_id: TenantId,
        stream_id: Option<StreamId>,
        dek_id: DekId,
        operator_id: String,
        reason: String,
        now_ns: u64,
    ) -> (r: Result<ErasureProof, KeiroxError>)
        requires
            old(self).wf(),
        ensures
            final(self).wf(),
            final(self).kms_view().dek_map() == old(self).kms_view().dek_map().remove(
                key_of(tenant_id, dek_id),
            ),
            final(self).kms_view().master() == old(self).kms_view().master(),
            final(self).registry_view()@ == old(self).registry_view()@.insert(
                key_of(tenant_id, dek_id),
                DestroyedKeyEntry {
                    tenant_id,
                    dek_id,
                    stream_id,
                    destroyed_at_ns: now_ns,
                    operator_id,
                    reason,
                },
            ),
            r matches Ok(p) && p.proof_id@ == shred_proof_id(tenant_id, dek_id, now_ns)
                && p.tenant_id == tenant_id && p.dek_id == dek_id && p.stream_id == stream_id
                && p.erased_at_ns == now_ns && p.operator_id == operator_id && p.reason == reason
                && p.verification_checksum == crc32_checksum(proof_bytes(p)),
    {
        match self.kms.erase_dek(tenant_id, dek_id) {
            Ok(_) => {},
            Err(e) => {
                return Err(e);
            },
        }
        let entry = DestroyedKeyEntry {
            tenant_id,
            dek_id,
            stream_id,
            destroyed_at_ns: now_ns,
            operator_id: operator_id.clone(),
            reason: reason.clone(),
        };
        match self.registry.record_destruction(entry) {
            Ok(()) => {},
            Err(e) => {
                return Err(e);
            },
        }
        let mut proof_id = String::new();
        push_str(&mut proof_id, "PROOF-SHRED-");
        push_decimal(&mut proof_id, tenant_id.0[0] as u64);
        push_str(&mut proof_id, "-");
        push_decimal(&mut proof_id, dek_id.0);
        push_str(&mut proof_id, "-");
        push_decimal(&mut proof_id, now_ns);
        let mut proof = ErasureProof {
            proof_id,
            tenant_id,
            dek_id,
            stream_id,
            erased_at_ns: now_ns,
            operator_id,
            reason,
            verification_checksum: 0,
        };
        proof.verification_checksum = proof.compute_checksum();
        Ok(proof)
    }
}

/// Action type for tamper-evident audit logging.
#[derive(Debug, Clone, PartialEq, Eq, Structural)]
pub enum AuditAction {
    /// Ingest produce batch.
    Produce,
    /// Consume stream.
    Consume,
    /// Lease offset.
    Lease,
    /// Acknowledge offset.
    Ack,
    /// Negative acknowledge offset.
    Nack,
    /// Dead-letter queue eviction.
    EvictDlq,
    /// Crypto-shredding key destruction.
    CryptoShred,
    /// Schema registration or evolution.
    SchemaRegister,
    /// Lakehouse snapshot commit.
    LakehouseCommit,
    /// Administrative cluster configuration change.
    AdminConfig,
    /// Access control authorization failure.
    AuthFailure,
}

/// Tamper-evident audit event.
#[derive(Debug, Clone)]
pub struct AuditEvent {
    /// Timestamp of event (nanoseconds).
    pub timestamp_ns: u64,
    /// Principal ID executing action.
    pub principal_id: String,
    /// Tenant context.
    pub tenant_id: TenantId,
    /// Target resource identifier.
    pub resource: String,
    /// Action executed.
    pub action: AuditAction,
    /// Outcome status (e.g. "ALLOW", "DENY", "SUCCESS", "FAILED").
    pub outcome: String,
    /// Additional context or metadata.
    pub details: String,
}

/// Chained tamper-evident audit record with SHA-256 chaining.
#[derive(Debug, Clone)]
pub struct AuditRecord {
    /// Monotonic sequence index.
    pub sequence: u64,
    /// 32-byte SHA-256 hash of preceding audit record.
    pub previous_hash: [u8; 32],
    /// Audit event data.
    pub event: AuditEvent,
    /// 32-byte SHA-256 hash of this audit record.
    pub record_hash: [u8; 32],
}

/// The previous hash of the first record: 32 bytes of `0x5A`.
pub open spec fn genesis_hash() -> Seq<u8> {
    Seq::new(32, |i: int| 0x5Au8)
}

/// The bytes a record's hash covers, in order: sequence (little endian), previous hash,
/// event time (little endian), principal, tenant, resource, outcome, details.
pub open spec fn audit_bytes(r: AuditRecord) -> Seq<u8> {
    spec_u64_to_le_bytes(r.sequence) + r.previous_hash@ + spec_u64_to_le_bytes(r.event.timestamp_ns)
        + encode_utf8(r.event.principal_id@) + r.event.tenant_id.0@ + encode_utf8(r.event.resource@)
        + encode_utf8(r.event.outcome@) + encode_utf8(r.event.details@)
}

impl AuditRecord {
    /// Genesis block previous hash constant.
    pub const GENESIS_HASH: [u8; 32] = [
        0x5A, 0x5A, 0x5A, 0x5A, 0x5A, 0x5A, 0x5A, 0x5A, 0x5A, 0x5A, 0x5A, 0x5A, 0x5A, 0x5A, 0x5A, 0x5A, 0x5A, 0x5A, 0x5A, 0x5A, 0x5A, 0x5A, 0x5A, 0x5A, 0x5A, 0x5A, 0x5A, 0x5A, 0x5A, 0x5A, 0x5A, 0x5A,
    ];

    /// Compute the SHA-256 hash of this audit record.
    pub fn compute_hash(&self) -> (h: [u8; 32])
        ensures
            h@ == sha256_digest(audit_bytes(*self)),
    {
        let mut data: Vec<u8> = Vec::new();
        let sq = u64_to_le_bytes(self.sequence);
        append_bytes(&mut data, sq.as_slice());
        append_bytes(&mut data, &self.previous_hash);
        let ts = u64_to_le_bytes(self.event.timestamp_ns);
        append_bytes(&mut data, ts.as_slice());
        append_bytes(&mut data, self.event.principal_id.as_str().as_bytes());
        append_bytes(&mut data, &self.event.tenant_id.0);
        append_bytes(&mut data, self.event.resource.as_str().as_bytes());
        append_bytes(&mut data, self.event.outcome.as_str().as_bytes());
        append_bytes(&mut data, self.event.details.as_str().as_bytes());
        sha256(data.as_slice())
    }
}

/// The previous hash the record at `i` must carry.
pub open spec fn expected_prev(records: Seq<AuditRecord>, i: int) -> Seq<u8> {
    if i == 0 {
        genesis_hash()
    } else {
        records[i - 1].record_hash@
    }
}

/// The record at `i` carries its position, its predecessor's hash and its own hash.
pub open spec fn record_sound(records: Seq<AuditRecord>, i: int) -> bool {
    &&& records[i].sequence == i
    &&& records[i].previous_hash@ == expected_prev(records, i)
    &&& records[i].record_hash@ == sha256_digest(audit_bytes(records[i]))
}

/// Every record of the chain is sound.
pub open spec fn chain_valid(records: Seq<AuditRecord>) -> bool {
    forall|i: int| 0 <= i < records.len() ==> record_sound(records, i)
}

/// The record at `i` is the first unsound one.
pub open spec fn chain_fails_at(records: Seq<AuditRecord>, i: int) -> bool {
    &&& 0 <= i < records.len()
    &&& forall|j: int| 0 <= j < i ==> record_sound(records, j)
    &&& !record_sound(records, i)
}

/// The error the integrity check reports for the unsound record at `i`.
pub open spec fn chain_failure_text(records: Seq<AuditRecord>, i: int) -> Seq<char> {
    if records[i].sequence != i {
        "Audit record sequence gap at "@ + decimal(i as nat)
    } else if records[i].previous_hash@ != expected_prev(records, i) {
        "Audit record tamper detected: invalid previous_hash at sequence "@ + decimal(i as nat)
    } else {
        "Audit record tamper detected: invalid record_hash at sequence "@ + decimal(i as nat)
    }
}

fn bytes32_eq(a: &[u8; 32], b: &[u8; 32]) -> (r: bool)
    ensures
        r == (a@ == b@),
{
    let mut i: usize = 0;
    while i < 32
        invariant
            0 <= i <= 32,
            a@.len() == 32,
            b@.len() == 32,
            forall|j: int| 0 <= j < i ==> a@[j] == b@[j],
        decreases 32 - i,
    {
        if a[i] != b[i] {
            return false;
        }
        i = i + 1;
    }
    assert(a@ =~= b@);
    true
}

/// `b` is `a` with one more record for event `e`: it carries the next sequence number,
/// the hash of the last record of `a` (or the genesis hash) and its own hash.
pub open spec fn appended_record(a: Seq<AuditRecord>, e: AuditEvent, b: Seq<AuditRecord>) -> bool {
    &&& b.len() == a.len() + 1
    &&& b.drop_last() == a
    &&& b.last().sequence == a.len()
    &&& b.last().previous_hash@ == expected_prev(b, a.len() as int)
    &&& b.last().event == e
    &&& b.last().record_hash@ == sha256_digest(audit_bytes(b.last()))
}

/// Tamper-evident, append-only security audit trail ledger.
#[derive(Debug)]
pub struct AuditTrailLedger {
    records: Vec<AuditRecord>,
}

impl View for AuditTrailLedger {
    type V = Seq<AuditRecord>;

    closed spec fn view(&self) -> Seq<AuditRecord> {
        self.records@
    }
}

impl AuditTrailLedger {
    /// Create a new empty audit trail ledger.
    pub fn new() -> (r: Self)
        ensures
            r@ == Seq::<AuditRecord>::empty(),
    {
        AuditTrailLedger { records: Vec::new() }
    }

    /// Append an audit event to the chain: it gets the next sequence number, the hash of
    /// the last record (or the genesis hash) and its own hash.
    pub fn record_event(&mut self, event: AuditEvent) -> (r: Result<u64, KeiroxError>)
        ensures
            r == Ok::<u64, KeiroxError>(old(self)@.len() as u64),
            appended_record(old(self)@, event, final(self)@),
            chain_valid(old(self)@) ==> chain_valid(final(self)@),
    {
        let ghost s = self.records@;
        let n = self.records.len();
        let sequence = n as u64;
        let previous_hash = if n == 0 {
            let g = AuditRecord::GENESIS_HASH;
            assert(g@ =~= genesis_hash());
            g
        } else {
            self.records[n - 1].record_hash
        };
        let mut record = AuditRecord { sequence, previous_hash, event, record_hash: [0u8; 32] };
        record.record_hash = record.compute_hash();
        self.records.push(record);
        proof {
            assert(self.records@.drop_last() =~= s);
            if chain_valid(s) {
                law_recorded_chain_verifies(s, record);
            }
        }
        Ok(sequence)
    }

    /// Verify the complete SHA-256 hash chain of the audit trail; the first unsound
    /// record is reported.
    pub fn verify_integrity(&self) -> (r: Result<(), KeiroxError>)
        ensures
            r is Ok <==> chain_valid(self@),
            r matches Err(e) ==> exists|i: int|
                #[trigger] chain_fails_at(self@, i) && (e matches KeiroxError::Internal(m) && m@
                    == chain_failure_text(self@, i)),
    {
        let ghost s = self.records@;
        let mut expected_prev_hash = AuditRecord::GENESIS_HASH;
        assert(expected_prev_hash@ =~= genesis_hash());
        let mut idx: usize = 0;
        while idx < self.records.len()
            invariant
                s == self.records@,
                idx <= s.len(),
                forall|j: int| 0 <= j < idx ==> record_sound(s, j),
                expected_prev_hash@ == expected_prev(s, idx as int),
            decreases s.len() - idx,
        {
            let record = &self.records[idx];
            if record.sequence != idx as u64 {
                let mut m = String::new();
                push_str(&mut m, "Audit record sequence gap at ");
                push_decimal(&mut m, idx as u64);
                proof {
                    assert(!record_sound(s, idx as int));
                    assert(m@ == chain_failure_text(s, idx as int));
                    assert(!chain_valid(s));
                    assert(chain_fails_at(s, idx as int));
                    assert(chain_fails_at(self@, idx as int) && m@ == chain_failure_text(
                        self@,
                        idx as int,
                    ));
                }
                return Err(KeiroxError::Internal(m));
            }
            if !bytes32_eq(&record.previous_hash, &expected_prev_hash) {
                let mut m = String::new();
                push_str(&mut m, "Audit record tamper detected: invalid previous_hash at sequence ");
                push_decimal(&mut m, idx as u64);
                proof {
                    assert(!record_sound(s, idx as int));
                    assert(m@ == chain_failure_text(s, idx as int));
                    assert(!chain_valid(s));
                    assert(chain_fails_at(s, idx as int));
                    assert(chain_fails_at(self@, idx as int) && m@ == chain_failure_text(
                        self@,
                        idx as int,
                    ));
                }
                return Err(KeiroxError::Internal(m));
            }
            let computed = record.compute_hash();
            if !bytes32_eq(&record.record_hash, &computed) {
                let mut m = String::new();
                push_str(&mut m, "Audit record tamper detected: invalid record_hash at sequence ");
                push_decimal(&mut m, idx as u64);
                proof {
                    assert(!record_sound(s, idx as int));
                    assert(m@ == chain_failure_text(s, idx as int));
                    assert(!chain_valid(s));
                    assert(chain_fails_at(s, idx as int));
                    assert(chain_fails_at(self@, idx as int) && m@ == chain_failure_text(
                        self@,
                        idx as int,
                    ));
                }
                return Err(KeiroxError::Internal(m));
            }
            expected_prev_hash = record.record_hash;
            idx = idx + 1;
        }
        Ok(())
    }

    /// Total count of audit records in ledger.
    pub fn record_count(&self) -> (n: usize)
        ensures
            n == self@.len(),
    {
        self.records.len()
    }
}

impl Default for AuditTrailLedger {
    fn default() -> (r: Self)
        ensures
            r@ == Seq::<AuditRecord>::empty(),
    {
        AuditTrailLedger::new()
    }
}

/// Appending a record that carries the next sequence number, the hash of the last record
/// (or the genesis hash) and its own hash keeps a valid chain valid: a ledger built only
/// by `record_event` always passes `verify_integrity`.
pub proof fn law_recorded_chain_verifies(records: Seq<AuditRecord>, r: AuditRecord)
    requires
        chain_valid(records),
        r.sequence == records.len(),
        r.previous_hash@ == expected_prev(records.push(r), records.len() as int),
        r.record_hash@ == sha256_digest(audit_bytes(r)),
    ensures
        chain_valid(records.push(r)),
{
    let t = records.push(r);
    assert forall|i: int| 0 <= i < t.len() implies record_sound(t, i) by {
        if i < records.len() {
            assert(t[i] == records[i]);
            assert(record_sound(records, i));
            if i > 0 {
                assert(t[i - 1] == records[i - 1]);
            }
        }
    }
}

/// A ledger that starts empty and receives only `record_event` calls: after the `i`-th
/// call it holds `i + 1` records, the `i`-th call therefore returned `Ok(i)` (its result is
/// the length before the call), the record at `i` holds the `i`-th event, and at every
/// point the whole chain is valid, so `verify_integrity` succeeds.
pub proof fn law_event_log_verifies(states: Seq<Seq<AuditRecord>>, events: Seq<AuditEvent>)
    requires
        states.len() == events.len() + 1,
        states[0].len() == 0,
        forall|i: int| 0 <= i < events.len() ==> appended_record(states[i], events[i], #[trigger] states[i + 1]),
    ensures
        forall|i: int| 0 <= i < states.len() ==> (#[trigger] states[i]).len() == i && chain_valid(states[i]),
        forall|i: int| 0 <= i < events.len() ==> (#[trigger] states[i + 1])[i].event == events[i],
{
    assert forall|i: int| 0 <= i < states.len() implies (#[trigger] states[i]).len() == i && chain_valid(states[i]) by {
        lemma_event_log_prefix(states, events, i);
    }
    assert forall|i: int| 0 <= i < events.len() implies (#[trigger] states[i + 1])[i].event == events[i] by {
        lemma_event_log_prefix(states, events, i);
        assert(appended_record(states[i], events[i], states[i + 1]));
    }
}

proof fn lemma_event_log_prefix(states: Seq<Seq<AuditRecord>>, events: Seq<AuditEvent>, k: int)
    requires
        states.len() == events.len() + 1,
        states[0].len() == 0,
        forall|i: int| 0 <= i < events.len() ==> appended_record(states[i], events[i], #[trigger] states[i + 1]),
        0 <= k < states.len(),
    ensures
        states[k].len() == k,
        chain_valid(states[k]),
    decreases k,
{
    if k > 0 {
        lemma_event_log_prefix(states, events, k - 1);
        let a = states[k - 1];
        let b = states[k];
        assert(appended_record(a, events[k - 1], b));
        assert(b =~= a.push(b.last()));
        law_recorded_chain_verifies(a, b.last());
    }
}

/// Which of the hashed fields of two records agree, in hashing order: sequence,
/// previous hash, event time, principal, tenant, resource, outcome, details.
pub open spec fn audit_fields_agree(a: AuditRecord, b: AuditRecord) -> Seq<bool> {
    seq![
        a.sequence == b.sequence,
        a.previous_hash@ == b.previous_hash@,
        a.event.timestamp_ns == b.event.timestamp_ns,
        a.event.principal_id@ == b.event.principal_id@,
        a.event.tenant_id.0@ == b.event.tenant_id.0@,
        a.event.resource@ == b.event.resource@,
        a.event.outcome@ == b.event.outcome@,
        a.event.details@ == b.event.details@,
    ]
}

proof fn lemma_middle_cancel(p: Seq<u8>, x: Seq<u8>, y: Seq<u8>, t: Seq<u8>)
    requires
        p + x + t == p + y + t,
    ensures
        x == y,
{
    let a = p + x + t;
    assert(a.len() == p.len() + x.len() + t.len());
    assert(x.len() == y.len());
    assert(x =~= a.subrange(p.len() as int, (p.len() + x.len()) as int));
    assert(y =~= (p + y + t).subrange(p.len() as int, (p.len() + y.len()) as int));
}

/// The pieces joined in order.
pub open spec fn join(s: Seq<Seq<u8>>) -> Seq<u8>
    decreases s.len(),
{
    if s.len() == 0 {
        Seq::empty()
    } else {
        join(s.drop_last()) + s.last()
    }
}

proof fn lemma_join_concat(s1: Seq<Seq<u8>>, s2: Seq<Seq<u8>>)
    ensures
        join(s1 + s2) == join(s1) + join(s2),
    decreases s2.len(),
{
    if s2.len() == 0 {
        assert(s1 + s2 =~= s1);
        assert(join(s1) + join(s2) =~= join(s1));
    } else {
        assert((s1 + s2).drop_last() =~= s1 + s2.drop_last());
        assert((s1 + s2).last() == s2.last());
        lemma_join_concat(s1, s2.drop_last());
        assert(join(s1) + join(s2.drop_last()) + s2.last() =~= join(s1) + (join(s2.drop_last()) + s2.last()));
    }
}

proof fn lemma_join_split(s: Seq<Seq<u8>>, i: int)
    requires
        0 <= i < s.len(),
    ensures
        join(s) == join(s.take(i)) + s[i] + join(s.skip(i + 1)),
{
    assert(s =~= s.take(i) + seq![s[i]] + s.skip(i + 1));
    lemma_join_concat(s.take(i) + seq![s[i]], s.skip(i + 1));
    lemma_join_concat(s.take(i), seq![s[i]]);
    let one = seq![s[i]];
    assert(one.drop_last() =~= Seq::<Seq<u8>>::empty());
    assert(join(one.drop_last()) == Seq::<u8>::empty());
    assert(one.last() == s[i]);
    assert(join(one) =~= s[i]);
}

proof fn lemma_join_fields(r: AuditRecord, p: Seq<Seq<u8>>)
    requires
        p == seq![
            spec_u64_to_le_bytes(r.sequence),
            r.previous_hash@,
            spec_u64_to_le_bytes(r.event.timestamp_ns),
            encode_utf8(r.event.principal_id@),
            r.event.tenant_id.0@,
            encode_utf8(r.event.resource@),
            encode_utf8(r.event.outcome@),
            encode_utf8(r.event.details@),
        ],
    ensures
        audit_bytes(r) == join(p),
{
    reveal_with_fuel(join, 9);
    assert(p.drop_last().drop_last().drop_last().drop_last().drop_last().drop_last().drop_last().drop_last()
        =~= Seq::<Seq<u8>>::empty());
    assert(audit_bytes(r) =~= join(p));
}

/// Records that differ in exactly one hashed field (sequence, previous hash, event time,
/// principal, tenant, resource, outcome or details) have different hashed bytes, so
/// rewriting any one field of a recorded event changes what its hash covers.
pub proof fn law_audit_bytes_cover_every_field(a: AuditRecord, b: AuditRecord, i: int)
    requires
        0 <= i < 8,
        !audit_fields_agree(a, b)[i],
        forall|j: int| 0 <= j < 8 && j != i ==> #[trigger] audit_fields_agree(a, b)[j],
    ensures
        audit_bytes(a) != audit_bytes(b),
{
    let f = audit_fields_agree(a, b);
    assert(forall|j: int| 0 <= j < 8 && j != i ==> f[j]);
    let pa = seq![
        spec_u64_to_le_bytes(a.sequence),
        a.previous_hash@,
        spec_u64_to_le_bytes(a.event.timestamp_ns),
        encode_utf8(a.event.principal_id@),
        a.event.tenant_id.0@,
        encode_utf8(a.event.resource@),
        encode_utf8(a.event.outcome@),
        encode_utf8(a.event.details@),
    ];
    let pb = seq![
        spec_u64_to_le_bytes(b.sequence),
        b.previous_hash@,
        spec_u64_to_le_bytes(b.event.timestamp_ns),
        encode_utf8(b.event.principal_id@),
        b.event.tenant_id.0@,
        encode_utf8(b.event.resource@),
        encode_utf8(b.event.outcome@),
        encode_utf8(b.event.details@),
    ];
    vstd::bytes::lemma_auto_spec_u64_to_from_le_bytes();
    assert forall|j: int| 0 <= j < 8 && j != i implies pa[j] == pb[j] by {
        assert(f[j]);
    }
    lemma_join_fields(a, pa);
    lemma_join_fields(b, pb);
    if audit_bytes(a) == audit_bytes(b) {
        assert(pa.take(i) =~= pb.take(i));
        assert(pa.skip(i + 1) =~= pb.skip(i + 1));
        lemma_join_split(pa, i);
        lemma_join_split(pb, i);
        lemma_middle_cancel(join(pa.take(i)), pa[i], pb[i], join(pa.skip(i + 1)));
        if i == 0 {
            assert(a.sequence == b.sequence);
        } else if i == 2 {
            assert(a.event.timestamp_ns == b.event.timestamp_ns);
        } else if i == 3 {
            vstd::utf8::encode_utf8_decode_utf8(a.event.principal_id@);
            vstd::utf8::encode_utf8_decode_utf8(b.event.principal_id@);
        } else if i == 5 {
            vstd::utf8::encode_utf8_decode_utf8(a.event.resource@);
            vstd::utf8::encode_utf8_decode_utf8(b.event.resource@);
        } else if i == 6 {
            vstd::utf8::encode_utf8_decode_utf8(a.event.outcome@);
            vstd::utf8::encode_utf8_decode_utf8(b.event.outcome@);
        } else if i == 7 {
            vstd::utf8::encode_utf8_decode_utf8(a.event.details@);
            vstd::utf8::encode_utf8_decode_utf8(b.event.details@);
        }
        assert(f[i]);
    }
}

} // verus!
