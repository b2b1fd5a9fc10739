//! Hash functions, checksums, authenticated encryption and randomness used by the
//! library, each taken from its crate. The CRC-32 checksum is defined here; the other
//! results are named by uninterpreted spec functions of the bytes they read.
use vstd::prelude::*;

verus! {

/// xxHash64 of `data` under `seed`.
pub uninterp spec fn xxh64_digest(seed: u64, data: Seq<u8>) -> u64;

/// SHA-256 digest of `data`.
pub uninterp spec fn sha256_digest(data: Seq<u8>) -> Seq<u8>;

/// One bit step of the reflected CRC-32 (IEEE) register: shift right, and fold in the
/// reversed polynomial 0xEDB88320 when the bit shifted out is set.
pub open spec fn crc32_bit(c: u32) -> u32 {
    if c & 1 == 1 {
        (c >> 1) ^ 0xEDB8_8320u32
    } else {
        c >> 1
    }
}

/// The register after `n` bit steps.
pub open spec fn crc32_bits(c: u32, n: nat) -> u32
    decreases n,
{
    if n == 0 {
        c
    } else {
        crc32_bits(crc32_bit(c), (n - 1) as nat)
    }
}

/// The register after `data`, starting from all ones; each byte is xored into the low
/// bits and followed by eight bit steps.
pub open spec fn crc32_register(data: Seq<u8>) -> u32
    decreases data.len(),
{
    if data.len() == 0 {
        0xFFFF_FFFFu32
    } else {
        crc32_bits(crc32_register(data.drop_last()) ^ (data.last() as u32), 8)
    }
}

/// CRC-32 (IEEE) checksum of `data`: the final register, inverted.
pub open spec fn crc32_checksum(data: Seq<u8>) -> u32 {
    crc32_register(data) ^ 0xFFFF_FFFFu32
}

/// MD5 digest of `data`.
pub uninterp spec fn md5_digest(data: Seq<u8>) -> Seq<u8>;

/// AES-256-GCM sealing of `msg` with associated data `aad` under `key` and `nonce`:
/// the ciphertext with its tag, or `None` where the cipher refuses the input.
pub uninterp spec fn aes256gcm_seal(key: Seq<u8>, nonce: Seq<u8>, aad: Seq<u8>, msg: Seq<u8>) -> Option<
    Seq<u8>,
>;

/// AES-256-GCM opening of `ct` with associated data `aad` under `key` and `nonce`: the
/// plaintext, or `None` where authentication fails.
pub uninterp spec fn aes256gcm_open(key: Seq<u8>, nonce: Seq<u8>, aad: Seq<u8>, ct: Seq<u8>) -> Option<
    Seq<u8>,
>;

/// `twox_hash::XxHash64::with_seed(seed)`, fed `data` through `Hasher::write`, then
/// `Hasher::finish`. The result is named `xxh64_digest(seed, data)`. (`XxHash64::default()`
/// is `with_seed(0)` in the crate's source.)
#[verifier::external_body]
pub(crate) fn xxhash64(seed: u64, data: &[u8]) -> (h: u64)
    ensures
        h == xxh64_digest(seed, data@),
{
    let mut hasher = twox_hash::XxHash64::with_seed(seed);
    std::hash::Hasher::write(&mut hasher, data);
    std::hash::Hasher::finish(&hasher)
}

/// `sha2::Sha256`: `new`, one `update` with `data`, `finalize`. The 32 bytes are named
/// `sha256_digest(data)`; feeding the same bytes in several updates gives the same
/// digest, as the `Digest` trait documents.
#[verifier::external_body]
pub(crate) fn sha256(data: &[u8]) -> (d: [u8; 32])
    ensures
        d@ == sha256_digest(data@),
{
    let mut hasher = <sha2::Sha256 as sha2::Digest>::new();
    sha2::Digest::update(&mut hasher, data);
    sha2::Digest::finalize(hasher).into()
}

/// `crc32fast::Hasher`: `new`, one `update` with `data`, `finalize`. The crate computes
/// the CRC-32 (IEEE) checksum, as its documentation states; `crc32_checksum` writes that
/// standard definition out bit by bit.
#[verifier::external_body]
pub(crate) fn crc32(data: &[u8]) -> (c: u32)
    ensures
        c == crc32_checksum(data@),
{
    let mut hasher = crc32fast::Hasher::new();
    hasher.update(data);
    hasher.finalize()
}

/// `md5::Md5` (crate md-5): `new`, one `update` with `data`, `finalize`. The 16 bytes are
/// named `md5_digest(data)`.
#[verifier::external_body]
pub(crate) fn md5(data: &[u8]) -> (d: [u8; 16])
    ensures
        d@ == md5_digest(data@),
{
    let mut hasher = <md5::Md5 as md5::Digest>::new();
    md5::Digest::update(&mut hasher, data);
    md5::Digest::finalize(hasher).into()
}

/// The opaque error of the `aead` crate's `encrypt` and `decrypt`.
#[verifier::external_type_specification]
#[verifier::external_body]
pub struct ExAeadError(aes_gcm::aead::Error);

/// The text of an `aead::Error` (`Display`): the crate's source writes `aead::Error`.
#[verifier::external_body]
pub(crate) fn aead_error_text(e: &aes_gcm::aead::Error) -> (s: String)
    ensures
        s@ == "aead::Error"@,
{
    std::string::ToString::to_string(e)
}

/// `aes_gcm::Aes256Gcm` keyed with `key`, `Aead::encrypt` of `msg` with associated data
/// `aad` under `nonce`. The result is named `aes256gcm_seal`: `Err` exactly where that
/// name is `None`.
#[verifier::external_body]
pub(crate) fn aes_gcm_seal(key: &[u8; 32], nonce: &[u8; 12], aad: &[u8], msg: &[u8]) -> (r: Result<Vec<u8>, aes_gcm::aead::Error>)
    ensures
        r matches Ok(c) ==> aes256gcm_seal(key@, nonce@, aad@, msg@) == Some(c@),
        r is Err <==> aes256gcm_seal(key@, nonce@, aad@, msg@) is None,
{
    let cipher = <aes_gcm::Aes256Gcm as aes_gcm::aead::KeyInit>::new(key.into());
    let payload = aes_gcm::aead::Payload { msg, aad };
    aes_gcm::aead::Aead::encrypt(&cipher, nonce.into(), payload)
}

/// `aes_gcm::Aes256Gcm` keyed with `key`, `Aead::decrypt` of `ct` with associated data
/// `aad` under `nonce`. The result is named `aes256gcm_open`. As an AEAD, opening what
/// sealing produced under the same key, nonce and associated data gives the message back.
#[verifier::external_body]
pub(crate) fn aes_gcm_open(key: &[u8; 32], nonce: &[u8; 12], aad: &[u8], ct: &[u8]) -> (r: Result<Vec<u8>, aes_gcm::aead::Error>)
    ensures
        r matches Ok(p) ==> aes256gcm_open(key@, nonce@, aad@, ct@) == Some(p@),
        r is Err <==> aes256gcm_open(key@, nonce@, aad@, ct@) is None,
        r is Err ==> forall|m: Seq<u8>| #[trigger] aes256gcm_seal(key@, nonce@, aad@, m) != Some(ct@),
        r matches Ok(p) ==> forall|m: Seq<u8>|
            #[trigger] aes256gcm_seal(key@, nonce@, aad@, m) == Some(ct@) ==> p@ == m,
{
    let cipher = <aes_gcm::Aes256Gcm as aes_gcm::aead::KeyInit>::new(key.into());
    let payload = aes_gcm::aead::Payload { msg: ct, aad };
    aes_gcm::aead::Aead::decrypt(&cipher, nonce.into(), payload)
}

/// Fills `buf` from `rand::thread_rng()` (`RngCore::fill_bytes`). Nothing is stated of
/// the bytes: they come from the operating system's entropy.
#[verifier::external_body]
pub(crate) fn fill_random<const N: usize>(buf: &mut [u8; N]) {
    rand::RngCore::fill_bytes(&mut rand::thread_rng(), buf)
}

} // verus!
