//! Split-brain epoch fencing and lease token validation.
use crate::coordinator::shard::{CoordinatorEpoch, ShardId};
use crate::error::KeiroxError;
use crate::text::{decimal, push_decimal, push_str};
use vstd::bytes::{
    lemma_auto_spec_u32_to_from_le_bytes, lemma_auto_spec_u64_to_from_le_bytes,
    spec_u32_from_le_bytes, spec_u32_to_le_bytes, spec_u64_from_le_bytes, spec_u64_to_le_bytes,
    u32_from_le_bytes, u32_to_le_bytes, u64_from_le_bytes, u64_to_le_bytes,
};
use vstd::prelude::*;
use vstd::slice::slice_subrange;

verus! {

/// Epoch-fenced consumer lease token: shard, epoch, offset and a generation nonce.
#[derive(Debug, Clone, Copy, PartialEq, Eq, Structural, Hash)]
pub struct EpochFencedToken {
    /// Shard identifier hosting this consumer group.
    pub shard_id: ShardId,
    /// Coordinator epoch when lease was issued.
    pub epoch: CoordinatorEpoch,
    /// Stream offset leased.
    pub offset: u64,
    /// 32-bit generation nonce.
    pub nonce: u32,
}

/// 64-bit wire form: the low 16 bits of the shard in bits 63..48, the low 16 bits of the
/// epoch in bits 47..32 and the nonce in bits 31..0.
pub open spec fn spec_pack(shard: u32, epoch: u64, nonce: u32) -> u64 {
    ((shard as int % 65536) * 0x1_0000_0000_0000 + (epoch as int % 65536) * 0x1_0000_0000
        + nonce as int) as u64
}

/// 24-byte wire form: shard (4 bytes), epoch (8), offset (8) and nonce (4), little endian.
pub open spec fn spec_token_bytes(t: EpochFencedToken) -> Seq<u8> {
    spec_u32_to_le_bytes(t.shard_id.0) + spec_u64_to_le_bytes(t.epoch.0) + spec_u64_to_le_bytes(
        t.offset,
    ) + spec_u32_to_le_bytes(t.nonce)
}

/// Token decoded from 24 little-endian bytes.
pub open spec fn spec_token_from_bytes(b: Seq<u8>) -> EpochFencedToken {
    EpochFencedToken {
        shard_id: ShardId(spec_u32_from_le_bytes(b.subrange(0, 4))),
        epoch: CoordinatorEpoch(spec_u64_from_le_bytes(b.subrange(4, 12))),
        offset: spec_u64_from_le_bytes(b.subrange(12, 20)),
        nonce: spec_u32_from_le_bytes(b.subrange(20, 24)),
    }
}

impl EpochFencedToken {
    /// Create a new fenced lease token.
    pub fn new(shard_id: ShardId, epoch: CoordinatorEpoch, offset: u64, nonce: u32) -> (t: Self)
        ensures
            t == (EpochFencedToken { shard_id, epoch, offset, nonce }),
    {
        EpochFencedToken { shard_id, epoch, offset, nonce }
    }

    /// Pack token into its 64-bit wire representation (shard and epoch reduced modulo
    /// 65536; the offset is not carried).
    pub fn to_u64(&self) -> (r: u64)
        ensures
            r == spec_pack(self.shard_id.0, self.epoch.0, self.nonce),
    {
        let s = self.shard_id.0 as u64;
        let e = self.epoch.0;
        let n = self.nonce as u64;
        let shard_bits = (s & 0xFFFF) << 48;
        let epoch_bits = (e & 0xFFFF) << 32;
        let nonce_bits = n & 0xFFFF_FFFF;
        let r = shard_bits | epoch_bits | nonce_bits;
        assert(r == ((s % 65536) * 0x1_0000_0000_0000 + (e % 65536) * 0x1_0000_0000 + n) as u64)
            by (bit_vector)
            requires
                shard_bits == (s & 0xFFFF) << 48,
                epoch_bits == (e & 0xFFFF) << 32,
                nonce_bits == n & 0xFFFF_FFFF,
                r == shard_bits | epoch_bits | nonce_bits,
                n < 0x1_0000_0000,
        ;
        r
    }

    /// Unpack from a 64-bit wire token, binding the given offset.
    pub fn from_u64(raw: u64, offset: u64) -> (t: Self)
        ensures
            t.shard_id.0 == raw / 0x1_0000_0000_0000,
            t.epoch.0 == (raw / 0x1_0000_0000) % 65536,
            t.nonce == raw % 0x1_0000_0000,
            t.offset == offset,
    {
        let sh = (raw >> 48) & 0xFFFF;
        let ep = (raw >> 32) & 0xFFFF;
        let no = raw & 0xFFFF_FFFF;
        assert(sh == raw / 0x1_0000_0000_0000 && ep == (raw / 0x1_0000_0000) % 65536 && no == raw
            % 0x1_0000_0000 && sh < 65536 && no < 0x1_0000_0000) by (bit_vector)
            requires
                sh == (raw >> 48) & 0xFFFF,
                ep == (raw >> 32) & 0xFFFF,
                no == raw & 0xFFFF_FFFF,
        ;
        EpochFencedToken {
            shard_id: ShardId(sh as u32),
            epoch: CoordinatorEpoch(ep),
            offset,
            nonce: no as u32,
        }
    }

    /// Full 24-byte lossless binary token representation.
    pub fn to_bytes(&self) -> (r: [u8; 24])
        ensures
            r@ == spec_token_bytes(*self),
    {
        let a = u32_to_le_bytes(self.shard_id.0);
        let b = u64_to_le_bytes(self.epoch.0);
        let c = u64_to_le_bytes(self.offset);
        let d = u32_to_le_bytes(self.nonce);
        let buf: [u8; 24] = [
            a[0], a[1], a[2], a[3],
            b[0], b[1], b[2], b[3], b[4], b[5], b[6], b[7],
            c[0], c[1], c[2], c[3], c[4], c[5], c[6], c[7],
            d[0], d[1], d[2], d[3],
        ];
        assert(buf@ =~= spec_token_bytes(*self));
        buf
    }

    /// Unpack from a 24-byte binary token.
    pub fn from_bytes(bytes: &[u8; 24]) -> (t: Self)
        ensures
            t == spec_token_from_bytes(bytes@),
    {
        let all: &[u8] = bytes.as_slice();
        let shard = u32_from_le_bytes(slice_subrange(all, 0, 4));
        let epoch = u64_from_le_bytes(slice_subrange(all, 4, 12));
        let offset = u64_from_le_bytes(slice_subrange(all, 12, 20));
        let nonce = u32_from_le_bytes(slice_subrange(all, 20, 24));
        EpochFencedToken {
            shard_id: ShardId(shard),
            epoch: CoordinatorEpoch(epoch),
            offset,
            nonce,
        }
    }

    /// Validate that this token is valid for the current active coordinator epoch:
    /// another shard is a lease conflict, an older epoch is fenced as stale and a newer
    /// epoch is fenced as ahead.
    pub fn validate(&self, expected_shard: ShardId, current_epoch: CoordinatorEpoch) -> (r: Result<(), KeiroxError>)
        ensures
            self.shard_id != expected_shard ==> (r matches Err(KeiroxError::LeaseConflict(m))
                && m@ == shard_mismatch_text(self.shard_id.0, expected_shard.0)),
            self.shard_id == expected_shard && self.epoch.0 < current_epoch.0 ==> (r matches Err(
                KeiroxError::EpochFenced(m)) && m@ == stale_epoch_text(self.epoch.0, current_epoch.0)),
            self.shard_id == expected_shard && self.epoch.0 > current_epoch.0 ==> (r matches Err(
                KeiroxError::EpochFenced(m)) && m@ == future_epoch_text(self.epoch.0, current_epoch.0)),
            r is Ok <==> (self.shard_id == expected_shard && self.epoch == current_epoch),
    {
        if self.shard_id.0 != expected_shard.0 {
            let mut m = String::new();
            push_str(&mut m, "Lease shard mismatch: token shard Shard-");
            push_decimal(&mut m, self.shard_id.0 as u64);
            push_str(&mut m, " vs active Shard-");
            push_decimal(&mut m, expected_shard.0 as u64);
            return Err(KeiroxError::LeaseConflict(m));
        }
        if self.epoch.0 < current_epoch.0 {
            let mut m = String::new();
            push_str(&mut m, "Stale coordinator epoch Epoch(");
            push_decimal(&mut m, self.epoch.0);
            push_str(&mut m, ") fenced by active epoch Epoch(");
            push_decimal(&mut m, current_epoch.0);
            push_str(&mut m, ") (reassigned during failover)");
            return Err(KeiroxError::EpochFenced(m));
        }
        if self.epoch.0 > current_epoch.0 {
            let mut m = String::new();
            push_str(&mut m, "Future coordinator epoch Epoch(");
            push_decimal(&mut m, self.epoch.0);
            push_str(&mut m, ") ahead of active epoch Epoch(");
            push_decimal(&mut m, current_epoch.0);
            push_str(&mut m, ")");
            return Err(KeiroxError::EpochFenced(m));
        }
        Ok(())
    }

    /// Validate both coordinator epoch and target stream offset binding: the epoch check
    /// comes first, with its errors, then the offset.
    pub fn validate_for_offset(
        &self,
        expected_shard: ShardId,
        current_epoch: CoordinatorEpoch,
        expected_offset: u64,
    ) -> (r: Result<(), KeiroxError>)
        ensures
            self.shard_id != expected_shard ==> (r matches Err(KeiroxError::LeaseConflict(m))
                && m@ == shard_mismatch_text(self.shard_id.0, expected_shard.0)),
            self.shard_id == expected_shard && self.epoch.0 < current_epoch.0 ==> (r matches Err(
                KeiroxError::EpochFenced(m)) && m@ == stale_epoch_text(self.epoch.0, current_epoch.0)),
            self.shard_id == expected_shard && self.epoch.0 > current_epoch.0 ==> (r matches Err(
                KeiroxError::EpochFenced(m)) && m@ == future_epoch_text(self.epoch.0, current_epoch.0)),
            self.shard_id == expected_shard && self.epoch == current_epoch && self.offset
                != expected_offset ==> (r matches Err(KeiroxError::LeaseConflict(m)) && m@
                == offset_mismatch_text(self.offset, expected_offset)),
            r is Ok <==> (self.shard_id == expected_shard && self.epoch == current_epoch
                && self.offset == expected_offset),
    {
        match self.validate(expected_shard, current_epoch) {
            Err(e) => {
                return Err(e);
            },
            Ok(()) => {},
        }
        if self.offset != expected_offset {
            let mut m = String::new();
            push_str(&mut m, "Token bound offset ");
            push_decimal(&mut m, self.offset);
            push_str(&mut m, " does not match target offset ");
            push_decimal(&mut m, expected_offset);
            return Err(KeiroxError::LeaseConflict(m));
        }
        Ok(())
    }
}

/// Message of a token presented for another shard.
pub open spec fn shard_mismatch_text(token_shard: u32, active_shard: u32) -> Seq<char> {
    "Lease shard mismatch: token shard Shard-"@ + decimal(token_shard as nat) + " vs active Shard-"@
        + decimal(active_shard as nat)
}

/// Message of a token from an epoch older than the active one.
pub open spec fn stale_epoch_text(token_epoch: u64, active_epoch: u64) -> Seq<char> {
    "Stale coordinator epoch Epoch("@ + decimal(token_epoch as nat) + ") fenced by active epoch Epoch("@
        + decimal(active_epoch as nat) + ") (reassigned during failover)"@
}

/// Message of a token from an epoch newer than the active one.
pub open spec fn future_epoch_text(token_epoch: u64, active_epoch: u64) -> Seq<char> {
    "Future coordinator epoch Epoch("@ + decimal(token_epoch as nat) + ") ahead of active epoch Epoch("@
        + decimal(active_epoch as nat) + ")"@
}

/// Message of a token bound to another offset.
pub open spec fn offset_mismatch_text(token_offset: u64, target_offset: u64) -> Seq<char> {
    "Token bound offset "@ + decimal(token_offset as nat) + " does not match target offset "@
        + decimal(target_offset as nat)
}

/// The 24-byte form is lossless: decoding an encoded token gives it back.
pub proof fn law_token_bytes_roundtrip(t: EpochFencedToken)
    ensures
        spec_token_from_bytes(spec_token_bytes(t)) == t,
{
    lemma_auto_spec_u32_to_from_le_bytes();
    lemma_auto_spec_u64_to_from_le_bytes();
    let b = spec_token_bytes(t);
    assert(b.subrange(0, 4) =~= spec_u32_to_le_bytes(t.shard_id.0));
    assert(b.subrange(4, 12) =~= spec_u64_to_le_bytes(t.epoch.0));
    assert(b.subrange(12, 20) =~= spec_u64_to_le_bytes(t.offset));
    assert(b.subrange(20, 24) =~= spec_u32_to_le_bytes(t.nonce));
}

/// The 64-bit form keeps the nonce and the low 16 bits of shard and epoch.
pub proof fn law_token_u64_roundtrip(shard: u32, epoch: u64, nonce: u32)
    ensures
        spec_pack(shard, epoch, nonce) / 0x1_0000_0000_0000 == shard as int % 65536,
        (spec_pack(shard, epoch, nonce) / 0x1_0000_0000) % 65536 == epoch as int % 65536,
        spec_pack(shard, epoch, nonce) % 0x1_0000_0000 == nonce,
{
    let s = shard as int % 65536;
    let e = epoch as int % 65536;
    let n = nonce as int;
    let x = s * 0x1_0000_0000_0000 + e * 0x1_0000_0000 + n;
    assert(0 <= x < 0x1_0000_0000_0000_0000) by (nonlinear_arith)
        requires 0 <= s < 65536, 0 <= e < 65536, 0 <= n < 0x1_0000_0000, x == s * 0x1_0000_0000_0000 + e * 0x1_0000_0000 + n;
    assert(x / 0x1_0000_0000_0000 == s) by (nonlinear_arith)
        requires 0 <= s < 65536, 0 <= e < 65536, 0 <= n < 0x1_0000_0000, x == s * 0x1_0000_0000_0000 + e * 0x1_0000_0000 + n;
    assert(x / 0x1_0000_0000 == s * 65536 + e) by (nonlinear_arith)
        requires 0 <= s < 65536, 0 <= e < 65536, 0 <= n < 0x1_0000_0000, x == s * 0x1_0000_0000_0000 + e * 0x1_0000_0000 + n;
    assert((s * 65536 + e) % 65536 == e) by (nonlinear_arith)
        requires 0 <= s < 65536, 0 <= e < 65536;
    assert(x % 0x1_0000_0000 == n) by (nonlinear_arith)
        requires 0 <= s < 65536, 0 <= e < 65536, 0 <= n < 0x1_0000_0000, x == s * 0x1_0000_0000_0000 + e * 0x1_0000_0000 + n;
}

} // verus!
