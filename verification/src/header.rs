//! Parsing and validation of 80-byte raw block headers.
//!
//! A raw header lays out version (4 bytes), previous-header hash (32),
//! Merkle root (32), timestamp (4), compact difficulty target `bits` (4),
//! and nonce (4). Validation checks the header's own digest against the
//! caller's claim, the embedded fields against the caller's claims, and
//! proof-of-work sufficiency: the digest, read as a 256-bit little-endian
//! integer, must not exceed the target that `bits` encodes.

use vstd::prelude::*;

use crate::bytes::all_zero;
use crate::bytes::eq32;
use crate::bytes::le_bytes_value;
use crate::bytes::le_u64;
use crate::bytes::lemma_le_bytes_value_bound;
use crate::bytes::lemma_le_bytes_value_split;
use crate::bytes::lemma_le_bytes_value_zero;
use crate::bytes::lemma_pow256_increases;
use crate::bytes::lemma_pow256_values;
use crate::bytes::pow256;
use crate::bytes::read_bytes;
use crate::errors::RelayError;
use crate::hash::hash256;
use crate::hash::hash256_of;

verus! {

/// The parent hash embedded in a raw header.
pub open spec fn header_prev_hash(raw: Seq<u8>) -> Seq<u8> {
    raw.subrange(4, 36)
}

/// The Merkle root embedded in a raw header.
pub open spec fn header_merkle_root(raw: Seq<u8>) -> Seq<u8> {
    raw.subrange(36, 68)
}

/// The 4-byte compact difficulty target field of a raw header.
pub open spec fn header_bits(raw: Seq<u8>) -> Seq<u8> {
    raw.subrange(72, 76)
}

/// The mantissa of the compact target: the low 3 bytes of `bits`,
/// little-endian.
pub open spec fn header_bits_mantissa(raw: Seq<u8>) -> nat {
    le_bytes_value(raw.subrange(72, 75))
}

/// The exponent of the compact target: the high byte of `bits`.
pub open spec fn header_bits_exponent(raw: Seq<u8>) -> nat {
    raw[75] as nat
}

/// The numeric proof-of-work target a compact mantissa/exponent pair
/// encodes: `mantissa * 256^(exponent - 3)`, the exponent offset
/// saturating at zero.
pub open spec fn target_of(mantissa: nat, exponent: nat) -> nat {
    mantissa * pow256(
        if exponent >= 3 {
            (exponent - 3) as nat
        } else {
            0
        },
    )
}

/// The numeric proof-of-work target of a raw header.
pub open spec fn header_target(raw: Seq<u8>) -> nat {
    target_of(header_bits_mantissa(raw), header_bits_exponent(raw))
}

/// Proof-of-work sufficiency: the header's digest, read as a 256-bit
/// little-endian integer, does not exceed its own target.
pub open spec fn work_sufficient(raw: Seq<u8>) -> bool {
    le_bytes_value(hash256_of(raw)) <= header_target(raw)
}

/// A validated view of a raw header: the claims a caller made about it,
/// re-checked against the raw bytes.
#[derive(Clone, Debug, PartialEq, Eq)]
pub struct BitcoinHeader {
    /// The 80 raw header bytes.
    pub raw: Vec<u8>,
    /// The header's digest.
    pub hash: [u8; 32],
    /// The Merkle root embedded in `raw`.
    pub merkle_root: [u8; 32],
    /// The parent hash embedded in `raw`.
    pub prev_hash: [u8; 32],
    /// The chain height the caller places this header at.
    pub height: u64,
}

impl BitcoinHeader {
    /// Well-formedness: the fields restate what the raw bytes encode.
    pub open spec fn wf(self) -> bool {
        &&& self.raw@.len() == 80
        &&& self.hash@ == hash256_of(self.raw@)
        &&& self.merkle_root@ == header_merkle_root(self.raw@)
        &&& self.prev_hash@ == header_prev_hash(self.raw@)
    }
}

/// The outcome of validating a raw header against a caller's claims, in
/// check order: length, digest, embedded Merkle root, embedded parent
/// hash, proof of work.
pub open spec fn header_check(
    raw: Seq<u8>,
    claimed_hash: Seq<u8>,
    claimed_merkle_root: Seq<u8>,
    claimed_prev_hash: Seq<u8>,
) -> Result<(), RelayError> {
    if raw.len() != 80 {
        Err(RelayError::WrongLengthHeader)
    } else if hash256_of(raw) != claimed_hash {
        Err(RelayError::WrongDigest)
    } else if header_merkle_root(raw) != claimed_merkle_root {
        Err(RelayError::WrongMerkleRoot)
    } else if header_prev_hash(raw) != claimed_prev_hash {
        Err(RelayError::WrongPrevHash)
    } else if !work_sufficient(raw) {
        Err(RelayError::InsufficientWork)
    } else {
        Ok(())
    }
}

/// Decides `le_bytes_value(digest) <= target_of(mantissa, exponent)`
/// without materializing the 256-bit target.
pub(crate) fn digest_meets_target(digest: &[u8; 32], mantissa: u64, exponent: u8) -> (r: bool)
    requires
        mantissa < 0x100_0000,
    ensures
        r == (le_bytes_value(digest@) <= target_of(mantissa as nat, exponent as nat)),
{
    let s: usize = if exponent >= 3 {
        (exponent - 3) as usize
    } else {
        0
    };
    let ghost d = le_bytes_value(digest@);
    let ghost m = mantissa as nat;
    let ghost t = target_of(mantissa as nat, exponent as nat);
    let ghost p = pow256(s as nat);
    proof {
        lemma_pow256_values();
        lemma_le_bytes_value_bound(digest@);
        assert(t == m * p);
    }
    if s >= 32 {
        if mantissa == 0 {
            let z = all_zero(digest.as_slice());
            proof {
                lemma_le_bytes_value_zero(digest@);
            }
            z
        } else {
            proof {
                lemma_pow256_increases(32, s as nat);
                assert(d <= m * p) by (nonlinear_arith)
                    requires
                        d < pow256(32),
                        pow256(32) <= p,
                        m >= 1,
                ;
            }
            true
        }
    } else {
        let ghost lo_part = digest@.take(s as int);
        let ghost hi_part = digest@.skip(s as int);
        let ghost l = le_bytes_value(lo_part);
        let ghost h = le_bytes_value(hi_part);
        proof {
            lemma_le_bytes_value_split(digest@, s as int);
            assert(d == l + p * h);
            lemma_le_bytes_value_bound(lo_part);
        }
        let hi_end: usize = if s + 3 <= 32 {
            s + 3
        } else {
            32
        };
        let hi_slice = vstd::slice::slice_subrange(digest.as_slice(), s, hi_end);
        let h3 = le_u64(hi_slice);
        let upper_slice = vstd::slice::slice_subrange(digest.as_slice(), hi_end, 32);
        let upper_zero = all_zero(upper_slice);
        let ghost k = hi_end - s;
        let ghost upper = upper_slice@;
        proof {
            lemma_le_bytes_value_split(hi_part, k);
            assert(hi_part.take(k) =~= hi_slice@);
            assert(hi_part.skip(k) =~= upper);
            lemma_le_bytes_value_zero(upper);
            assert(h == h3 + pow256(k as nat) * le_bytes_value(upper));
            assert(upper_zero ==> le_bytes_value(upper) == 0);
            assert(upper_zero ==> h == h3);
        }
        if !upper_zero {
            proof {
                let u = le_bytes_value(upper);
                assert(u >= 1);
                assert(hi_end == s + 3);
                assert(pow256(3) == 0x100_0000);
                assert(h > m) by (nonlinear_arith)
                    requires
                        h == h3 + pow256(3) * u,
                        u >= 1,
                        pow256(3) == 0x100_0000,
                        m < 0x100_0000,
                        h3 >= 0,
                ;
                assert(d > m * p) by (nonlinear_arith)
                    requires
                        d == l + p * h,
                        h > m,
                        p >= 1,
                        l >= 0,
                ;
            }
            false
        } else if h3 > mantissa {
            proof {
                assert(h == h3);
                assert(d > m * p) by (nonlinear_arith)
                    requires
                        d == l + p * h,
                        h > m,
                        p >= 1,
                        l >= 0,
                ;
            }
            false
        } else if h3 < mantissa {
            proof {
                assert(h == h3);
                assert(d <= m * p) by (nonlinear_arith)
                    requires
                        d == l + p * h,
                        h < m,
                        l < p,
                ;
            }
            true
        } else {
            let lo_slice = vstd::slice::slice_subrange(digest.as_slice(), 0, s);
            let lz = all_zero(lo_slice);
            proof {
                assert(lo_slice@ =~= lo_part);
                lemma_le_bytes_value_zero(lo_slice@);
                assert(h == h3);
                if l == 0 {
                    assert(d <= m * p) by (nonlinear_arith)
                        requires
                            d == l + p * h,
                            h == m,
                            l == 0,
                    ;
                } else {
                    assert(d > m * p) by (nonlinear_arith)
                        requires
                            d == l + p * h,
                            h == m,
                            l > 0,
                    ;
                }
            }
            lz
        }
    }
}

/// Checks proof-of-work sufficiency of an 80-byte raw header.
pub(crate) fn work_check(raw: &[u8]) -> (r: bool)
    requires
        raw@.len() == 80,
    ensures
        r == work_sufficient(raw@),
{
    let digest = hash256(raw);
    let mantissa_bytes = match read_bytes(raw, 72, 3) {
        Ok(s) => s,
        Err(_) => {
            proof {
                assert(false);
            }
            return false;
        },
    };
    let mantissa = le_u64(mantissa_bytes);
    let exponent = *vstd::slice::slice_index_get(raw, 75);
    proof {
        lemma_le_bytes_value_bound(mantissa_bytes@);
        lemma_pow256_values();
    }
    digest_meets_target(&digest, mantissa, exponent)
}

/// Validates a raw header against the caller's claimed hash, Merkle root,
/// and parent hash, and returns the validated view carrying `height`.
///
/// The checks run in this order: the raw bytes must be exactly 80 long
/// (`WrongLengthHeader`); the digest must equal `claimed_hash`
/// (`WrongDigest`); the embedded Merkle root must equal
/// `claimed_merkle_root` (`WrongMerkleRoot`); the embedded parent hash
/// must equal `claimed_prev_hash` (`WrongPrevHash`); and the digest must
/// meet the target encoded in `bits` (`InsufficientWork`).
pub fn verify_header(
    raw: &[u8],
    claimed_hash: &[u8; 32],
    claimed_merkle_root: &[u8; 32],
    claimed_prev_hash: &[u8; 32],
    height: u64,
) -> (r: Result<BitcoinHeader, RelayError>)
    ensures
        r is Ok <==> header_check(raw@, claimed_hash@, claimed_merkle_root@, claimed_prev_hash@)
            is Ok,
        r matches Ok(h) ==> h.wf() && h.raw@ == raw@ && h.hash@ == claimed_hash@
            && h.merkle_root@ == claimed_merkle_root@ && h.prev_hash@ == claimed_prev_hash@
            && h.height == height,
        r matches Err(e) ==> header_check(
            raw@,
            claimed_hash@,
            claimed_merkle_root@,
            claimed_prev_hash@,
        ) == Err::<(), RelayError>(e),
{
    if raw.len() != 80 {
        return Err(RelayError::WrongLengthHeader);
    }
    let digest = hash256(raw);
    if !eq32(&digest, claimed_hash) {
        return Err(RelayError::WrongDigest);
    }
    let embedded_root = match read_bytes(raw, 36, 32) {
        Ok(s) => s,
        Err(_) => {
            proof {
                assert(false);
            }
            return Err(RelayError::UnknownError);
        },
    };
    if !crate::bytes::eq_bytes(embedded_root, claimed_merkle_root.as_slice()) {
        return Err(RelayError::WrongMerkleRoot);
    }
    let embedded_prev = match read_bytes(raw, 4, 32) {
        Ok(s) => s,
        Err(_) => {
            proof {
                assert(false);
            }
            return Err(RelayError::UnknownError);
        },
    };
    if !crate::bytes::eq_bytes(embedded_prev, claimed_prev_hash.as_slice()) {
        return Err(RelayError::WrongPrevHash);
    }
    if !work_check(raw) {
        return Err(RelayError::InsufficientWork);
    }
    Ok(
        BitcoinHeader {
            raw: vstd::slice::slice_to_vec(raw),
            hash: *claimed_hash,
            merkle_root: *claimed_merkle_root,
            prev_hash: *claimed_prev_hash,
            height,
        },
    )
}

} // verus!
