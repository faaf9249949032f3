//! Validation of a span of raw headers, oldest to newest.
//!
//! Each header must be 80 bytes and meet its own proof-of-work target;
//! each header after the first must embed the digest of its predecessor as
//! its parent hash; and the compact difficulty target (`bits`) may change
//! from one header to the next only when the newer header's height is a
//! multiple of the retarget interval of 2016 blocks.

use vstd::prelude::*;

use crate::bytes::eq_bytes;
use crate::bytes::read_bytes;
use crate::errors::RelayError;
use crate::hash::hash256;
use crate::hash::hash256_of;
use crate::header::header_bits;
use crate::header::header_prev_hash;
use crate::header::work_check;
use crate::header::work_sufficient;

verus! {

/// The retarget interval: difficulty may change only at heights that are
/// multiples of this.
pub const RETARGET_INTERVAL: u64 = 2016;

/// The outcome of checking header `i` of a chain whose oldest header sits
/// at height `start`, in check order: length, parent linkage, retarget
/// policy, proof of work.
pub open spec fn chain_check_at(headers: Seq<Vec<u8>>, start: u64, i: int) -> Result<
    (),
    RelayError,
> {
    let h = headers[i]@;
    if h.len() != 80 {
        Err(RelayError::WrongLengthHeader)
    } else if i > 0 && header_prev_hash(h) != hash256_of(headers[i - 1]@) {
        Err(RelayError::InvalidChain)
    } else if i > 0 && header_bits(h) != header_bits(headers[i - 1]@) && (start + i) % (
    RETARGET_INTERVAL as int) != 0 {
        Err(RelayError::UnexpectedDifficultyChange)
    } else if !work_sufficient(h) {
        Err(RelayError::InsufficientWork)
    } else {
        Ok(())
    }
}

/// The first failure among headers `i` and newer, or success.
pub open spec fn chain_check_from(headers: Seq<Vec<u8>>, start: u64, i: int) -> Result<
    (),
    RelayError,
>
    decreases headers.len() - i,
    when 0 <= i <= headers.len()
{
    if i >= headers.len() {
        Ok(())
    } else {
        match chain_check_at(headers, start, i) {
            Ok(u) => chain_check_from(headers, start, i + 1),
            Err(e) => Err(e),
        }
    }
}

/// The outcome of validating a whole chain whose oldest header sits at
/// height `start`.
pub open spec fn chain_check(headers: Seq<Vec<u8>>, start: u64) -> Result<(), RelayError> {
    chain_check_from(headers, start, 0)
}

proof fn lemma_chain_check_from_ok(headers: Seq<Vec<u8>>, start: u64, i: int, j: int)
    requires
        0 <= i <= j < headers.len(),
        chain_check_from(headers, start, i) is Ok,
    ensures
        chain_check_at(headers, start, j) is Ok,
    decreases j - i,
{
    if i < j {
        lemma_chain_check_from_ok(headers, start, i + 1, j);
    }
}

/// The chain invariant: in an accepted span of headers, every header after
/// the first embeds the digest of its predecessor as its parent hash, and
/// every header is exactly 80 bytes and meets its own target.
pub proof fn lemma_accepted_chain_links(headers: Seq<Vec<u8>>, start: u64, i: int)
    requires
        chain_check(headers, start) is Ok,
        0 <= i < headers.len(),
    ensures
        headers[i]@.len() == 80,
        work_sufficient(headers[i]@),
        i > 0 ==> header_prev_hash(headers[i]@) == hash256_of(headers[i - 1]@),
{
    lemma_chain_check_from_ok(headers, start, 0, i);
}

/// Verifies linkage, retarget policy, and proof of work across a sequence
/// of raw headers, oldest to newest, whose oldest header sits at
/// `start_height`. Returns the first failure in walk order.
pub fn verify_chain(headers: &Vec<Vec<u8>>, start_height: u64) -> (r: Result<(), RelayError>)
    ensures
        r == chain_check(headers@, start_height),
{
    let n = headers.len();
    let mut i: usize = 0;
    let mut height_mod: u64 = start_height % RETARGET_INTERVAL;
    while i < n
        invariant
            i <= n,
            n == headers@.len(),
            height_mod == (start_height + i) % (RETARGET_INTERVAL as int),
            i > 0 ==> headers@[i - 1]@.len() == 80,
            chain_check(headers@, start_height) == chain_check_from(
                headers@,
                start_height,
                i as int,
            ),
        decreases n - i,
    {
        let h: &Vec<u8> = &headers[i];
        if h.len() != 80 {
            return Err(RelayError::WrongLengthHeader);
        }
        if i > 0 {
            let prev: &Vec<u8> = &headers[i - 1];
            let prev_digest = hash256(prev.as_slice());
            let embedded_prev = match read_bytes(h.as_slice(), 4, 32) {
                Ok(s) => s,
                Err(_) => {
                    proof {
                        assert(false);
                    }
                    return Err(RelayError::UnknownError);
                },
            };
            if !eq_bytes(embedded_prev, prev_digest.as_slice()) {
                return Err(RelayError::InvalidChain);
            }
            let bits = match read_bytes(h.as_slice(), 72, 4) {
                Ok(s) => s,
                Err(_) => {
                    proof {
                        assert(false);
                    }
                    return Err(RelayError::UnknownError);
                },
            };
            let prev_bits = match read_bytes(prev.as_slice(), 72, 4) {
                Ok(s) => s,
                Err(_) => {
                    proof {
                        assert(false);
                    }
                    return Err(RelayError::UnknownError);
                },
            };
            if !eq_bytes(bits, prev_bits) && height_mod != 0 {
                return Err(RelayError::UnexpectedDifficultyChange);
            }
        }
        if !work_check(h.as_slice()) {
            return Err(RelayError::InsufficientWork);
        }
        i = i + 1;
        proof {
            assert(((start_height + i - 1) % 2016 + 1) % 2016 == (start_height + i) % 2016)
                by (nonlinear_arith);
        }
        height_mod = (height_mod + 1) % RETARGET_INTERVAL;
    }
    Ok(())
}

} // verus!
