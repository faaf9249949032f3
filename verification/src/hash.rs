//! The double-SHA-256 digest used throughout Bitcoin's wire format.
//!
//! The digest itself is computed by an outside crate; the engine only names
//! its result and reasons about where equal inputs must give equal digests.

use vstd::prelude::*;

verus! {

/// The Bitcoin double-SHA-256 digest of a byte string: a function of the
/// input bytes alone.
pub uninterp spec fn hash256_of(data: Seq<u8>) -> Seq<u8>;

/// Relies on `bitcoin_spv::btcspv::hash256`: the double SHA-256 of the
/// concatenated preimage segments, a 32-byte digest that depends on the
/// input bytes alone.
#[verifier::external_body]
pub(crate) fn hash256(data: &[u8]) -> (r: [u8; 32])
    ensures
        r@ == hash256_of(data@),
{
    *bitcoin_spv::btcspv::hash256(&[data]).as_ref()
}

} // verus!
