//! Top-level verification of one transaction-inclusion proof.
//!
//! A proof carries the transaction's serialized fields, its claimed id, a
//! Merkle path to the root of the confirming header, and that header with
//! the claims made about it. Verification re-validates every claim: the
//! input and output vectors must be well formed, the confirming header must
//! validate, the recomputed transaction id must equal the claimed one, and
//! the Merkle path must connect the id to the header's root.

use vstd::prelude::*;

use crate::bytes::eq32;
use crate::errors::RelayError;
use crate::hash::hash256_of;
use crate::header::header_check;
use crate::header::verify_header;
use crate::header::BitcoinHeader;
use crate::merkle::merkle_proof_valid;
use crate::merkle::verify_merkle;
use crate::tx::compute_txid;
use crate::tx::validate_vin;
use crate::tx::validate_vout;
use crate::tx::vin_valid;
use crate::tx::vout_valid;

verus! {

/// One transaction-inclusion proof, as a caller supplies it.
pub struct SPVProof {
    /// The transaction's 4-byte version field.
    pub version: [u8; 4],
    /// The serialized input vector.
    pub vin: Vec<u8>,
    /// The serialized output vector.
    pub vout: Vec<u8>,
    /// The transaction's 4-byte locktime field.
    pub locktime: [u8; 4],
    /// The claimed transaction id.
    pub tx_id: [u8; 32],
    /// The index of the transaction's leaf in the confirming block's tree.
    pub leaf_index: u64,
    /// The sibling digests of the Merkle path, ascending tree level.
    pub intermediate_nodes: Vec<[u8; 32]>,
    /// The header claimed to confirm the transaction.
    pub confirming_header: BitcoinHeader,
}

impl SPVProof {
    /// The canonical id of the transaction the proof describes.
    pub open spec fn txid_spec(self) -> Seq<u8> {
        hash256_of(self.version@ + self.vin@ + self.vout@ + self.locktime@)
    }
}

/// The outcome of verifying one inclusion proof, in check order: input
/// vector, output vector, confirming header, transaction id, Merkle path.
pub open spec fn proof_check(p: SPVProof) -> Result<(), RelayError> {
    if !vin_valid(p.vin@) {
        Err(RelayError::InvalidVin)
    } else if !vout_valid(p.vout@) {
        Err(RelayError::InvalidVout)
    } else {
        match header_check(
            p.confirming_header.raw@,
            p.confirming_header.hash@,
            p.confirming_header.merkle_root@,
            p.confirming_header.prev_hash@,
        ) {
            Err(e) => Err(e),
            Ok(u) => if p.tx_id@ != p.txid_spec() {
                Err(RelayError::WrongTxID)
            } else if !merkle_proof_valid(
                p.tx_id@,
                p.intermediate_nodes@,
                p.leaf_index,
                p.confirming_header.merkle_root@,
            ) {
                Err(RelayError::BadMerkleProof)
            } else {
                Ok(())
            },
        }
    }
}

/// Verifies one transaction-inclusion proof, rejecting at the first claim
/// that does not hold.
pub fn verify_proof(proof: &SPVProof) -> (r: Result<(), RelayError>)
    ensures
        r == proof_check(*proof),
{
    match validate_vin(proof.vin.as_slice()) {
        Ok(u) => {},
        Err(e) => {
            return Err(e);
        },
    }
    match validate_vout(proof.vout.as_slice()) {
        Ok(u) => {},
        Err(e) => {
            return Err(e);
        },
    }
    match verify_header(
        proof.confirming_header.raw.as_slice(),
        &proof.confirming_header.hash,
        &proof.confirming_header.merkle_root,
        &proof.confirming_header.prev_hash,
        proof.confirming_header.height,
    ) {
        Ok(h) => {},
        Err(e) => {
            return Err(e);
        },
    }
    let txid = compute_txid(
        &proof.version,
        proof.vin.as_slice(),
        proof.vout.as_slice(),
        &proof.locktime,
    );
    if !eq32(&proof.tx_id, &txid) {
        return Err(RelayError::WrongTxID);
    }
    if !verify_merkle(
        &proof.tx_id,
        &proof.intermediate_nodes,
        proof.leaf_index,
        &proof.confirming_header.merkle_root,
    ) {
        return Err(RelayError::BadMerkleProof);
    }
    Ok(())
}

} // verus!
