//! The error taxonomy of the relay engine.
//!
//! Every verification routine reports failure through [`RelayError`]. Each
//! variant has a stable numeric code (its position in the declaration) and a
//! fixed display name, so that a hosting program can report rejections over
//! its own channels.

use vstd::prelude::*;

verus! {

/// Errors that may be returned by the relay engine.
#[derive(Clone, Copy, Debug, PartialEq, Eq, Structural)]
pub enum RelayError {
    /// Relay is already init
    AlreadyInit,
    /// State account has insufficient space to update the state
    InsufficientStateSpace,
    /// Overran a checked read on a slice
    ReadOverrun,
    /// Attempted to parse a CompactInt without enough bytes
    BadCompactInt,
    /// An op_return output did not carry a data push after the opcode.
    MalformattedOpReturnOutput,
    /// A script-hash output prefix was seen without a matching postfix.
    MalformattedP2SHOutput,
    /// A pubkey-hash output prefix was seen without a matching postfix.
    MalformattedP2PKHOutput,
    /// A witness output carried a bad program length tag.
    MalformattedWitnessOutput,
    /// The output type could not be identified.
    MalformattedOutput,
    /// Header not exactly 80 bytes.
    WrongLengthHeader,
    /// Header chain changed difficulties unexpectedly
    UnexpectedDifficultyChange,
    /// Header does not meet its own difficulty target.
    InsufficientWork,
    /// Header in chain does not correctly reference parent header.
    InvalidChain,
    /// When validating a `BitcoinHeader`, the `hash` field is not the digest
    /// of the raw header.
    WrongDigest,
    /// When validating a `BitcoinHeader`, the `merkle_root` field does not
    /// match the root found in the raw header.
    WrongMerkleRoot,
    /// When validating a `BitcoinHeader`, the `prev_hash` field does not
    /// match the parent hash found in the raw header.
    WrongPrevHash,
    /// A `vin` (transaction input vector) is malformatted.
    InvalidVin,
    /// A `vout` (transaction output vector) is malformatted.
    InvalidVout,
    /// When validating an `SPVProof`, the `tx_id` field is not the digest
    /// of the `version`, `vin`, `vout`, and `locktime`.
    WrongTxID,
    /// When validating an `SPVProof`, the `intermediate_nodes` is not a valid
    /// merkle proof connecting the `tx_id` to the `confirming_header`.
    BadMerkleProof,
    /// TxOut's reported length does not match passed-in byte slice's length
    OutputLengthMismatch,
    /// Any other error
    UnknownError,
}

impl RelayError {
    /// The stable numeric code of each variant, in declaration order.
    pub open spec fn code_spec(self) -> u32 {
        match self {
            RelayError::AlreadyInit => 0,
            RelayError::InsufficientStateSpace => 1,
            RelayError::ReadOverrun => 2,
            RelayError::BadCompactInt => 3,
            RelayError::MalformattedOpReturnOutput => 4,
            RelayError::MalformattedP2SHOutput => 5,
            RelayError::MalformattedP2PKHOutput => 6,
            RelayError::MalformattedWitnessOutput => 7,
            RelayError::MalformattedOutput => 8,
            RelayError::WrongLengthHeader => 9,
            RelayError::UnexpectedDifficultyChange => 10,
            RelayError::InsufficientWork => 11,
            RelayError::InvalidChain => 12,
            RelayError::WrongDigest => 13,
            RelayError::WrongMerkleRoot => 14,
            RelayError::WrongPrevHash => 15,
            RelayError::InvalidVin => 16,
            RelayError::InvalidVout => 17,
            RelayError::WrongTxID => 18,
            RelayError::BadMerkleProof => 19,
            RelayError::OutputLengthMismatch => 20,
            RelayError::UnknownError => 21,
        }
    }

    /// The stable numeric code that a hosting program reports for this error.
    pub fn code(&self) -> (c: u32)
        ensures
            c == self.code_spec(),
    {
        match self {
            RelayError::AlreadyInit => 0,
            RelayError::InsufficientStateSpace => 1,
            RelayError::ReadOverrun => 2,
            RelayError::BadCompactInt => 3,
            RelayError::MalformattedOpReturnOutput => 4,
            RelayError::MalformattedP2SHOutput => 5,
            RelayError::MalformattedP2PKHOutput => 6,
            RelayError::MalformattedWitnessOutput => 7,
            RelayError::MalformattedOutput => 8,
            RelayError::WrongLengthHeader => 9,
            RelayError::UnexpectedDifficultyChange => 10,
            RelayError::InsufficientWork => 11,
            RelayError::InvalidChain => 12,
            RelayError::WrongDigest => 13,
            RelayError::WrongMerkleRoot => 14,
            RelayError::WrongPrevHash => 15,
            RelayError::InvalidVin => 16,
            RelayError::InvalidVout => 17,
            RelayError::WrongTxID => 18,
            RelayError::BadMerkleProof => 19,
            RelayError::OutputLengthMismatch => 20,
            RelayError::UnknownError => 21,
        }
    }

    /// The inverse of [`RelayError::code_spec`]: `Some` exactly on codes 0..=21.
    pub open spec fn from_code_spec(c: u32) -> Option<RelayError> {
        if c == 0 { Some(RelayError::AlreadyInit) }
        else if c == 1 { Some(RelayError::InsufficientStateSpace) }
        else if c == 2 { Some(RelayError::ReadOverrun) }
        else if c == 3 { Some(RelayError::BadCompactInt) }
        else if c == 4 { Some(RelayError::MalformattedOpReturnOutput) }
        else if c == 5 { Some(RelayError::MalformattedP2SHOutput) }
        else if c == 6 { Some(RelayError::MalformattedP2PKHOutput) }
        else if c == 7 { Some(RelayError::MalformattedWitnessOutput) }
        else if c == 8 { Some(RelayError::MalformattedOutput) }
        else if c == 9 { Some(RelayError::WrongLengthHeader) }
        else if c == 10 { Some(RelayError::UnexpectedDifficultyChange) }
        else if c == 11 { Some(RelayError::InsufficientWork) }
        else if c == 12 { Some(RelayError::InvalidChain) }
        else if c == 13 { Some(RelayError::WrongDigest) }
        else if c == 14 { Some(RelayError::WrongMerkleRoot) }
        else if c == 15 { Some(RelayError::WrongPrevHash) }
        else if c == 16 { Some(RelayError::InvalidVin) }
        else if c == 17 { Some(RelayError::InvalidVout) }
        else if c == 18 { Some(RelayError::WrongTxID) }
        else if c == 19 { Some(RelayError::BadMerkleProof) }
        else if c == 20 { Some(RelayError::OutputLengthMismatch) }
        else if c == 21 { Some(RelayError::UnknownError) }
        else { None }
    }

    /// Recovers an error from its numeric code; `None` for codes outside the
    /// taxonomy.
    pub fn from_code(c: u32) -> (e: Option<RelayError>)
        ensures
            e == RelayError::from_code_spec(c),
    {
        if c == 0 { Some(RelayError::AlreadyInit) }
        else if c == 1 { Some(RelayError::InsufficientStateSpace) }
        else if c == 2 { Some(RelayError::ReadOverrun) }
        else if c == 3 { Some(RelayError::BadCompactInt) }
        else if c == 4 { Some(RelayError::MalformattedOpReturnOutput) }
        else if c == 5 { Some(RelayError::MalformattedP2SHOutput) }
        else if c == 6 { Some(RelayError::MalformattedP2PKHOutput) }
        else if c == 7 { Some(RelayError::MalformattedWitnessOutput) }
        else if c == 8 { Some(RelayError::MalformattedOutput) }
        else if c == 9 { Some(RelayError::WrongLengthHeader) }
        else if c == 10 { Some(RelayError::UnexpectedDifficultyChange) }
        else if c == 11 { Some(RelayError::InsufficientWork) }
        else if c == 12 { Some(RelayError::InvalidChain) }
        else if c == 13 { Some(RelayError::WrongDigest) }
        else if c == 14 { Some(RelayError::WrongMerkleRoot) }
        else if c == 15 { Some(RelayError::WrongPrevHash) }
        else if c == 16 { Some(RelayError::InvalidVin) }
        else if c == 17 { Some(RelayError::InvalidVout) }
        else if c == 18 { Some(RelayError::WrongTxID) }
        else if c == 19 { Some(RelayError::BadMerkleProof) }
        else if c == 20 { Some(RelayError::OutputLengthMismatch) }
        else if c == 21 { Some(RelayError::UnknownError) }
        else { None }
    }

    /// The fixed display name of this error.
    pub fn description(&self) -> (s: &'static str)
        ensures
            s@ == self.description_spec(),
    {
        match self {
            RelayError::AlreadyInit => "AlreadyInit",
            RelayError::InsufficientStateSpace => "InsufficientStateSpace",
            RelayError::ReadOverrun => "ReadOverrun",
            RelayError::BadCompactInt => "BadCompactInt",
            RelayError::MalformattedOpReturnOutput => "MalformattedOpReturnOutput",
            RelayError::MalformattedP2SHOutput => "MalformattedP2SHOutput",
            RelayError::MalformattedP2PKHOutput => "MalformattedP2PKHOutput",
            RelayError::MalformattedWitnessOutput => "MalformattedWitnessOutput",
            RelayError::MalformattedOutput => "MalformattedOutput",
            RelayError::WrongLengthHeader => "WrongLengthHeader",
            RelayError::UnexpectedDifficultyChange => "UnexpectedDifficultyChange",
            RelayError::InsufficientWork => "InsufficientWork",
            RelayError::InvalidChain => "InvalidChain",
            RelayError::WrongDigest => "WrongDigest",
            RelayError::WrongMerkleRoot => "WrongMerkleRoot",
            RelayError::WrongPrevHash => "WrongPrevHash",
            RelayError::InvalidVin => "InvalidVin",
            RelayError::InvalidVout => "InvalidVout",
            RelayError::WrongTxID => "WrongTxID",
            RelayError::BadMerkleProof => "BadMerkleProof",
            RelayError::OutputLengthMismatch => "OutputLengthMismatch",
            RelayError::UnknownError => "UnknownError",
        }
    }

    /// The display name of each variant.
    pub open spec fn description_spec(self) -> Seq<char> {
        match self {
            RelayError::AlreadyInit => "AlreadyInit"@,
            RelayError::InsufficientStateSpace => "InsufficientStateSpace"@,
            RelayError::ReadOverrun => "ReadOverrun"@,
            RelayError::BadCompactInt => "BadCompactInt"@,
            RelayError::MalformattedOpReturnOutput => "MalformattedOpReturnOutput"@,
            RelayError::MalformattedP2SHOutput => "MalformattedP2SHOutput"@,
            RelayError::MalformattedP2PKHOutput => "MalformattedP2PKHOutput"@,
            RelayError::MalformattedWitnessOutput => "MalformattedWitnessOutput"@,
            RelayError::MalformattedOutput => "MalformattedOutput"@,
            RelayError::WrongLengthHeader => "WrongLengthHeader"@,
            RelayError::UnexpectedDifficultyChange => "UnexpectedDifficultyChange"@,
            RelayError::InsufficientWork => "InsufficientWork"@,
            RelayError::InvalidChain => "InvalidChain"@,
            RelayError::WrongDigest => "WrongDigest"@,
            RelayError::WrongMerkleRoot => "WrongMerkleRoot"@,
            RelayError::WrongPrevHash => "WrongPrevHash"@,
            RelayError::InvalidVin => "InvalidVin"@,
            RelayError::InvalidVout => "InvalidVout"@,
            RelayError::WrongTxID => "WrongTxID"@,
            RelayError::BadMerkleProof => "BadMerkleProof"@,
            RelayError::OutputLengthMismatch => "OutputLengthMismatch"@,
            RelayError::UnknownError => "UnknownError"@,
        }
    }
}

/// The numeric codes and the errors they name are congruent by construction:
/// decoding an error's own code always yields that error back.
pub proof fn lemma_error_code_round_trip(e: RelayError)
    ensures
        RelayError::from_code_spec(e.code_spec()) == Some(e),
{
}

} // verus!
