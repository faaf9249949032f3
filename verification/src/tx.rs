//! Validation of transaction input and output vectors, and recomputation of
//! a transaction's canonical id.
//!
//! A `vin` is a CompactInt count followed by that many inputs, each a
//! 36-byte outpoint, a CompactInt-prefixed script-sig, and a 4-byte
//! sequence. A `vout` is a CompactInt count followed by that many outputs,
//! each an 8-byte value and a CompactInt-prefixed script. A vector is valid
//! when it holds at least one record and is walked to completion with no
//! bytes left over. The transaction id is the double-SHA-256 digest of
//! `version || vin || vout || locktime`.

use vstd::prelude::*;

use crate::bytes::le_bytes_value;
use crate::bytes::le_u64;
use crate::bytes::lemma_le_bytes_value_bound;
use crate::bytes::lemma_pow256_values;
use crate::bytes::read_bytes;
use crate::compact_int::decode;
use crate::compact_int::decode_spec;
use crate::errors::RelayError;
use crate::hash::hash256;
use crate::hash::hash256_of;

verus! {

/// The serialized length of the input record at `off`: outpoint (36),
/// script-sig length prefix and script, sequence (4). `None` when the
/// length prefix itself cannot be read.
pub open spec fn input_len_at(b: Seq<u8>, off: int) -> Option<int> {
    match decode_spec(b, off + 36) {
        Some(vc) => Some(40 + vc.1 + vc.0),
        None => None,
    }
}

/// The serialized length of the output record at `off`: value (8), script
/// length prefix and script. `None` when the length prefix itself cannot be
/// read.
pub open spec fn output_len_at(b: Seq<u8>, off: int) -> Option<int> {
    match decode_spec(b, off + 8) {
        Some(vc) => Some(8 + vc.1 + vc.0),
        None => None,
    }
}

/// Walking `n` input records from `off` consumes exactly the rest of `b`.
pub open spec fn vin_records_ok(b: Seq<u8>, off: int, n: int) -> bool
    decreases n,
{
    if n <= 0 {
        off == b.len()
    } else if off >= b.len() {
        false
    } else {
        match input_len_at(b, off) {
            Some(l) => vin_records_ok(b, off + l, n - 1),
            None => false,
        }
    }
}

/// Walking `n` output records from `off` consumes exactly the rest of `b`.
pub open spec fn vout_records_ok(b: Seq<u8>, off: int, n: int) -> bool
    decreases n,
{
    if n <= 0 {
        off == b.len()
    } else if off >= b.len() {
        false
    } else {
        match output_len_at(b, off) {
            Some(l) => vout_records_ok(b, off + l, n - 1),
            None => false,
        }
    }
}

/// A well-formed input vector: a readable count of at least one, and the
/// records walk to completion.
pub open spec fn vin_valid(b: Seq<u8>) -> bool {
    match decode_spec(b, 0) {
        Some(nc) => nc.0 >= 1 && vin_records_ok(b, nc.1, nc.0 as int),
        None => false,
    }
}

/// A well-formed output vector: a readable count of at least one, and the
/// records walk to completion.
pub open spec fn vout_valid(b: Seq<u8>) -> bool {
    match decode_spec(b, 0) {
        Some(nc) => nc.0 >= 1 && vout_records_ok(b, nc.1, nc.0 as int),
        None => false,
    }
}

/// Checks that `vin` is a properly formatted input vector.
/// Succeeds exactly on well-formed vectors; rejects with `InvalidVin`.
pub fn validate_vin(vin: &[u8]) -> (r: Result<(), RelayError>)
    ensures
        r is Ok <==> vin_valid(vin@),
        r matches Err(e) ==> e == RelayError::InvalidVin,
{
    let blen = vin.len();
    let (n, c) = match decode(vin, 0) {
        Ok(nc) => nc,
        Err(_) => {
            return Err(RelayError::InvalidVin);
        },
    };
    if n == 0 {
        return Err(RelayError::InvalidVin);
    }
    let mut offset: usize = c;
    let mut i: u64 = 0;
    while i < n
        invariant
            vin@.len() == blen,
            i <= n,
            offset <= blen,
            vin_valid(vin@) <==> vin_records_ok(vin@, offset as int, n - i),
        decreases n - i,
    {
        if offset >= blen || blen - offset < 37 {
            return Err(RelayError::InvalidVin);
        }
        let (slen, sc) = match decode(vin, offset + 36) {
            Ok(vc) => vc,
            Err(_) => {
                return Err(RelayError::InvalidVin);
            },
        };
        let rem: usize = blen - offset - 36 - sc;
        if (rem as u64) < 4 || slen > (rem as u64) - 4 {
            proof {
                let l = input_len_at(vin@, offset as int).unwrap();
                assert(offset + l > blen);
                assert(!vin_records_ok(vin@, offset + l, n - i - 1));
            }
            return Err(RelayError::InvalidVin);
        }
        offset = offset + 36 + sc + (slen as usize) + 4;
        i = i + 1;
    }
    if offset == blen {
        Ok(())
    } else {
        Err(RelayError::InvalidVin)
    }
}

/// Checks that `vout` is a properly formatted output vector.
/// Succeeds exactly on well-formed vectors; rejects with `InvalidVout`.
pub fn validate_vout(vout: &[u8]) -> (r: Result<(), RelayError>)
    ensures
        r is Ok <==> vout_valid(vout@),
        r matches Err(e) ==> e == RelayError::InvalidVout,
{
    let blen = vout.len();
    let (n, c) = match decode(vout, 0) {
        Ok(nc) => nc,
        Err(_) => {
            return Err(RelayError::InvalidVout);
        },
    };
    if n == 0 {
        return Err(RelayError::InvalidVout);
    }
    let mut offset: usize = c;
    let mut i: u64 = 0;
    while i < n
        invariant
            vout@.len() == blen,
            i <= n,
            offset <= blen,
            vout_valid(vout@) <==> vout_records_ok(vout@, offset as int, n - i),
        decreases n - i,
    {
        if offset >= blen || blen - offset < 9 {
            return Err(RelayError::InvalidVout);
        }
        let (slen, sc) = match decode(vout, offset + 8) {
            Ok(vc) => vc,
            Err(_) => {
                return Err(RelayError::InvalidVout);
            },
        };
        let rem: usize = blen - offset - 8 - sc;
        if slen > rem as u64 {
            proof {
                let l = output_len_at(vout@, offset as int).unwrap();
                assert(offset + l > blen);
                assert(!vout_records_ok(vout@, offset + l, n - i - 1));
            }
            return Err(RelayError::InvalidVout);
        }
        offset = offset + 8 + sc + (slen as usize);
        i = i + 1;
    }
    if offset == blen {
        Ok(())
    } else {
        Err(RelayError::InvalidVout)
    }
}

/// One transaction input, byte-exact: a 36-byte outpoint, the script-sig,
/// and the little-endian sequence number.
#[derive(Clone, Debug, PartialEq, Eq)]
pub struct TxIn {
    /// The 36-byte outpoint: a 32-byte transaction id and a 4-byte index.
    pub outpoint: Vec<u8>,
    /// The script-sig, without its length prefix.
    pub script_sig: Vec<u8>,
    /// The sequence number.
    pub sequence: u32,
}

/// One transaction output, byte-exact: the little-endian value and the
/// script. The script's declared length equals the bytes parsed into
/// `script` by construction.
#[derive(Clone, Debug, PartialEq, Eq)]
pub struct TxOut {
    /// The output value in satoshi.
    pub value: u64,
    /// The output script, without its length prefix.
    pub script: Vec<u8>,
}

/// Parses the input record at `offset`, returning the record and its
/// serialized length. Succeeds exactly when the whole record lies within
/// `bytes`; otherwise `InvalidVin`.
pub fn parse_tx_in(bytes: &[u8], offset: usize) -> (r: Result<(TxIn, usize), RelayError>)
    ensures
        r is Ok <==> (input_len_at(bytes@, offset as int) matches Some(l) && offset + l
            <= bytes@.len()),
        r matches Ok(p) ==> decode_spec(bytes@, offset + 36) matches Some(vc) && p.1 == 40 + vc.1
            + vc.0 && p.0.outpoint@ == bytes@.subrange(offset as int, offset + 36)
            && p.0.script_sig@ == bytes@.subrange(offset + 36 + vc.1, offset + 36 + vc.1 + vc.0)
            && p.0.sequence == le_bytes_value(bytes@.subrange(offset + p.1 - 4, offset + p.1)),
        r matches Err(e) ==> e == RelayError::InvalidVin,
{
    let blen = bytes.len();
    let outpoint_slice = match read_bytes(bytes, offset, 36) {
        Ok(s) => s,
        Err(_) => {
            return Err(RelayError::InvalidVin);
        },
    };
    let (slen, sc) = match decode(bytes, offset + 36) {
        Ok(vc) => vc,
        Err(_) => {
            return Err(RelayError::InvalidVin);
        },
    };
    let rem: usize = blen - offset - 36 - sc;
    if (rem as u64) < 4 || slen > (rem as u64) - 4 {
        return Err(RelayError::InvalidVin);
    }
    let script_start = offset + 36 + sc;
    let script_sig_slice = match read_bytes(bytes, script_start, slen as usize) {
        Ok(s) => s,
        Err(_) => {
            proof {
                assert(false);
            }
            return Err(RelayError::InvalidVin);
        },
    };
    let seq_slice = match read_bytes(bytes, script_start + slen as usize, 4) {
        Ok(s) => s,
        Err(_) => {
            proof {
                assert(false);
            }
            return Err(RelayError::InvalidVin);
        },
    };
    let sequence = le_u64(seq_slice) as u32;
    proof {
        lemma_le_bytes_value_bound(seq_slice@);
        lemma_pow256_values();
    }
    let consumed = 40 + sc + slen as usize;
    Ok(
        (
            TxIn {
                outpoint: vstd::slice::slice_to_vec(outpoint_slice),
                script_sig: vstd::slice::slice_to_vec(script_sig_slice),
                sequence,
            },
            consumed,
        ),
    )
}

/// Parses the output record at `offset`, returning the record and its
/// serialized length. Succeeds exactly when the whole record lies within
/// `bytes`; otherwise `InvalidVout`.
pub fn parse_tx_out(bytes: &[u8], offset: usize) -> (r: Result<(TxOut, usize), RelayError>)
    ensures
        r is Ok <==> (output_len_at(bytes@, offset as int) matches Some(l) && offset + l
            <= bytes@.len()),
        r matches Ok(p) ==> decode_spec(bytes@, offset + 8) matches Some(vc) && p.1 == 8 + vc.1
            + vc.0 && p.0.value == le_bytes_value(bytes@.subrange(offset as int, offset + 8))
            && p.0.script@ == bytes@.subrange(offset + 8 + vc.1, offset + 8 + vc.1 + vc.0),
        r matches Err(e) ==> e == RelayError::InvalidVout,
{
    let blen = bytes.len();
    let value_slice = match read_bytes(bytes, offset, 8) {
        Ok(s) => s,
        Err(_) => {
            return Err(RelayError::InvalidVout);
        },
    };
    let (slen, sc) = match decode(bytes, offset + 8) {
        Ok(vc) => vc,
        Err(_) => {
            return Err(RelayError::InvalidVout);
        },
    };
    let rem: usize = blen - offset - 8 - sc;
    if slen > rem as u64 {
        return Err(RelayError::InvalidVout);
    }
    let script_slice = match read_bytes(bytes, offset + 8 + sc, slen as usize) {
        Ok(s) => s,
        Err(_) => {
            proof {
                assert(false);
            }
            return Err(RelayError::InvalidVout);
        },
    };
    let value = le_u64(value_slice);
    proof {
        lemma_le_bytes_value_bound(value_slice@);
        lemma_pow256_values();
    }
    let consumed = 8 + sc + slen as usize;
    Ok((TxOut { value, script: vstd::slice::slice_to_vec(script_slice) }, consumed))
}

/// Appends all of `src` to `dst`.
fn append_slice(dst: &mut Vec<u8>, src: &[u8])
    ensures
        final(dst)@ == old(dst)@ + src@,
{
    let n = src.len();
    let mut i: usize = 0;
    while i < n
        invariant
            i <= n,
            n == src@.len(),
            dst@ == old(dst)@ + src@.take(i as int),
        decreases n - i,
    {
        dst.push(*vstd::slice::slice_index_get(src, i));
        proof {
            assert(old(dst)@ + src@.take(i + 1) =~= (old(dst)@ + src@.take(i as int)).push(
                src@[i as int],
            ));
        }
        i = i + 1;
    }
    proof {
        assert(src@.take(n as int) =~= src@);
    }
}

/// Recomputes the canonical transaction id: the double-SHA-256 digest of
/// the serialized `version || vin || vout || locktime`.
pub fn compute_txid(version: &[u8; 4], vin: &[u8], vout: &[u8], locktime: &[u8; 4]) -> (r: [u8;
    32])
    ensures
        r@ == hash256_of(version@ + vin@ + vout@ + locktime@),
{
    let mut buf: Vec<u8> = Vec::new();
    append_slice(&mut buf, version.as_slice());
    append_slice(&mut buf, vin);
    append_slice(&mut buf, vout);
    append_slice(&mut buf, locktime.as_slice());
    proof {
        assert(buf@ =~= version@ + vin@ + vout@ + locktime@);
    }
    hash256(buf.as_slice())
}

} // verus!
