//! Classification of transaction output scripts.
//!
//! A script is matched against the fixed standard templates (pay-to-pubkey-
//! hash, pay-to-script-hash, version-0 witness programs, op_return data
//! carriers); the extracted payload is the embedded hash, witness program,
//! or pushed data. A script whose leading opcodes announce a template that
//! the rest of the script does not complete is rejected with the error of
//! that template.

use vstd::prelude::*;

use crate::errors::RelayError;

verus! {

/// The standard output script templates.
#[derive(Clone, Copy, Debug, PartialEq, Eq, Structural)]
pub enum OutputType {
    /// Pay-to-pubkey-hash; the payload is a 20-byte hash.
    P2PKH,
    /// Pay-to-script-hash; the payload is a 20-byte hash.
    P2SH,
    /// Version-0 witness program; the payload is 20 or 32 bytes.
    WitnessV0,
    /// Data carrier; the payload is the pushed data.
    OpReturn,
    /// Reserved for callers that record outputs the engine never produced;
    /// classification itself rejects unrecognized scripts instead.
    Unknown,
}

/// `OP_DUP OP_HASH160 <0x14><20 bytes> OP_EQUALVERIFY OP_CHECKSIG`.
pub open spec fn is_p2pkh(s: Seq<u8>) -> bool {
    &&& s.len() == 25
    &&& s[0] == 0x76
    &&& s[1] == 0xa9
    &&& s[2] == 0x14
    &&& s[23] == 0x88
    &&& s[24] == 0xac
}

/// `OP_HASH160 <0x14><20 bytes> OP_EQUAL`.
pub open spec fn is_p2sh(s: Seq<u8>) -> bool {
    &&& s.len() == 23
    &&& s[0] == 0xa9
    &&& s[1] == 0x14
    &&& s[22] == 0x87
}

/// `OP_0` and a 20- or 32-byte program behind its length tag.
pub open spec fn is_witness_v0(s: Seq<u8>) -> bool {
    &&& s.len() >= 2
    &&& s[0] == 0x00
    &&& (s[1] == 0x14 || s[1] == 0x20)
    &&& s.len() == 2 + s[1]
}

/// `OP_RETURN` and one direct data push covering the rest of the script.
pub open spec fn is_op_return(s: Seq<u8>) -> bool {
    &&& s.len() >= 2
    &&& s[0] == 0x6a
    &&& s[1] <= 75
    &&& s.len() == 2 + s[1]
}

/// Template classification of a script: the type and payload, or the error
/// of the template whose prefix was seen. Every accepted template covers
/// the whole script.
pub open spec fn classify_spec(s: Seq<u8>) -> Result<(OutputType, Seq<u8>), RelayError> {
    if s.len() >= 2 && s[0] == 0x76 && s[1] == 0xa9 {
        if is_p2pkh(s) {
            Ok((OutputType::P2PKH, s.subrange(3, 23)))
        } else {
            Err(RelayError::MalformattedP2PKHOutput)
        }
    } else if s.len() >= 1 && s[0] == 0xa9 {
        if is_p2sh(s) {
            Ok((OutputType::P2SH, s.subrange(2, 22)))
        } else {
            Err(RelayError::MalformattedP2SHOutput)
        }
    } else if s.len() >= 1 && s[0] == 0x00 {
        if is_witness_v0(s) {
            Ok((OutputType::WitnessV0, s.subrange(2, s.len() as int)))
        } else {
            Err(RelayError::MalformattedWitnessOutput)
        }
    } else if s.len() >= 1 && s[0] == 0x6a {
        if is_op_return(s) {
            Ok((OutputType::OpReturn, s.subrange(2, s.len() as int)))
        } else {
            Err(RelayError::MalformattedOpReturnOutput)
        }
    } else {
        Err(RelayError::MalformattedOutput)
    }
}

/// Classification under a declared script length: classification errors
/// come first; a classified script whose declared length differs from the
/// bytes consumed (always the whole script) is an `OutputLengthMismatch`.
pub open spec fn classify_output_spec(s: Seq<u8>, declared: int) -> Result<
    (OutputType, Seq<u8>),
    RelayError,
> {
    match classify_spec(s) {
        Ok(tp) => if declared == s.len() {
            Ok(tp)
        } else {
            Err(RelayError::OutputLengthMismatch)
        },
        Err(e) => Err(e),
    }
}

/// Classifies a transaction output script and extracts its payload.
///
/// `declared_len` is the script length the enclosing output announced; it
/// must equal the number of bytes classification consumed.
pub fn classify_output(script: &[u8], declared_len: usize) -> (r: Result<
    (OutputType, Vec<u8>),
    RelayError,
>)
    ensures
        r is Ok <==> classify_output_spec(script@, declared_len as int) is Ok,
        r matches Ok(p) ==> classify_output_spec(script@, declared_len as int) matches Ok(q)
            && q.0 == p.0 && q.1 == p.1@,
        r matches Err(e) ==> classify_output_spec(script@, declared_len as int) matches Err(e2)
            && e == e2,
{
    let n = script.len();
    if n >= 2 && *vstd::slice::slice_index_get(script, 0) == 0x76 && *vstd::slice::slice_index_get(
        script,
        1,
    ) == 0xa9 {
        if n == 25 && *vstd::slice::slice_index_get(script, 2) == 0x14
            && *vstd::slice::slice_index_get(script, 23) == 0x88 && *vstd::slice::slice_index_get(
            script,
            24,
        ) == 0xac {
            if declared_len != n {
                return Err(RelayError::OutputLengthMismatch);
            }
            let payload = vstd::slice::slice_to_vec(vstd::slice::slice_subrange(script, 3, 23));
            Ok((OutputType::P2PKH, payload))
        } else {
            Err(RelayError::MalformattedP2PKHOutput)
        }
    } else if n >= 1 && *vstd::slice::slice_index_get(script, 0) == 0xa9 {
        if n == 23 && *vstd::slice::slice_index_get(script, 1) == 0x14
            && *vstd::slice::slice_index_get(script, 22) == 0x87 {
            if declared_len != n {
                return Err(RelayError::OutputLengthMismatch);
            }
            let payload = vstd::slice::slice_to_vec(vstd::slice::slice_subrange(script, 2, 22));
            Ok((OutputType::P2SH, payload))
        } else {
            Err(RelayError::MalformattedP2SHOutput)
        }
    } else if n >= 1 && *vstd::slice::slice_index_get(script, 0) == 0x00 {
        if n >= 2 {
            let tag = *vstd::slice::slice_index_get(script, 1);
            if (tag == 0x14 || tag == 0x20) && n == 2 + tag as usize {
                if declared_len != n {
                    return Err(RelayError::OutputLengthMismatch);
                }
                let payload = vstd::slice::slice_to_vec(
                    vstd::slice::slice_subrange(script, 2, n),
                );
                Ok((OutputType::WitnessV0, payload))
            } else {
                Err(RelayError::MalformattedWitnessOutput)
            }
        } else {
            Err(RelayError::MalformattedWitnessOutput)
        }
    } else if n >= 1 && *vstd::slice::slice_index_get(script, 0) == 0x6a {
        if n >= 2 {
            let push = *vstd::slice::slice_index_get(script, 1);
            if push <= 75 && n == 2 + push as usize {
                if declared_len != n {
                    return Err(RelayError::OutputLengthMismatch);
                }
                let payload = vstd::slice::slice_to_vec(
                    vstd::slice::slice_subrange(script, 2, n),
                );
                Ok((OutputType::OpReturn, payload))
            } else {
                Err(RelayError::MalformattedOpReturnOutput)
            }
        } else {
            Err(RelayError::MalformattedOpReturnOutput)
        }
    } else {
        Err(RelayError::MalformattedOutput)
    }
}

} // verus!
