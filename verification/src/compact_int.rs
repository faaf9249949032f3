//! Bitcoin's CompactInt (varint) encoding.
//!
//! A non-negative integer is encoded in 1, 3, 5, or 9 bytes depending on its
//! magnitude: values below `0xfd` are a single byte; otherwise a tag byte
//! (`0xfd`, `0xfe`, `0xff`) announces a 2-, 4-, or 8-byte little-endian
//! payload. Decoding accepts non-minimal encodings; encoding always emits
//! the minimal form.

use vstd::prelude::*;

use crate::bytes::le_bytes_value;
use crate::bytes::le_u64;
use crate::bytes::lemma_le_bytes_value_bound;
use crate::bytes::lemma_pow256_increases;
use crate::bytes::lemma_pow256_values;
use crate::bytes::pow256;
use crate::bytes::read_bytes;
use crate::errors::RelayError;

verus! {

/// The length of the minimal CompactInt encoding of `n`.
pub open spec fn encoded_len(n: u64) -> int {
    if n < 0xfd {
        1
    } else if n <= 0xffff {
        3
    } else if n <= 0xffff_ffff {
        5
    } else {
        9
    }
}

/// The `w`-byte little-endian string denoting `n` (modulo `256^w`),
/// least-significant byte first.
pub open spec fn nat_to_le(n: nat, w: nat) -> Seq<u8>
    decreases w,
{
    if w == 0 {
        Seq::empty()
    } else {
        seq![(n % 256) as u8] + nat_to_le(n / 256, (w - 1) as nat)
    }
}

/// The minimal CompactInt encoding of `n`.
pub open spec fn encode_spec(n: u64) -> Seq<u8> {
    if n < 0xfd {
        seq![n as u8]
    } else if n <= 0xffff {
        seq![0xfdu8] + nat_to_le(n as nat, 2)
    } else if n <= 0xffff_ffff {
        seq![0xfeu8] + nat_to_le(n as nat, 4)
    } else {
        seq![0xffu8] + nat_to_le(n as nat, 8)
    }
}

/// What decoding a CompactInt at `offset` in `b` yields: the value and the
/// number of bytes consumed, or `None` when the required bytes are missing.
pub open spec fn decode_spec(b: Seq<u8>, offset: int) -> Option<(u64, int)> {
    if !(0 <= offset < b.len()) {
        None
    } else {
        let tag = b[offset];
        if tag < 0xfd {
            Some((tag as u64, 1))
        } else {
            let w: int = if tag == 0xfd {
                2
            } else if tag == 0xfe {
                4
            } else {
                8
            };
            if offset + 1 + w <= b.len() {
                Some(
                    (le_bytes_value(b.subrange(offset + 1, offset + 1 + w)) as u64, 1 + w),
                )
            } else {
                None
            }
        }
    }
}

pub proof fn lemma_nat_to_le_len(n: nat, w: nat)
    ensures
        nat_to_le(n, w).len() == w,
    decreases w,
{
    if w > 0 {
        lemma_nat_to_le_len(n / 256, (w - 1) as nat);
    }
}

/// A value below `256^w` is denoted exactly by its `w`-byte little-endian
/// string.
pub proof fn lemma_le_bytes_value_of_nat_to_le(n: nat, w: nat)
    requires
        n < pow256(w),
    ensures
        le_bytes_value(nat_to_le(n, w)) == n,
    decreases w,
{
    if w > 0 {
        let p = pow256((w - 1) as nat);
        assert(n / 256 < p) by (nonlinear_arith)
            requires
                n < 256 * p,
        ;
        lemma_le_bytes_value_of_nat_to_le(n / 256, (w - 1) as nat);
        let s = nat_to_le(n, w);
        assert(s[0] == (n % 256) as u8);
        assert(s.drop_first() =~= nat_to_le(n / 256, (w - 1) as nat));
        assert(le_bytes_value(s) == n % 256 + 256 * (n / 256));
    }
}

/// The minimal encoding of `n` is `encoded_len(n)` bytes long.
pub proof fn lemma_encode_spec_len(n: u64)
    ensures
        encode_spec(n).len() == encoded_len(n),
{
    if n < 0xfd {
    } else if n <= 0xffff {
        lemma_nat_to_le_len(n as nat, 2);
    } else if n <= 0xffff_ffff {
        lemma_nat_to_le_len(n as nat, 4);
    } else {
        lemma_nat_to_le_len(n as nat, 8);
    }
}

/// The round trip law: decoding a freshly encoded value recovers the value
/// and consumes exactly the minimal encoded length.
pub proof fn lemma_compact_int_round_trip(n: u64)
    ensures
        decode_spec(encode_spec(n), 0) == Some((n, encoded_len(n))),
{
    lemma_pow256_values();
    let b = encode_spec(n);
    lemma_encode_spec_len(n);
    if n < 0xfd {
        assert(b[0] == n as u8);
    } else {
        let w: nat = if n <= 0xffff {
            2
        } else if n <= 0xffff_ffff {
            4
        } else {
            8
        };
        lemma_nat_to_le_len(n as nat, w);
        assert(b[0] >= 0xfd);
        assert(b.subrange(1, 1 + w as int) =~= nat_to_le(n as nat, w));
        if n <= 0xffff {
            lemma_le_bytes_value_of_nat_to_le(n as nat, 2);
        } else if n <= 0xffff_ffff {
            lemma_le_bytes_value_of_nat_to_le(n as nat, 4);
        } else {
            lemma_le_bytes_value_of_nat_to_le(n as nat, 8);
        }
        assert(le_bytes_value(b.subrange(1, 1 + w as int)) == n);
    }
}

/// Decodes the CompactInt at `offset` in `bytes`, returning the value and
/// the number of bytes consumed. Succeeds exactly when the tag byte and its
/// announced payload lie within the slice; any missing byte is reported as
/// `BadCompactInt` (a read overrun during the follow-up read included).
pub fn decode(bytes: &[u8], offset: usize) -> (r: Result<(u64, usize), RelayError>)
    ensures
        r is Ok <==> decode_spec(bytes@, offset as int) is Some,
        r matches Ok(vc) ==> decode_spec(bytes@, offset as int) == Some(
            (vc.0, vc.1 as int),
        ),
        r matches Err(e) ==> e == RelayError::BadCompactInt,
{
    let tag_slice = match read_bytes(bytes, offset, 1) {
        Ok(s) => s,
        Err(_) => {
            return Err(RelayError::BadCompactInt);
        },
    };
    let tag = *vstd::slice::slice_index_get(tag_slice, 0);
    assert(tag == bytes@[offset as int]);
    if tag < 0xfd {
        Ok((tag as u64, 1))
    } else {
        let w: usize = if tag == 0xfd {
            2
        } else if tag == 0xfe {
            4
        } else {
            8
        };
        let blen = bytes.len();
        assert(offset + 1 <= blen);
        let payload = match read_bytes(bytes, offset + 1, w) {
            Ok(s) => s,
            Err(_) => {
                return Err(RelayError::BadCompactInt);
            },
        };
        let value = le_u64(payload);
        proof {
            lemma_le_bytes_value_bound(payload@);
            lemma_pow256_increases(payload@.len() as nat, 8);
            lemma_pow256_values();
        }
        Ok((value, 1 + w))
    }
}

/// Encodes `value` in its minimal CompactInt form.
pub fn encode(value: u64) -> (r: Vec<u8>)
    ensures
        r@ == encode_spec(value),
        r@.len() == encoded_len(value),
{
    proof {
        lemma_encode_spec_len(value);
    }
    let mut out: Vec<u8> = Vec::new();
    if value < 0xfd {
        out.push(value as u8);
        assert(out@ =~= encode_spec(value));
    } else if value <= 0xffff {
        out.push(0xfd);
        push_le(&mut out, value, 2);
        assert(out@ =~= encode_spec(value));
    } else if value <= 0xffff_ffff {
        out.push(0xfe);
        push_le(&mut out, value, 4);
        assert(out@ =~= encode_spec(value));
    } else {
        out.push(0xff);
        push_le(&mut out, value, 8);
        assert(out@ =~= encode_spec(value));
    }
    out
}

/// Appends the `w`-byte little-endian string of `n` to `out`.
fn push_le(out: &mut Vec<u8>, n: u64, w: usize)
    ensures
        final(out)@ == old(out)@ + nat_to_le(n as nat, w as nat),
{
    let mut cur: u64 = n;
    let mut i: usize = 0;
    while i < w
        invariant
            i <= w,
            out@ + nat_to_le(cur as nat, (w - i) as nat) =~= old(out)@ + nat_to_le(
                n as nat,
                w as nat,
            ),
        decreases w - i,
    {
        let ghost prev = out@;
        let ghost prev_cur = cur;
        out.push((cur % 256) as u8);
        cur = cur / 256;
        i += 1;
        proof {
            assert(nat_to_le(prev_cur as nat, (w - i + 1) as nat) == seq![
                (prev_cur % 256) as u8,
            ] + nat_to_le(prev_cur as nat / 256, (w - i) as nat));
            assert(prev_cur as nat / 256 == cur as nat);
            assert(out@ + nat_to_le(cur as nat, (w - i) as nat) =~= prev + nat_to_le(
                prev_cur as nat,
                (w - i + 1) as nat,
            ));
        }
    }
    proof {
        assert(nat_to_le(cur as nat, 0) =~= Seq::<u8>::empty());
        assert(out@ =~= out@ + nat_to_le(cur as nat, 0));
    }
}

} // verus!
