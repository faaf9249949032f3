//! Checked byte-slice reads and little-endian integer interpretation.
//!
//! Every multi-byte read that the parsers perform goes through
//! [`read_bytes`]; no component indexes raw slices directly. The spec
//! functions here give byte strings their numeric meaning: a byte string of
//! length `n` denotes an integer below `256^n`, least-significant byte first.

use vstd::prelude::*;

use crate::errors::RelayError;

verus! {

/// `256^k`, the number of values a `k`-byte string can denote.
pub open spec fn pow256(k: nat) -> nat
    decreases k,
{
    if k == 0 {
        1
    } else {
        256 * pow256((k - 1) as nat)
    }
}

/// The integer a byte string denotes, least-significant byte first.
pub open spec fn le_bytes_value(s: Seq<u8>) -> nat
    decreases s.len(),
{
    if s.len() == 0 {
        0
    } else {
        (s[0] + 256 * le_bytes_value(s.drop_first())) as nat
    }
}

pub proof fn lemma_pow256_pos(k: nat)
    ensures
        pow256(k) >= 1,
    decreases k,
{
    if k > 0 {
        lemma_pow256_pos((k - 1) as nat);
    }
}

pub proof fn lemma_pow256_increases(a: nat, b: nat)
    requires
        a <= b,
    ensures
        pow256(a) <= pow256(b),
    decreases b,
{
    if a < b {
        lemma_pow256_increases(a, (b - 1) as nat);
        lemma_pow256_pos((b - 1) as nat);
    }
}

/// The concrete powers of 256 that fit the machine word sizes in use here.
pub proof fn lemma_pow256_values()
    ensures
        pow256(1) == 0x100,
        pow256(2) == 0x10000,
        pow256(3) == 0x100_0000,
        pow256(4) == 0x1_0000_0000,
        pow256(7) == 0x100_0000_0000_0000,
        pow256(8) == 0x1_0000_0000_0000_0000,
{
    assert(pow256(0) == 1);
    assert(pow256(1) == 256 * pow256(0));
    assert(pow256(2) == 256 * pow256(1));
    assert(pow256(3) == 256 * pow256(2));
    assert(pow256(4) == 256 * pow256(3));
    assert(pow256(5) == 256 * pow256(4));
    assert(pow256(6) == 256 * pow256(5));
    assert(pow256(7) == 256 * pow256(6));
    assert(pow256(8) == 256 * pow256(7));
}

/// Peeling one byte off the front of a suffix: the suffix starting at `i`
/// denotes its first byte plus 256 times the suffix starting at `i + 1`.
pub proof fn lemma_le_bytes_value_skip(s: Seq<u8>, i: int)
    requires
        0 <= i < s.len(),
    ensures
        le_bytes_value(s.skip(i)) == s[i] + 256 * le_bytes_value(s.skip(i + 1)),
{
    assert(s.skip(i).drop_first() =~= s.skip(i + 1));
    assert(s.skip(i)[0] == s[i]);
}

/// A `k`-byte string denotes a value below `256^k`.
pub proof fn lemma_le_bytes_value_bound(s: Seq<u8>)
    ensures
        le_bytes_value(s) < pow256(s.len() as nat),
    decreases s.len(),
{
    if s.len() == 0 {
    } else {
        lemma_le_bytes_value_bound(s.drop_first());
        let rest = le_bytes_value(s.drop_first());
        let p = pow256((s.len() - 1) as nat);
        assert(s[0] + 256 * rest < 256 * p) by (nonlinear_arith)
            requires
                s[0] < 256,
                rest < p,
        ;
    }
}

/// Splitting a byte string at position `k`: the whole denotes the low part
/// plus `256^k` times the high part.
pub proof fn lemma_le_bytes_value_split(s: Seq<u8>, k: int)
    requires
        0 <= k <= s.len(),
    ensures
        le_bytes_value(s) == le_bytes_value(s.take(k)) + pow256(k as nat) * le_bytes_value(
            s.skip(k),
        ),
    decreases k,
{
    if k == 0 {
        assert(s.take(0) =~= Seq::<u8>::empty());
        assert(s.skip(0) =~= s);
        assert(le_bytes_value(s.take(0)) == 0);
        assert(pow256(0) == 1);
        assert(le_bytes_value(s) == 0 + 1 * le_bytes_value(s.skip(0)));
    } else {
        lemma_le_bytes_value_split(s.drop_first(), k - 1);
        assert(s.take(k).drop_first() =~= s.drop_first().take(k - 1));
        assert(s.skip(k) =~= s.drop_first().skip(k - 1));
        let lo = le_bytes_value(s.drop_first().take(k - 1));
        let hi = le_bytes_value(s.drop_first().skip(k - 1));
        let p = pow256((k - 1) as nat);
        assert(le_bytes_value(s.skip(k)) == hi);
        assert(le_bytes_value(s.take(k)) == s.take(k)[0] + 256 * lo);
        assert(s.take(k)[0] == s[0]);
        assert(le_bytes_value(s.drop_first()) == lo + p * hi);
        assert(le_bytes_value(s) == s[0] + 256 * (lo + p * hi));
        assert(pow256(k as nat) == 256 * p);
        assert(le_bytes_value(s) == le_bytes_value(s.take(k)) + pow256(k as nat)
            * le_bytes_value(s.skip(k))) by (nonlinear_arith)
            requires
                le_bytes_value(s) == s[0] + 256 * (lo + p * hi),
                le_bytes_value(s.take(k)) == s[0] + 256 * lo,
                pow256(k as nat) == 256 * p,
                le_bytes_value(s.skip(k)) == hi,
        ;
    }
}

/// A byte string denotes zero exactly when every byte of it is zero.
pub proof fn lemma_le_bytes_value_zero(s: Seq<u8>)
    ensures
        le_bytes_value(s) == 0 <==> (forall|i: int| 0 <= i < s.len() ==> s[i] == 0),
    decreases s.len(),
{
    if s.len() > 0 {
        lemma_le_bytes_value_zero(s.drop_first());
        if le_bytes_value(s) == 0 {
            assert(le_bytes_value(s.drop_first()) == 0);
            assert forall|i: int| 0 <= i < s.len() implies s[i] == 0 by {
                if i >= 1 {
                    assert(s.drop_first()[i - 1] == 0);
                }
            }
        } else {
            if s[0] == 0 && forall|i: int| 1 <= i < s.len() ==> s[i] == 0 {
                assert forall|j: int| 0 <= j < s.drop_first().len() implies s.drop_first()[j] == 0
                    by {
                    assert(s.drop_first()[j] == s[j + 1]);
                }
                assert(le_bytes_value(s.drop_first()) == 0);
                assert(false);
            }
        }
    }
}

/// Reads a little-endian value of at most 8 bytes.
pub fn le_u64(s: &[u8]) -> (r: u64)
    requires
        s@.len() <= 8,
    ensures
        r == le_bytes_value(s@),
{
    proof {
        lemma_pow256_values();
    }
    let len = s.len();
    let mut r: u64 = 0;
    let mut j: usize = 0;
    while j < len
        invariant
            j <= len,
            len == s@.len() <= 8,
            r == le_bytes_value(s@.skip(len - j)),
            r < pow256(j as nat),
        decreases len - j,
    {
        proof {
            lemma_pow256_values();
            lemma_pow256_increases(j as nat, 7);
            lemma_le_bytes_value_skip(s@, len - j - 1);
            lemma_le_bytes_value_bound(s@.skip(len - j - 1));
            assert(s@.skip(len - j - 1).len() == j + 1);
        }
        let byte = *vstd::slice::slice_index_get(s, len - 1 - j);
        r = r * 256 + byte as u64;
        j += 1;
    }
    proof {
        assert(s@.skip(0) =~= s@);
    }
    r
}

/// Decides whether every byte of `s` is zero, so whether `s` denotes zero.
pub fn all_zero(s: &[u8]) -> (r: bool)
    ensures
        r == (forall|i: int| 0 <= i < s@.len() ==> s@[i] == 0),
{
    let len = s.len();
    let mut i: usize = 0;
    let mut z = true;
    while i < len
        invariant
            i <= len,
            len == s@.len(),
            z <==> (forall|j: int| 0 <= j < i ==> s@[j] == 0),
        decreases len - i,
    {
        z = z && *vstd::slice::slice_index_get(s, i) == 0;
        i = i + 1;
    }
    z
}

/// Compares two byte slices for equality.
pub fn eq_bytes(a: &[u8], b: &[u8]) -> (r: bool)
    ensures
        r == (a@ == b@),
{
    let len = a.len();
    if len != b.len() {
        return false;
    }
    let mut i: usize = 0;
    let mut eq = true;
    while i < len
        invariant
            i <= len,
            len == a@.len() == b@.len(),
            eq <==> (forall|j: int| 0 <= j < i ==> a@[j] == b@[j]),
        decreases len - i,
    {
        let av = *vstd::slice::slice_index_get(a, i);
        let bv = *vstd::slice::slice_index_get(b, i);
        eq = eq && av == bv;
        i = i + 1;
    }
    proof {
        if eq {
            assert(a@ =~= b@);
        }
    }
    eq
}

/// Compares two 32-byte digests for equality.
pub fn eq32(a: &[u8; 32], b: &[u8; 32]) -> (r: bool)
    ensures
        r == (a@ == b@),
{
    eq_bytes(a.as_slice(), b.as_slice())
}

/// Returns the `len` bytes of `data` that start at `offset`, or
/// `ReadOverrun` when the requested range runs past the end of the slice.
/// Succeeds exactly when `offset + len <= data.len()`.
pub fn read_bytes<'a>(data: &'a [u8], offset: usize, len: usize) -> (r: Result<
    &'a [u8],
    RelayError,
>)
    ensures
        r is Ok <==> offset + len <= data@.len(),
        r matches Ok(s) ==> s@ == data@.subrange(offset as int, offset + len),
        r matches Err(e) ==> e == RelayError::ReadOverrun,
{
    if offset <= data.len() && len <= data.len() - offset {
        Ok(vstd::slice::slice_subrange(data, offset, offset + len))
    } else {
        Err(RelayError::ReadOverrun)
    }
}

} // verus!
