//! Merkle-inclusion proof checking.
//!
//! Starting from a leaf (a transaction id), each sibling node in the path is
//! combined with the running digest by the double hash, ordered by the
//! current bit of the leaf index (even: leaf-then-sibling; odd:
//! sibling-then-leaf), and the index is halved. The proof holds when the
//! running digest ends at the claimed root and the leaf index carries no
//! bits beyond the implied tree height.

use vstd::prelude::*;

use crate::bytes::eq32;
use crate::hash::hash256;
use crate::hash::hash256_of;

verus! {

/// `2^k`: the number of leaves a tree of height `k` can hold.
pub open spec fn pow2(k: nat) -> nat
    decreases k,
{
    if k == 0 {
        1
    } else {
        2 * pow2((k - 1) as nat)
    }
}

/// One combining step: the double hash of the running digest and its
/// sibling, ordered by the parity of the index at this level.
pub open spec fn merkle_step(cur: Seq<u8>, sibling: Seq<u8>, odd: bool) -> Seq<u8> {
    if odd {
        hash256_of(sibling + cur)
    } else {
        hash256_of(cur + sibling)
    }
}

/// The root implied by folding the sibling path over `cur`, ascending one
/// tree level (and one index bit) per node.
pub open spec fn merkle_fold(cur: Seq<u8>, nodes: Seq<[u8; 32]>, index: nat) -> Seq<u8>
    decreases nodes.len(),
{
    if nodes.len() == 0 {
        cur
    } else {
        merkle_fold(merkle_step(cur, nodes[0]@, index % 2 == 1), nodes.skip(1), index / 2)
    }
}

/// A valid proof: the fold of the path over the leaf reaches the claimed
/// root, and the leaf index fits the tree height the path implies.
pub open spec fn merkle_proof_valid(
    leaf: Seq<u8>,
    nodes: Seq<[u8; 32]>,
    index: u64,
    root: Seq<u8>,
) -> bool {
    &&& merkle_fold(leaf, nodes, index as nat) == root
    &&& (index as nat) < pow2(nodes.len() as nat)
}

proof fn lemma_halving_reaches_zero(index: nat, k: nat)
    ensures
        index_after(index, k) == 0 <==> index < pow2(k),
    decreases k,
{
    if k > 0 {
        lemma_halving_reaches_zero(index / 2, (k - 1) as nat);
    }
}

/// The index left after `k` halvings.
spec fn index_after(index: nat, k: nat) -> nat
    decreases k,
{
    if k == 0 {
        index
    } else {
        index_after(index / 2, (k - 1) as nat)
    }
}

/// The double hash of `a || b`.
fn concat_hash(a: &[u8; 32], b: &[u8; 32]) -> (r: [u8; 32])
    ensures
        r@ == hash256_of(a@ + b@),
{
    let mut buf: Vec<u8> = Vec::new();
    let mut i: usize = 0;
    while i < 32
        invariant
            i <= 32,
            buf@ == a@.take(i as int),
        decreases 32 - i,
    {
        buf.push(*vstd::array::array_index_get(a, i));
        proof {
            assert(a@.take(i + 1) =~= a@.take(i as int).push(a@[i as int]));
        }
        i = i + 1;
    }
    let mut j: usize = 0;
    while j < 32
        invariant
            j <= 32,
            buf@ == a@.take(32) + b@.take(j as int),
        decreases 32 - j,
    {
        buf.push(*vstd::array::array_index_get(b, j));
        proof {
            assert(b@.take(j + 1) =~= b@.take(j as int).push(b@[j as int]));
            assert((a@.take(32) + b@.take(j as int)).push(b@[j as int]) =~= a@.take(32) + b@.take(
                j + 1,
            ));
        }
        j = j + 1;
    }
    proof {
        assert(a@.take(32) + b@.take(32) =~= a@ + b@);
    }
    hash256(buf.as_slice())
}

/// Checks a leaf against a claimed root via the sibling-node path.
/// Returns exactly whether the proof connects `leaf` to `root` at
/// `index`.
pub fn verify_merkle(leaf: &[u8; 32], nodes: &Vec<[u8; 32]>, index: u64, root: &[u8; 32]) -> (r:
    bool)
    ensures
        r == merkle_proof_valid(leaf@, nodes@, index, root@),
{
    let n = nodes.len();
    let mut cur: [u8; 32] = *leaf;
    let mut idx: u64 = index;
    let mut i: usize = 0;
    proof {
        assert(nodes@.skip(0) =~= nodes@);
    }
    while i < n
        invariant
            i <= n,
            n == nodes@.len(),
            merkle_fold(cur@, nodes@.skip(i as int), idx as nat) == merkle_fold(
                leaf@,
                nodes@,
                index as nat,
            ),
            index_after(idx as nat, (n - i) as nat) == index_after(index as nat, n as nat),
        decreases n - i,
    {
        let node = *vstd::slice::slice_index_get(nodes.as_slice(), i);
        proof {
            assert(nodes@.skip(i as int)[0] == nodes@[i as int]);
            assert(nodes@.skip(i as int).skip(1) =~= nodes@.skip(i + 1));
        }
        if idx % 2 == 1 {
            cur = concat_hash(&node, &cur);
        } else {
            cur = concat_hash(&cur, &node);
        }
        idx = idx / 2;
        i = i + 1;
    }
    proof {
        assert(nodes@.skip(n as int) =~= Seq::<[u8; 32]>::empty());
        lemma_halving_reaches_zero(index as nat, n as nat);
    }
    let root_matches = eq32(&cur, root);
    root_matches && idx == 0
}

} // verus!
