//! Merkle commitment over an ordered list of 64-bit request identifiers.
//!
//! Each identifier is hashed into a leaf (8 little-endian bytes, zero-padded
//! to the 32-byte hash block); adjacent leaves are repeatedly paired and
//! hashed, and an odd leaf at any level is promoted unchanged. The guest
//! program and the on-chain admission machine both call this module, so the
//! two sides agree on the same 32-byte commitment.

use vstd::prelude::*;

use crate::keccak::{keccak256, spec_keccak256};

verus! {

/// The little-endian bytes of a 64-bit identifier.
pub open spec fn spec_le64(id: u64) -> Seq<u8> {
    Seq::new(8, |i: int| ((id >> ((i * 8) as u64)) & 0xff) as u8)
}

/// The 32-byte block a leaf is hashed from: the identifier's bytes followed
/// by zero padding.
pub open spec fn spec_leaf_block(id: u64) -> Seq<u8> {
    spec_le64(id) + Seq::new(24, |i: int| 0u8)
}

/// The leaf hash of an identifier.
pub open spec fn spec_leaf(id: u64) -> Seq<u8> {
    spec_keccak256(spec_leaf_block(id))
}

/// One level of tree construction: adjacent nodes are paired and hashed; a
/// trailing odd node is promoted unchanged.
pub open spec fn spec_pair_step(level: Seq<Seq<u8>>) -> Seq<Seq<u8>> {
    Seq::new((level.len() + 1) / 2, |i: int|
        if 2 * i + 1 < level.len() {
            spec_keccak256(level[2 * i] + level[2 * i + 1])
        } else {
            level[2 * i]
        })
}

/// The root of a non-empty level, reached by repeated pairing.
pub open spec fn spec_reduce(level: Seq<Seq<u8>>) -> Seq<u8>
    decreases level.len(),
{
    if level.len() == 0 {
        Seq::empty()
    } else if level.len() == 1 {
        level[0]
    } else {
        spec_reduce(spec_pair_step(level))
    }
}

/// The Merkle root over a list of request identifiers. The empty list maps
/// to the all-zero sentinel root.
pub open spec fn spec_merkle_root(ids: Seq<u64>) -> Seq<u8> {
    if ids.len() == 0 {
        Seq::new(32, |i: int| 0u8)
    } else {
        spec_reduce(ids.map(|i: int, id: u64| spec_leaf(id)))
    }
}

/// Compute the Merkle root over the given request identifiers.
pub fn compute_merkle_root(ids: &Vec<u64>) -> (r: Vec<u8>)
    ensures
        r@ == spec_merkle_root(ids@),
        r@.len() == 32,
{
    if ids.len() == 0 {
        let zeros = vec![0u8; 32];
        proof {
            assert(zeros@ =~= spec_merkle_root(ids@));
        }
        return zeros;
    }
    // Hash each identifier into a leaf.
    let mut leaves: Vec<Vec<u8>> = Vec::new();
    let mut i: usize = 0;
    while i < ids.len()
        invariant
            i <= ids@.len(),
            leaves@.len() == i,
            forall|j: int| 0 <= j < i ==> #[trigger] leaves@[j]@ == spec_leaf(ids@[j]),
        decreases ids@.len() - i,
    {
        let id = ids[i];
        let mut block: Vec<u8> = Vec::new();
        let mut b: usize = 0;
        while b < 8
            invariant
                b <= 8,
                block@.len() == b,
                forall|k: int| 0 <= k < b ==> block@[k] == spec_le64(id)[k],
            decreases 8 - b,
        {
            let sh = (b as u64) * 8;
            proof {
                assert((id >> sh) & 0xff < 256) by (bit_vector);
            }
            block.push(((id >> sh) & 0xff) as u8);
            b = b + 1;
        }
        while b < 32
            invariant
                8 <= b <= 32,
                block@.len() == b,
                forall|k: int| 0 <= k < 8 ==> block@[k] == spec_le64(id)[k],
                forall|k: int| 8 <= k < b ==> block@[k] == 0u8,
            decreases 32 - b,
        {
            block.push(0u8);
            b = b + 1;
        }
        proof {
            assert(block@ =~= spec_leaf_block(id));
        }
        leaves.push(keccak256(block.as_slice()));
        i = i + 1;
    }
    proof {
        assert(leaves.deep_view() =~~= ids@.map(|i: int, id: u64| spec_leaf(id)));
        lemma_reduce_len(leaves.deep_view());
    }
    // Pair-and-hash until a single root remains.
    while leaves.len() > 1
        invariant
            leaves@.len() >= 1,
            forall|j: int| 0 <= j < leaves@.len() ==> (#[trigger] leaves@[j]@).len() == 32,
            spec_reduce(leaves.deep_view()) == spec_merkle_root(ids@),
        decreases leaves@.len(),
    {
        let ghost cur = leaves.deep_view();
        let mut next: Vec<Vec<u8>> = Vec::new();
        let n = leaves.len();
        let half = (n - 1) / 2 + 1;
        let mut j: usize = 0;
        while j < half
            invariant
                leaves@.len() == n,
                n >= 2,
                half == (n + 1) / 2,
                forall|k: int| 0 <= k < leaves@.len() ==> (#[trigger] leaves@[k]@).len() == 32,
                cur == leaves.deep_view(),
                j <= half,
                next@.len() == j,
                forall|k: int| 0 <= k < j ==> #[trigger] next@[k]@ == spec_pair_step(cur)[k],
            decreases half - j,
        {
            if 2 * j + 1 < n {
                let mut combined = vstd::slice::slice_to_vec(leaves[2 * j].as_slice());
                combined.extend_from_slice(leaves[2 * j + 1].as_slice());
                proof {
                    assert(combined@ =~= cur[2 * j as int] + cur[2 * j + 1]);
                }
                next.push(keccak256(combined.as_slice()));
            } else {
                next.push(vstd::slice::slice_to_vec(leaves[2 * j].as_slice()));
            }
            j = j + 1;
        }
        proof {
            assert(next.deep_view() =~~= spec_pair_step(cur));
            lemma_pair_step_len(cur);
        }
        leaves = next;
    }
    let root = vstd::slice::slice_to_vec(leaves[0].as_slice());
    proof {
        assert(leaves.deep_view()[0] == root@);
    }
    root
}

/// Compute the Merkle root over a slice of request identifiers, as a
/// 32-byte array.
pub fn compute_requests_root(ids: &[u64]) -> (r: [u8; 32])
    ensures
        r@ == spec_merkle_root(ids@),
{
    let ids_vec = vstd::slice::slice_to_vec(ids);
    let root = compute_merkle_root(&ids_vec);
    let mut out = [0u8; 32];
    let mut i: usize = 0;
    while i < 32
        invariant
            root@.len() == 32,
            i <= 32,
            forall|j: int| 0 <= j < i ==> out@[j] == root@[j],
        decreases 32 - i,
    {
        out.set(i, root[i]);
        i = i + 1;
    }
    proof {
        assert(out@ =~= root@);
    }
    out
}

/// A pairing step keeps every node at 32 bytes.
proof fn lemma_pair_step_len(level: Seq<Seq<u8>>)
    requires
        forall|j: int| 0 <= j < level.len() ==> (#[trigger] level[j]).len() == 32,
    ensures
        forall|j: int| 0 <= j < spec_pair_step(level).len() ==> (#[trigger] spec_pair_step(
            level)[j]).len() == 32,
{
}

/// The root of a level of 32-byte nodes is 32 bytes.
proof fn lemma_reduce_len(level: Seq<Seq<u8>>)
    requires
        level.len() >= 1,
        forall|j: int| 0 <= j < level.len() ==> (#[trigger] level[j]).len() == 32,
    ensures
        spec_reduce(level).len() == 32,
    decreases level.len(),
{
    if level.len() > 1 {
        lemma_pair_step_len(level);
        lemma_reduce_len(spec_pair_step(level));
    }
}

/// The Merkle root is a function of the identifier list alone: two equal
/// lists always yield the same root, on either side of the proof boundary.
pub proof fn lemma_merkle_root_deterministic(a: Seq<u64>, b: Seq<u64>)
    requires
        a == b,
    ensures
        spec_merkle_root(a) == spec_merkle_root(b),
{
}

/// The empty identifier list maps to the all-zero sentinel root.
pub proof fn lemma_merkle_root_empty()
    ensures
        spec_merkle_root(Seq::<u64>::empty()) == Seq::new(32, |i: int| 0u8),
{
}

} // verus!
