//! Building a Merkle tree over an ordered list of leaf digests.
//!
//! Leaf policy: the leaves of a tree are 32-byte digests and are used as they
//! are. A leaf given as content (a string) is hashed exactly once, on
//! ingestion, and its digest is then such a leaf.
use vstd::prelude::*;
use crate::hasher::{combine, combine_odd, combine_spec, content_digest, hash_leaf, zero, zero_digest};

verus! {

/// The byte sequences of a list of digests.
pub open spec fn digests_view(ds: Seq<[u8; 32]>) -> Seq<Seq<u8>> {
    ds.map_values(|d: [u8; 32]| d@)
}

/// Node `t` of the level above `level`: the pair at `2t`, `2t + 1` combined,
/// or the last node carried up when it has no partner.
pub open spec fn parent_at(level: Seq<Seq<u8>>, t: int) -> Seq<u8> {
    if 2 * t + 1 < level.len() {
        combine_spec(level[2 * t], level[2 * t + 1])
    } else {
        level[2 * t]
    }
}

/// The level above `level`: one node for each pair, left to right.
pub open spec fn next_level(level: Seq<Seq<u8>>) -> Seq<Seq<u8>> {
    Seq::new(((level.len() + 1) / 2) as nat, |t: int| parent_at(level, t))
}

/// The root over a level: levels are folded until one node is left; no
/// leaves give the all-zero digest.
pub open spec fn merkle_root(level: Seq<Seq<u8>>) -> Seq<u8>
    decreases level.len(),
{
    if level.len() == 0 {
        zero_digest()
    } else if level.len() == 1 {
        level[0]
    } else {
        merkle_root(next_level(level))
    }
}

/// The leaf digests of a list of strings: each string's UTF-8 bytes hashed.
pub open spec fn content_leaves(leaves: Seq<String>) -> Seq<Seq<u8>> {
    leaves.map_values(|s: String| content_digest(vstd::utf8::encode_utf8(s@)))
}

/// A fresh copy of a list of digests.
pub fn copy_level(level: &Vec<[u8; 32]>) -> (r: Vec<[u8; 32]>)
    ensures
        r@ == level@,
{
    let mut r: Vec<[u8; 32]> = Vec::with_capacity(level.len());
    let mut i: usize = 0;
    while i < level.len()
        invariant
            i <= level.len(),
            r@ == level@.take(i as int),
        decreases level.len() - i,
    {
        r.push(level[i]);
        i = i + 1;
        assert(r@ =~= level@.take(i as int));
    }
    assert(level@.take(level.len() as int) =~= level@);
    r
}

/// Computes the level above `level`.
pub fn build_next_level(level: &Vec<[u8; 32]>) -> (r: Vec<[u8; 32]>)
    ensures
        r@.len() == (level@.len() + 1) / 2,
        digests_view(r@) == next_level(digests_view(level@)),
{
    let n = level.len();
    let half = n / 2 + n % 2;
    let mut r: Vec<[u8; 32]> = Vec::with_capacity(half);
    let mut t: usize = 0;
    while t < half
        invariant
            n == level.len(),
            half == (n + 1) / 2,
            t <= half,
            r@.len() == t,
            forall|k: int| 0 <= k < t ==> (#[trigger] r@[k])@ == parent_at(digests_view(level@), k),
        decreases half - t,
    {
        let j = 2 * t;
        if j + 1 < n {
            r.push(combine(&level[j], &level[j + 1]));
        } else {
            r.push(combine_odd(&level[j]));
        }
        t = t + 1;
    }
    assert(digests_view(r@) =~= next_level(digests_view(level@)));
    r
}

/// The root over the leaf digests `leaves`, or all zeros when there are none.
pub fn calculate_merkle_root(leaves: &Vec<[u8; 32]>) -> (r: [u8; 32])
    ensures
        r@ == merkle_root(digests_view(leaves@)),
{
    if leaves.len() == 0 {
        return zero();
    }
    if leaves.len() == 1 {
        return leaves[0];
    }
    let mut current: Vec<[u8; 32]> = build_next_level(leaves);
    while current.len() > 1
        invariant
            current.len() >= 1,
            merkle_root(digests_view(current@)) == merkle_root(digests_view(leaves@)),
        decreases current.len(),
    {
        current = build_next_level(&current);
    }
    current[0]
}

} // verus!

verus! {

/// A Merkle tree over leaf digests, holding its leaves and the root over them.
pub struct MerkleTree {
    leaves: Vec<[u8; 32]>,
    root: [u8; 32],
}

impl View for MerkleTree {
    type V = Seq<Seq<u8>>;

    /// The leaf digests, in order.
    closed spec fn view(&self) -> Seq<Seq<u8>> {
        digests_view(self.leaves@)
    }
}

impl MerkleTree {
    /// The stored root is the root over the stored leaves.
    pub closed spec fn wf(&self) -> bool {
        self.root@ == merkle_root(digests_view(self.leaves@))
    }

    /// The tree over the leaf digests `leaves`, used as they are.
    pub fn build(leaves: &Vec<[u8; 32]>) -> (t: MerkleTree)
        ensures
            t.wf(),
            t@ == digests_view(leaves@),
    {
        let root = calculate_merkle_root(leaves);
        MerkleTree { leaves: copy_level(leaves), root }
    }

    /// The tree over string leaves: each string's UTF-8 bytes are hashed once
    /// and the digests are the tree's leaves.
    pub fn new(leaves: &Vec<String>) -> (t: MerkleTree)
        ensures
            t.wf(),
            t@ == content_leaves(leaves@),
    {
        let mut digests: Vec<[u8; 32]> = Vec::with_capacity(leaves.len());
        let mut i: usize = 0;
        while i < leaves.len()
            invariant
                i <= leaves.len(),
                digests_view(digests@) == content_leaves(leaves@).take(i as int),
            decreases leaves.len() - i,
        {
            let text: &str = leaves[i].as_str();
            let bytes: &[u8] = text.as_bytes();
            assert(bytes@ == vstd::utf8::encode_utf8(leaves@[i as int]@));
            let d = hash_leaf(bytes);
            let ghost prev = digests@;
            digests.push(d);
            proof {
                assert(digests@ == prev.push(d));
                assert(digests_view(digests@) =~= digests_view(prev).push(d@));
                assert(content_leaves(leaves@).take(i + 1) =~= content_leaves(leaves@).take(i as int).push(
                    content_leaves(leaves@)[i as int],
                ));
            }
            i = i + 1;
        }
        assert(content_leaves(leaves@).take(leaves.len() as int) =~= content_leaves(leaves@));
        let root = calculate_merkle_root(&digests);
        MerkleTree { leaves: digests, root }
    }

    /// The root digest; all zeros for a tree without leaves.
    pub fn get_root(&self) -> (r: [u8; 32])
        requires
            self.wf(),
        ensures
            r@ == merkle_root(self@),
    {
        self.root
    }

    /// The number of leaves.
    pub fn leaf_count(&self) -> (r: usize)
        ensures
            r == self@.len(),
    {
        self.leaves.len()
    }

    /// The leaf digests, in order.
    pub fn leaves(&self) -> (r: &Vec<[u8; 32]>)
        ensures
            digests_view(r@) == self@,
    {
        &self.leaves
    }
}

/// A tree is a function of its leaves: equal leaf sequences give equal roots.
pub proof fn lemma_root_deterministic(a: Seq<Seq<u8>>, b: Seq<Seq<u8>>)
    requires
        a == b,
    ensures
        merkle_root(a) == merkle_root(b),
{
}

/// A single leaf is the root, carried up without being hashed.
pub proof fn lemma_single_leaf_root(a: Seq<u8>)
    ensures
        merkle_root(seq![a]) == a,
{
}

/// A tree over one string leaf has as root the digest of that string's UTF-8
/// bytes, hashed once.
pub proof fn lemma_single_string_root(s: String)
    ensures
        merkle_root(content_leaves(seq![s])) == content_digest(vstd::utf8::encode_utf8(s@)),
{
    assert(content_leaves(seq![s]) =~= seq![content_digest(vstd::utf8::encode_utf8(s@))]);
}

/// Three leaves: the first two are combined, the third is carried up and then
/// combined with that pair.
pub proof fn lemma_three_leaf_root(a: Seq<u8>, b: Seq<u8>, c: Seq<u8>)
    ensures
        merkle_root(seq![a, b, c]) == combine_spec(combine_spec(a, b), c),
{
    let l0 = seq![a, b, c];
    let l1 = next_level(l0);
    assert(l1 =~= seq![combine_spec(a, b), c]);
    let l2 = next_level(l1);
    assert(l2 =~= seq![combine_spec(combine_spec(a, b), c)]);
    assert(merkle_root(l0) == merkle_root(l1));
    assert(merkle_root(l1) == merkle_root(l2));
}

} // verus!
