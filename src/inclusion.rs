//! Inclusion proofs: generating the sibling path of a leaf and replaying it.
use vstd::prelude::*;
use crate::error::MerkleError;
use crate::hasher::{combine, combine_spec};
use crate::tree::{build_next_level, copy_level, digests_view, merkle_root, next_level, parent_at, MerkleTree};

verus! {

/// An inclusion proof: the sibling digests from the leaf level upward, and
/// for each whether the sibling stands to the left (`true`) or to the right
/// (`false`) of the running value.
pub struct Proof {
    pub proof: Vec<[u8; 32]>,
    pub path: Vec<bool>,
}

/// One step of a proof: the running value combined with its sibling, in the
/// order the flag gives.
pub open spec fn proof_step(current: Seq<u8>, sibling: Seq<u8>, is_left: bool) -> Seq<u8> {
    if is_left {
        combine_spec(sibling, current)
    } else {
        combine_spec(current, sibling)
    }
}

/// The value reached by replaying a proof from `current`, pair by pair, until
/// the proof or the flags run out.
pub open spec fn walk_proof(current: Seq<u8>, proof: Seq<Seq<u8>>, path: Seq<bool>) -> Seq<u8>
    decreases proof.len(),
{
    if proof.len() == 0 || path.len() == 0 {
        current
    } else {
        walk_proof(proof_step(current, proof[0], path[0]), proof.drop_first(), path.drop_first())
    }
}

/// The siblings of node `i` of `level` on its way to the root; a node carried
/// up unpaired contributes none at that level.
pub open spec fn proof_siblings(level: Seq<Seq<u8>>, i: int) -> Seq<Seq<u8>>
    decreases level.len(),
{
    if level.len() <= 1 {
        Seq::empty()
    } else {
        let rest = proof_siblings(next_level(level), i / 2);
        if i % 2 == 1 {
            seq![level[i - 1]] + rest
        } else if i + 1 < level.len() {
            seq![level[i + 1]] + rest
        } else {
            rest
        }
    }
}

/// The direction flags that go with `proof_siblings(level, i)`.
pub open spec fn proof_path(level: Seq<Seq<u8>>, i: int) -> Seq<bool>
    decreases level.len(),
{
    if level.len() <= 1 {
        Seq::empty()
    } else {
        let rest = proof_path(next_level(level), i / 2);
        if i % 2 == 1 {
            seq![true] + rest
        } else if i + 1 < level.len() {
            seq![false] + rest
        } else {
            rest
        }
    }
}

/// The proof of a node has as many flags as siblings.
pub proof fn lemma_proof_lengths(level: Seq<Seq<u8>>, i: int)
    ensures
        proof_siblings(level, i).len() == proof_path(level, i).len(),
    decreases level.len(),
{
    if level.len() > 1 {
        lemma_proof_lengths(next_level(level), i / 2);
    }
}

/// The proof generated for any leaf has as many flags as siblings, and
/// replaying it from that leaf reaches the root over all leaves; so `verify`
/// accepts it against that root.
pub proof fn lemma_proof_round_trip(level: Seq<Seq<u8>>, i: int)
    requires
        0 <= i < level.len(),
    ensures
        proof_siblings(level, i).len() == proof_path(level, i).len(),
        walk_proof(level[i], proof_siblings(level, i), proof_path(level, i)) == merkle_root(level),
    decreases level.len(),
{
    lemma_proof_lengths(level, i);
    if level.len() > 1 {
        let next = next_level(level);
        lemma_proof_round_trip(next, i / 2);
        let rest = proof_siblings(next, i / 2);
        let rest_path = proof_path(next, i / 2);
        assert(next[i / 2] == parent_at(level, i / 2));
        if i % 2 == 1 {
            let s = seq![level[i - 1]] + rest;
            let d = seq![true] + rest_path;
            assert(s.drop_first() =~= rest);
            assert(d.drop_first() =~= rest_path);
            assert(proof_step(level[i], level[i - 1], true) == next[i / 2]);
        } else if i + 1 < level.len() {
            let s = seq![level[i + 1]] + rest;
            let d = seq![false] + rest_path;
            assert(s.drop_first() =~= rest);
            assert(d.drop_first() =~= rest_path);
            assert(proof_step(level[i], level[i + 1], false) == next[i / 2]);
        } else {
            assert(level[i] == next[i / 2]);
        }
    }
}

/// The proof of the leaf at `index` among the leaf digests `leaves`.
pub fn generate_proof(leaves: &Vec<[u8; 32]>, index: usize) -> (r: Result<Proof, MerkleError>)
    ensures
        index >= leaves.len() ==> r == Err::<Proof, MerkleError>(MerkleError::IndexOutOfRange),
        index < leaves.len() ==> (r matches Ok(p) && digests_view(p.proof@) == proof_siblings(
            digests_view(leaves@),
            index as int,
        ) && p.path@ == proof_path(digests_view(leaves@), index as int)),
{
    if index >= leaves.len() {
        return Err(MerkleError::IndexOutOfRange);
    }
    let ghost leaf_level = digests_view(leaves@);
    let mut current: Vec<[u8; 32]> = copy_level(leaves);
    let mut idx: usize = index;
    let mut siblings: Vec<[u8; 32]> = Vec::new();
    let mut path: Vec<bool> = Vec::new();
    while current.len() > 1
        invariant
            idx < current.len(),
            leaf_level == digests_view(leaves@),
            proof_siblings(leaf_level, index as int) == digests_view(siblings@) + proof_siblings(
                digests_view(current@),
                idx as int,
            ),
            proof_path(leaf_level, index as int) == path@ + proof_path(digests_view(current@), idx as int),
        decreases current.len(),
    {
        let ghost cur = digests_view(current@);
        let ghost old_siblings = digests_view(siblings@);
        let ghost old_path = path@;
        let n = current.len();
        if idx % 2 == 1 {
            siblings.push(current[idx - 1]);
            path.push(true);
        } else if idx + 1 < n {
            siblings.push(current[idx + 1]);
            path.push(false);
        }
        let next = build_next_level(&current);
        proof {
            let rest = proof_siblings(next_level(cur), (idx / 2) as int);
            let rest_path = proof_path(next_level(cur), (idx / 2) as int);
            if idx % 2 == 1 {
                assert(digests_view(siblings@) =~= old_siblings.push(cur[idx - 1]));
                assert(old_siblings + (seq![cur[idx - 1]] + rest) =~= old_siblings.push(cur[idx - 1]) + rest);
                assert(old_path + (seq![true] + rest_path) =~= path@ + rest_path);
            } else if idx + 1 < n {
                assert(digests_view(siblings@) =~= old_siblings.push(cur[idx + 1]));
                assert(old_siblings + (seq![cur[idx + 1]] + rest) =~= old_siblings.push(cur[idx + 1]) + rest);
                assert(old_path + (seq![false] + rest_path) =~= path@ + rest_path);
            }
        }
        current = next;
        idx = idx / 2;
    }
    proof {
        assert(digests_view(siblings@) + Seq::<Seq<u8>>::empty() =~= digests_view(siblings@));
        assert(path@ + Seq::<bool>::empty() =~= path@);
    }
    Ok(Proof { proof: siblings, path })
}

impl MerkleTree {
    /// The proof of the leaf at `index`; `IndexOutOfRange` when there is no
    /// such leaf.
    pub fn generate_proof(&self, index: usize) -> (r: Result<Proof, MerkleError>)
        ensures
            index >= self@.len() ==> r == Err::<Proof, MerkleError>(MerkleError::IndexOutOfRange),
            index < self@.len() ==> (r matches Ok(p) && digests_view(p.proof@) == proof_siblings(self@, index as int)
                && p.path@ == proof_path(self@, index as int)),
    {
        generate_proof(self.leaves(), index)
    }
}

/// Byte-wise equality of two digests.
pub fn digest_eq(a: &[u8; 32], b: &[u8; 32]) -> (r: bool)
    ensures
        r == (a@ == b@),
{
    let mut i: usize = 0;
    while i < 32
        invariant
            i <= 32,
            forall|k: int| 0 <= k < i ==> a@[k] == b@[k],
        decreases 32 - i,
    {
        if a[i] != b[i] {
            return false;
        }
        i = i + 1;
    }
    assert(a@ =~= b@);
    true
}

/// The value reached by replaying `proof` and `path` from `leaf`.
pub fn calculate_proof_root(leaf: [u8; 32], proof: &Vec<[u8; 32]>, path: &Vec<bool>) -> (r: [u8; 32])
    ensures
        r@ == walk_proof(leaf@, digests_view(proof@), path@),
{
    let n = if proof.len() < path.len() { proof.len() } else { path.len() };
    let mut current: [u8; 32] = leaf;
    let mut i: usize = 0;
    assert(digests_view(proof@).skip(0) =~= digests_view(proof@));
    assert(path@.skip(0) =~= path@);
    while i < n
        invariant
            n <= proof.len(),
            n <= path.len(),
            n == proof.len() || n == path.len(),
            i <= n,
            walk_proof(current@, digests_view(proof@).skip(i as int), path@.skip(i as int))
                == walk_proof(leaf@, digests_view(proof@), path@),
        decreases n - i,
    {
        let ghost ps = digests_view(proof@).skip(i as int);
        let ghost ds = path@.skip(i as int);
        assert(ps.drop_first() =~= digests_view(proof@).skip(i + 1));
        assert(ds.drop_first() =~= path@.skip(i + 1));
        if path[i] {
            current = combine(&proof[i], &current);
        } else {
            current = combine(&current, &proof[i]);
        }
        i = i + 1;
    }
    current
}

/// Checks `proof` and `path` for the leaf digest `leaf` against
/// `expected_root`: an error when they differ in length, else whether the
/// replayed value is the root.
pub fn verify(leaf: [u8; 32], proof: &Vec<[u8; 32]>, path: &Vec<bool>, expected_root: &[u8; 32]) -> (r: Result<bool, MerkleError>)
    ensures
        proof.len() != path.len() ==> r == Err::<bool, MerkleError>(MerkleError::InvalidProof),
        proof.len() == path.len() ==> r == Ok::<bool, MerkleError>(
            walk_proof(leaf@, digests_view(proof@), path@) == expected_root@,
        ),
{
    if proof.len() != path.len() {
        return Err(MerkleError::InvalidProof);
    }
    let computed = calculate_proof_root(leaf, proof, path);
    Ok(digest_eq(&computed, expected_root))
}

} // verus!
