//! An append-only account of leaf digests whose root is rebuilt on every
//! insertion, bounded in the number of leaves it holds.
use vstd::prelude::*;
use crate::error::MerkleError;
use crate::hasher::{zero, zero_digest, HASH_SIZE};
use crate::inclusion::{verify, walk_proof};
use crate::tree::{calculate_merkle_root, digests_view, merkle_root};

verus! {

/// The largest number of leaves an account holds.
pub const MAX_LEAVES: usize = 256;

/// The stored state of a tree: its root, the number of leaves and the leaves.
pub struct MerkleAccount {
    pub root: [u8; 32],
    pub leaf_count: u32,
    pub leaves: Vec<[u8; 32]>,
}

/// The record of one insertion: the leaf, its position and the new root.
#[derive(Debug, Clone, Copy)]
pub struct LeafInserted {
    pub leaf: [u8; 32],
    pub index: u32,
    pub root: [u8; 32],
}

impl MerkleAccount {
    /// The count matches the leaves, the capacity is kept, and the root is the
    /// root over the leaves.
    pub open spec fn wf(&self) -> bool {
        &&& self.leaf_count as int == self.leaves@.len()
        &&& self.leaves@.len() <= MAX_LEAVES
        &&& self.root@ == merkle_root(digests_view(self.leaves@))
    }
}

/// Resets an account to no leaves and the all-zero root.
pub fn initialize(merkle_account: &mut MerkleAccount)
    ensures
        final(merkle_account).root@ == zero_digest(),
        final(merkle_account).leaf_count == 0,
        final(merkle_account).leaves@.len() == 0,
        final(merkle_account).wf(),
{
    merkle_account.root = zero();
    merkle_account.leaf_count = 0;
    merkle_account.leaves = Vec::with_capacity(MAX_LEAVES);
}

/// Appends `leaf` and rebuilds the root; refused with `TreeFull`, the account
/// unchanged, once it holds `MAX_LEAVES` leaves.
pub fn insert_leaf(merkle_account: &mut MerkleAccount, leaf: [u8; HASH_SIZE]) -> (r: Result<LeafInserted, MerkleError>)
    requires
        old(merkle_account).wf(),
    ensures
        old(merkle_account).leaf_count >= MAX_LEAVES ==> r == Err::<LeafInserted, MerkleError>(MerkleError::TreeFull)
            && final(merkle_account).root == old(merkle_account).root
            && final(merkle_account).leaf_count == old(merkle_account).leaf_count
            && final(merkle_account).leaves@ == old(merkle_account).leaves@,
        old(merkle_account).leaf_count < MAX_LEAVES ==> (r matches Ok(ev)
            && final(merkle_account).leaves@ == old(merkle_account).leaves@.push(leaf)
            && final(merkle_account).leaf_count == old(merkle_account).leaf_count + 1
            && final(merkle_account).root@ == merkle_root(digests_view(final(merkle_account).leaves@))
            && ev.leaf == leaf
            && ev.index == old(merkle_account).leaf_count
            && ev.root == final(merkle_account).root),
        final(merkle_account).wf(),
{
    if merkle_account.leaf_count >= MAX_LEAVES as u32 {
        return Err(MerkleError::TreeFull);
    }
    merkle_account.leaves.push(leaf);
    merkle_account.leaf_count = merkle_account.leaf_count + 1;
    merkle_account.root = calculate_merkle_root(&merkle_account.leaves);
    Ok(LeafInserted { leaf, index: merkle_account.leaf_count - 1, root: merkle_account.root })
}

/// Checks an inclusion proof of the leaf digest `leaf` against the account's
/// root: `InvalidProof` when `proof` and `path` differ in length, else whether
/// the replayed value is the root.
pub fn verify_proof(
    merkle_account: &MerkleAccount,
    leaf: [u8; HASH_SIZE],
    proof: Vec<[u8; HASH_SIZE]>,
    path: Vec<bool>,
) -> (r: Result<bool, MerkleError>)
    ensures
        proof.len() != path.len() ==> r == Err::<bool, MerkleError>(MerkleError::InvalidProof),
        proof.len() == path.len() ==> r == Ok::<bool, MerkleError>(
            walk_proof(leaf@, digests_view(proof@), path@) == merkle_account.root@,
        ),
{
    verify(leaf, &proof, &path, &merkle_account.root)
}

} // verus!
