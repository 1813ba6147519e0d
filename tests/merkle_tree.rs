use merkle::account::{initialize, insert_leaf, verify_proof, MerkleAccount, MAX_LEAVES};
use merkle::error::MerkleError;
use merkle::hasher::{combine, combine_odd, hash_leaf, zero};
use merkle::inclusion::{calculate_proof_root, generate_proof, verify};
use merkle::tree::{build_next_level, calculate_merkle_root, MerkleTree};
use sha2::Digest;

fn from_hex(s: &str) -> [u8; 32] {
    let mut out = [0u8; 32];
    for i in 0..32 {
        out[i] = u8::from_str_radix(&s[2 * i..2 * i + 2], 16).unwrap();
    }
    out
}

fn reference_sha256(data: &[u8]) -> [u8; 32] {
    let mut out = [0u8; 32];
    out.copy_from_slice(&sha2::Sha256::digest(data));
    out
}

fn filled(b: u8) -> [u8; 32] {
    [b; 32]
}

fn empty_account() -> MerkleAccount {
    let mut a = MerkleAccount { root: [9u8; 32], leaf_count: 0, leaves: Vec::new() };
    initialize(&mut a);
    a
}

#[test]
fn single_string_leaf_root_is_its_digest() {
    let tree = MerkleTree::new(&vec!["Test-string1".to_string()]);
    let expected = from_hex("29eca1d1add8e37fa1c1b6f789490c2ec9ec2516d45f2b54594b09159e87bae4");
    assert_eq!(tree.get_root(), expected);
    assert_eq!(tree.get_root(), reference_sha256(b"Test-string1"));
}

#[test]
fn two_digest_leaves_root() {
    let root = calculate_merkle_root(&vec![filled(1), filled(2)]);
    assert_eq!(root, from_hex("f818afd37a6dc3bc92fb44731011277006db4efa6e9023cd7468c02335d22a4d"));
    let mut both = vec![1u8; 32];
    both.extend_from_slice(&[2u8; 32]);
    assert_eq!(root, reference_sha256(&both));
}

#[test]
fn five_digest_leaves_root() {
    let leaves: Vec<[u8; 32]> = (1..=5u8).map(filled).collect();
    let root = calculate_merkle_root(&leaves);
    assert_eq!(root, from_hex("0a99d4a8549c3dd2915d3f9d274fdb76b026a4129cd4bbcb1169c8a1285f8d34"));
    let l1 = combine(&combine(&filled(1), &filled(2)), &combine(&filled(3), &filled(4)));
    assert_eq!(root, combine(&l1, &filled(5)));
}

#[test]
fn three_leaves_carry_the_last() {
    let (a, b, c) = (filled(1), filled(2), filled(3));
    let root = calculate_merkle_root(&vec![a, b, c]);
    assert_eq!(root, combine(&combine(&a, &b), &c));
    assert_eq!(root, from_hex("0479d06fbc8bd667d6c53e3ec229858fc27bb8d883015478a292757338576797"));
}

#[test]
fn single_leaf_is_carried_unchanged() {
    let a = filled(7);
    assert_eq!(calculate_merkle_root(&vec![a]), a);
    assert_eq!(MerkleTree::build(&vec![a]).get_root(), a);
}

#[test]
fn empty_tree_root_is_zero() {
    assert_eq!(calculate_merkle_root(&Vec::new()), [0u8; 32]);
    assert_eq!(MerkleTree::new(&Vec::new()).get_root(), [0u8; 32]);
    assert_eq!(zero(), [0u8; 32]);
}

#[test]
fn build_is_deterministic() {
    let leaves: Vec<[u8; 32]> = (0..9u8).map(filled).collect();
    assert_eq!(calculate_merkle_root(&leaves), calculate_merkle_root(&leaves));
    assert_eq!(MerkleTree::build(&leaves).get_root(), MerkleTree::build(&leaves).get_root());
}

#[test]
fn reversing_leaves_changes_root() {
    let leaves = vec![filled(1), filled(2)];
    let reversed = vec![filled(2), filled(1)];
    assert_ne!(calculate_merkle_root(&leaves), calculate_merkle_root(&reversed));
    let five: Vec<[u8; 32]> = (1..=5u8).map(filled).collect();
    let five_rev: Vec<[u8; 32]> = five.iter().rev().cloned().collect();
    assert_ne!(calculate_merkle_root(&five), calculate_merkle_root(&five_rev));
}

#[test]
fn combine_hashes_concatenation_and_odd_passes_through() {
    let mut both = vec![3u8; 32];
    both.extend_from_slice(&[4u8; 32]);
    assert_eq!(combine(&filled(3), &filled(4)), reference_sha256(&both));
    assert_eq!(combine_odd(&filled(5)), filled(5));
    assert_eq!(hash_leaf(b"abc"), reference_sha256(b"abc"));
}

#[test]
fn next_level_pairs_and_carries() {
    let level = vec![filled(1), filled(2), filled(3)];
    let next = build_next_level(&level);
    assert_eq!(next, vec![combine(&filled(1), &filled(2)), filled(3)]);
    assert!(build_next_level(&Vec::new()).is_empty());
}

#[test]
fn proofs_round_trip_for_every_leaf() {
    for n in 1..=12u8 {
        let leaves: Vec<[u8; 32]> = (0..n).map(|b| filled(b.wrapping_mul(17))).collect();
        let root = calculate_merkle_root(&leaves);
        for i in 0..leaves.len() {
            let p = generate_proof(&leaves, i).unwrap();
            assert_eq!(p.proof.len(), p.path.len());
            assert_eq!(calculate_proof_root(leaves[i], &p.proof, &p.path), root);
            assert_eq!(verify(leaves[i], &p.proof, &p.path, &root), Ok(true));
        }
    }
}

#[test]
fn proof_shape_for_five_leaves() {
    let leaves: Vec<[u8; 32]> = (1..=5u8).map(filled).collect();
    let p = generate_proof(&leaves, 4).unwrap();
    let l1 = combine(&combine(&filled(1), &filled(2)), &combine(&filled(3), &filled(4)));
    assert_eq!(p.proof, vec![l1]);
    assert_eq!(p.path, vec![true]);
    let p = generate_proof(&leaves, 0).unwrap();
    assert_eq!(p.proof, vec![filled(2), combine(&filled(3), &filled(4)), filled(5)]);
    assert_eq!(p.path, vec![false, false, false]);
    let tree = MerkleTree::build(&leaves);
    assert_eq!(tree.leaf_count(), 5);
    assert_eq!(tree.leaves(), &leaves);
    let q = tree.generate_proof(0).unwrap();
    assert_eq!(q.proof, p.proof);
}

#[test]
fn proof_for_missing_leaf_is_out_of_range() {
    let leaves = vec![filled(1), filled(2)];
    assert!(matches!(generate_proof(&leaves, 2), Err(MerkleError::IndexOutOfRange)));
    assert!(matches!(generate_proof(&Vec::new(), 0), Err(MerkleError::IndexOutOfRange)));
    assert!(matches!(MerkleTree::build(&leaves).generate_proof(5), Err(MerkleError::IndexOutOfRange)));
}

#[test]
fn flipped_bits_are_rejected() {
    let leaves: Vec<[u8; 32]> = (1..=6u8).map(filled).collect();
    let root = calculate_merkle_root(&leaves);
    let p = generate_proof(&leaves, 2).unwrap();
    for byte in 0..32 {
        for bit in 0..8 {
            let mut leaf = leaves[2];
            leaf[byte] ^= 1 << bit;
            assert_eq!(verify(leaf, &p.proof, &p.path, &root), Ok(false));
            for k in 0..p.proof.len() {
                let mut proof = p.proof.clone();
                proof[k][byte] ^= 1 << bit;
                assert_eq!(verify(leaves[2], &proof, &p.path, &root), Ok(false));
            }
        }
    }
    let mut path = p.path.clone();
    path[0] = !path[0];
    assert_eq!(verify(leaves[2], &p.proof, &path, &root), Ok(false));
}

#[test]
fn mismatched_proof_lengths_are_invalid() {
    let leaves = vec![filled(1), filled(2)];
    let root = calculate_merkle_root(&leaves);
    assert_eq!(verify(filled(1), &vec![filled(2)], &vec![], &root), Err(MerkleError::InvalidProof));
    let account = {
        let mut a = empty_account();
        insert_leaf(&mut a, filled(1)).unwrap();
        insert_leaf(&mut a, filled(2)).unwrap();
        a
    };
    assert_eq!(verify_proof(&account, filled(1), vec![filled(2)], vec![false, true]), Err(MerkleError::InvalidProof));
    assert_eq!(verify_proof(&account, filled(1), vec![filled(2)], vec![false]), Ok(true));
    assert_eq!(verify_proof(&account, filled(2), vec![filled(1)], vec![true]), Ok(true));
    assert_eq!(verify_proof(&account, filled(2), vec![filled(1)], vec![false]), Ok(false));
}

#[test]
fn initialize_resets_the_account() {
    let a = empty_account();
    assert_eq!(a.root, [0u8; 32]);
    assert_eq!(a.leaf_count, 0);
    assert!(a.leaves.is_empty());
}

#[test]
fn insertion_grows_by_one_until_full() {
    let mut a = empty_account();
    for i in 0..MAX_LEAVES {
        let leaf = filled(i as u8);
        let ev = insert_leaf(&mut a, leaf).unwrap();
        assert_eq!(a.leaf_count as usize, i + 1);
        assert_eq!(a.leaves.len(), i + 1);
        assert_eq!(ev.index as usize, i);
        assert_eq!(ev.leaf, leaf);
        assert_eq!(ev.root, a.root);
        assert_eq!(a.root, calculate_merkle_root(&a.leaves));
    }
    let root = a.root;
    let leaves = a.leaves.clone();
    assert!(matches!(insert_leaf(&mut a, filled(1)), Err(MerkleError::TreeFull)));
    assert_eq!(a.leaf_count as usize, MAX_LEAVES);
    assert_eq!(a.root, root);
    assert_eq!(a.leaves, leaves);
}

#[test]
fn client_sequence_of_five_leaves() {
    let mut a = empty_account();
    for b in 1..=5u8 {
        insert_leaf(&mut a, filled(b)).unwrap();
    }
    assert_eq!(a.leaf_count, 5);
    assert_eq!(a.root, from_hex("0a99d4a8549c3dd2915d3f9d274fdb76b026a4129cd4bbcb1169c8a1285f8d34"));
}
