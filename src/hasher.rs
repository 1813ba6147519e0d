//! SHA-256 and the two node rules of the tree: a pair is hashed, an unpaired
//! node is carried up as it is.
use vstd::prelude::*;
use sha2::Digest as _;

verus! {

/// Size in bytes of every digest in the tree.
pub const HASH_SIZE: usize = 32;

/// The SHA-256 digest of a byte sequence.
pub uninterp spec fn sha256_of(data: Seq<u8>) -> Seq<u8>;

/// Relies on `sha2::Sha256::digest`: the SHA-256 digest of `data`, whose
/// 32 bytes are copied into an array.
#[verifier::external_body]
fn sha256(data: &[u8]) -> (r: [u8; 32])
    ensures
        r@ == sha256_of(data@),
{
    let out = sha2::Sha256::digest(data);
    let mut r = [0u8; 32];
    r.copy_from_slice(&out);
    r
}

/// The value of an inner node: the digest of the left child's bytes followed
/// by the right child's bytes.
pub open spec fn combine_spec(left: Seq<u8>, right: Seq<u8>) -> Seq<u8> {
    sha256_of(left + right)
}

/// The digest that stands for a leaf given as content: its bytes hashed once.
pub open spec fn content_digest(content: Seq<u8>) -> Seq<u8> {
    sha256_of(content)
}

/// The all-zero digest, the root of a tree without leaves.
pub open spec fn zero_digest() -> Seq<u8> {
    Seq::new(32, |i: int| 0u8)
}

/// Hashes `left || right`.
pub fn combine(left: &[u8; 32], right: &[u8; 32]) -> (r: [u8; 32])
    ensures
        r@ == combine_spec(left@, right@),
{
    let mut buf: Vec<u8> = Vec::with_capacity(2 * HASH_SIZE);
    let mut i: usize = 0;
    while i < HASH_SIZE
        invariant
            i <= HASH_SIZE,
            buf@ == left@.take(i as int),
        decreases HASH_SIZE - i,
    {
        buf.push(left[i]);
        i = i + 1;
        assert(buf@ =~= left@.take(i as int));
    }
    assert(left@.take(32) =~= left@);
    let mut j: usize = 0;
    while j < HASH_SIZE
        invariant
            j <= HASH_SIZE,
            buf@ == left@ + right@.take(j as int),
        decreases HASH_SIZE - j,
    {
        buf.push(right[j]);
        j = j + 1;
        assert(buf@ =~= left@ + right@.take(j as int));
    }
    assert(right@.take(32) =~= right@);
    sha256(buf.as_slice())
}

/// The carry-up rule: an unpaired node moves to the next level unchanged.
pub fn combine_odd(value: &[u8; 32]) -> (r: [u8; 32])
    ensures
        r == *value,
{
    *value
}

/// The digest of a leaf given as arbitrary content.
pub fn hash_leaf(content: &[u8]) -> (r: [u8; 32])
    ensures
        r@ == content_digest(content@),
{
    sha256(content)
}

/// The all-zero digest.
pub fn zero() -> (r: [u8; 32])
    ensures
        r@ == zero_digest(),
{
    let r = [0u8; 32];
    assert(r@ =~= zero_digest());
    r
}

} // verus!
