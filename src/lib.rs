//! A binary Merkle tree over 32-byte digests, with inclusion proofs, an
//! append-only account that keeps its root up to date, and the records of a
//! small counter program that commits to a list of strings.
//!
//! Policies, applied throughout:
//! - a leaf given as a digest is used as it is; a leaf given as content (a
//!   string) is hashed once with SHA-256 and its digest is the leaf;
//! - a level of odd length carries its last node up unchanged;
//! - a tree without leaves has the all-zero root;
//! - a proof whose siblings and flags differ in length is an error
//!   (`InvalidProof`); a proof that does not reach the root is `Ok(false)`.

pub mod account;
pub mod counter;
pub mod error;
pub mod hasher;
pub mod inclusion;
pub mod tree;
