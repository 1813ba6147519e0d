//! Error kinds of the library.
use vstd::prelude::*;

verus! {

/// Failures of the tree and of the account that holds it.
#[derive(Debug, Clone, Copy, PartialEq, Eq, Structural)]
pub enum MerkleError {
    /// The account already holds the largest number of leaves.
    TreeFull,
    /// A leaf was refused.
    InvalidLeaf,
    /// A proof and its direction flags differ in length.
    InvalidProof,
    /// A proof was asked for a leaf that does not exist.
    IndexOutOfRange,
}

/// Failures of the counter arithmetic.
#[derive(Debug, Clone, Copy, PartialEq, Eq, Structural)]
pub enum CustomError {
    /// The counter would pass its largest value.
    Overflow,
    /// The counter would pass its smallest value.
    Underflow,
}

} // verus!
