//! The counter program's records: a signed counter and a list of string
//! leaves whose Merkle root is kept beside them, and the instructions that
//! change them.
use vstd::prelude::*;
use crate::error::CustomError;
use crate::tree::{content_leaves, merkle_root, MerkleTree};

verus! {

/// The instructions of the counter program.
pub enum CounterInstruction {
    /// Creates the record, with the counter set to the given value.
    InitCounter(u8),
    /// Adds one to the counter.
    IncCounter,
    /// Takes one from the counter.
    DecCounter,
    /// Appends a string leaf and rebuilds the root.
    InitTree(String),
}

/// The stored record: the counter, the root over the string leaves, and the
/// leaves.
pub struct CounterAccount {
    pub count: i64,
    pub root_hash: [u8; 32],
    pub leafs: Vec<String>,
}

/// The character sequences of a list of strings.
pub open spec fn strings_view(ss: Seq<String>) -> Seq<Seq<char>> {
    ss.map_values(|s: String| s@)
}

/// The record a fresh account starts with: the counter at `initial_value`, a
/// placeholder root of all ones, and three placeholder leaves.
pub fn initial_counter_account(initial_value: u8) -> (r: CounterAccount)
    ensures
        r.count == initial_value as i64,
        r.root_hash@ == Seq::new(32, |i: int| 1u8),
        strings_view(r.leafs@) == seq!["args"@, "args"@, "args!"@],
{
    let mut leafs: Vec<String> = Vec::new();
    leafs.push("args".to_owned());
    leafs.push("args".to_owned());
    leafs.push("args!".to_owned());
    let root_hash = [1u8; 32];
    assert(root_hash@ =~= Seq::new(32, |i: int| 1u8));
    assert(strings_view(leafs@) =~= seq!["args"@, "args"@, "args!"@]);
    CounterAccount { count: initial_value as i64, root_hash, leafs }
}

/// Adds one to the counter when `inc`, else takes one; fails with `Overflow`
/// or `Underflow`, the record unchanged, where the result would not fit.
pub fn change_counter(data: &mut CounterAccount, inc: bool) -> (r: Result<(), CustomError>)
    ensures
        inc && old(data).count == i64::MAX ==> r == Err::<(), CustomError>(CustomError::Overflow),
        !inc && old(data).count == i64::MIN ==> r == Err::<(), CustomError>(CustomError::Underflow),
        r is Err ==> final(data).count == old(data).count,
        inc && old(data).count < i64::MAX ==> r is Ok && final(data).count == old(data).count + 1,
        !inc && old(data).count > i64::MIN ==> r is Ok && final(data).count == old(data).count - 1,
        final(data).root_hash == old(data).root_hash,
        final(data).leafs@ == old(data).leafs@,
{
    if inc {
        match data.count.checked_add(1) {
            Some(c) => {
                data.count = c;
                Ok(())
            },
            None => Err(CustomError::Overflow),
        }
    } else {
        match data.count.checked_sub(1) {
            Some(c) => {
                data.count = c;
                Ok(())
            },
            None => Err(CustomError::Underflow),
        }
    }
}

/// Appends the string `leaf` and sets the root to the root over all string
/// leaves, each hashed once.
pub fn append_tree_leaf(data: &mut CounterAccount, leaf: String)
    ensures
        final(data).leafs@ == old(data).leafs@.push(leaf),
        final(data).root_hash@ == merkle_root(content_leaves(final(data).leafs@)),
        final(data).count == old(data).count,
{
    data.leafs.push(leaf);
    let tree = MerkleTree::new(&data.leafs);
    data.root_hash = tree.get_root();
}

/// Applies one instruction to the record.
pub fn process_instruction(data: &mut CounterAccount, instruction: CounterInstruction) -> (r: Result<(), CustomError>)
    ensures
        instruction matches CounterInstruction::InitCounter(v) ==> r is Ok && final(data).count == v as i64
            && final(data).root_hash@ == Seq::new(32, |i: int| 1u8)
            && strings_view(final(data).leafs@) == seq!["args"@, "args"@, "args!"@],
        instruction is IncCounter ==> (old(data).count < i64::MAX ==> r is Ok && final(data).count == old(data).count + 1)
            && (old(data).count == i64::MAX ==> r == Err::<(), CustomError>(CustomError::Overflow) && final(data).count == old(data).count),
        instruction is DecCounter ==> (old(data).count > i64::MIN ==> r is Ok && final(data).count == old(data).count - 1)
            && (old(data).count == i64::MIN ==> r == Err::<(), CustomError>(CustomError::Underflow) && final(data).count == old(data).count),
        (instruction is IncCounter || instruction is DecCounter) ==> final(data).root_hash == old(data).root_hash
            && final(data).leafs@ == old(data).leafs@,
        instruction matches CounterInstruction::InitTree(leaf) ==> r is Ok
            && final(data).leafs@ == old(data).leafs@.push(leaf)
            && final(data).root_hash@ == merkle_root(content_leaves(final(data).leafs@))
            && final(data).count == old(data).count,
{
    match instruction {
        CounterInstruction::InitCounter(v) => {
            *data = initial_counter_account(v);
            Ok(())
        },
        CounterInstruction::IncCounter => change_counter(data, true),
        CounterInstruction::DecCounter => change_counter(data, false),
        CounterInstruction::InitTree(leaf) => {
            append_tree_leaf(data, leaf);
            Ok(())
        },
    }
}

} // verus!
