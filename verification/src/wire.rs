//! The tree-structured wire value that request bodies are built from:
//! the subset of the cluster's JSON-shaped value space that query paths
//! and encoded scalars need.

use vstd::prelude::*;

verus! {

/// One wire value: a scalar, a string (plain or carrying an encoded
/// typed value), or an array of wire values.
#[derive(Debug)]
pub enum WireValue {
    Null,
    Bool(bool),
    Int(i64),
    Str(String),
    Arr(Vec<WireValue>),
}

/// Holds when `step` is the explicit-operation step `[op, args...]`:
/// an array whose first element is the operation's name and whose
/// remaining elements are exactly `args`, spliced in at the top level.
pub open spec fn is_op_step(step: WireValue, op: Seq<char>, args: Seq<WireValue>) -> bool {
    &&& step matches WireValue::Arr(items)
    &&& items@.len() == args.len() + 1
    &&& items@[0] matches WireValue::Str(name) && name@ == op
    &&& items@.skip(1) == args
}

/// Holds when `new_path` is `old_path` with exactly one step appended.
pub open spec fn appends_one(old_path: Seq<WireValue>, new_path: Seq<WireValue>) -> bool {
    &&& new_path.len() == old_path.len() + 1
    &&& new_path.subrange(0, old_path.len() as int) == old_path
}

} // verus!
