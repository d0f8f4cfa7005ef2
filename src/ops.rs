//! Postfix operations and the stack discipline that a program must keep.
use vstd::prelude::*;

verus! {

/// One step of a postfix program.
///
/// A number is held as the span `start..end` of the stripped source text that
/// spells it; its value is read from that text when the program is run.
#[derive(PartialEq, Eq, Structural, Clone, Copy, Debug)]
pub enum Op {
    Num { start: usize, end: usize },
    Neg,
    Add,
    Sub,
    Mul,
    Div,
}

/// How many values an operation pops before it runs.
pub open spec fn needs(op: Op) -> int {
    match op {
        Op::Num { .. } => 0,
        Op::Neg => 1,
        _ => 2,
    }
}

/// How an operation changes the height of the value stack.
pub open spec fn effect(op: Op) -> int {
    match op {
        Op::Num { .. } => 1,
        Op::Neg => 0,
        _ => -1,
    }
}

/// Height of the value stack after running `ops` from an empty stack.
pub open spec fn depth(ops: Seq<Op>) -> int
    decreases ops.len(),
{
    if ops.len() == 0 {
        0
    } else {
        depth(ops.drop_last()) + effect(ops.last())
    }
}

/// Running `ops` from an empty stack never pops a value that is not there.
pub open spec fn well_stacked(ops: Seq<Op>) -> bool
    decreases ops.len(),
{
    ops.len() == 0 || (well_stacked(ops.drop_last()) && depth(ops.drop_last()) >= needs(
        ops.last(),
    ))
}

/// A complete program: it never underflows and leaves exactly one value.
pub open spec fn valid_program(ops: Seq<Op>) -> bool {
    well_stacked(ops) && depth(ops) == 1
}

/// `after` extends `before` by a fragment that pushes exactly one value and,
/// run on top of any stack, never reaches below it.
pub open spec fn pushes_one(before: Seq<Op>, after: Seq<Op>) -> bool {
    well_stacked(before) && depth(before) >= 0 ==> well_stacked(after) && depth(after) == depth(
        before,
    ) + 1
}

pub proof fn lemma_push(ops: Seq<Op>, op: Op)
    ensures
        depth(ops.push(op)) == depth(ops) + effect(op),
        well_stacked(ops.push(op)) == (well_stacked(ops) && depth(ops) >= needs(op)),
{
    assert(ops.push(op).drop_last() =~= ops);
}

pub proof fn lemma_empty_stack()
    ensures
        depth(Seq::<Op>::empty()) == 0,
        well_stacked(Seq::<Op>::empty()),
{
}

} // verus!
