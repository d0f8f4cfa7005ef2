//! The grammar, as spec functions over a parse state.
//!
//! ```text
//! expression := term (('+' | '-') term)*
//! term       := factor (('*' | '/') factor | '(' expression ')')*
//! factor     := '-'* atom
//! atom       := '(' expression ')' | number
//! number     := digits with at most one '.', at least one digit
//! ```
//!
//! Each rule maps the state before it to the state after it. Errors do not stop
//! the walk: the first one is kept and later ones are ignored.
use vstd::prelude::*;
use crate::ops::Op;

verus! {

/// What went wrong in a parse.
#[derive(PartialEq, Eq, Structural, Clone, Copy, Debug)]
pub enum ErrorKind {
    /// Nothing but white space was given.
    EmptyInput,
    /// A number or a parenthesis was due.
    ExpectedNumber,
    /// A `)` was due.
    ExpectedCloseParen,
    /// Input is left over after a complete expression.
    UnexpectedCharacter,
}

/// The first error of a parse, with the offset in the stripped text where it
/// was found.
#[derive(PartialEq, Eq, Structural, Clone, Copy, Debug)]
pub struct ParseError {
    pub kind: ErrorKind,
    pub pos: usize,
}

/// Where a parse stands: the cursor, the program so far, the first error.
pub struct PState {
    pub pos: int,
    pub ops: Seq<Op>,
    pub error: Option<ParseError>,
}

pub open spec fn at(s: Seq<char>, pos: int, c: char) -> bool {
    0 <= pos < s.len() && s[pos] == c
}

pub open spec fn is_digit(c: char) -> bool {
    '0' <= c <= '9'
}

pub open spec fn advance(st: PState) -> PState {
    PState { pos: st.pos + 1, ..st }
}

pub open spec fn emit(st: PState, op: Op) -> PState {
    PState { ops: st.ops.push(op), ..st }
}

/// Records an error unless one is already recorded.
pub open spec fn report(st: PState, pos: int, kind: ErrorKind) -> PState {
    if st.error is Some {
        st
    } else {
        PState { error: Some(ParseError { kind, pos: pos as usize }), ..st }
    }
}

/// The cursor did not move back nor past the end.
pub open spec fn moved(s: Seq<char>, a: PState, b: PState) -> bool {
    a.pos <= b.pos <= s.len()
}

/// End of the longest run from `i` of digits and at most one `.` (`dot`: one
/// was already seen).
pub open spec fn run_end(s: Seq<char>, i: int, dot: bool) -> int
    decreases s.len() - i,
{
    if 0 <= i < s.len() && (is_digit(s[i]) || (s[i] == '.' && !dot)) {
        run_end(s, i + 1, dot || s[i] == '.')
    } else {
        i
    }
}

/// A run reads as a number when it is more than a lone `.`.
pub open spec fn is_number(s: Seq<char>, start: int, end: int) -> bool {
    end > start && !(end == start + 1 && s[start] == '.')
}

/// `start..end` is a whole number run of `s`.
pub open spec fn number_span(s: Seq<char>, start: int, end: int) -> bool {
    0 <= start < end <= s.len() && run_end(s, start, false) == end && is_number(s, start, end)
}

/// Every number of `ops` is a whole number run of `s`.
pub open spec fn spans_in(s: Seq<char>, ops: Seq<Op>) -> bool {
    forall|i: int|
        0 <= i < ops.len() ==> match #[trigger] ops[i] {
            Op::Num { start, end } => number_span(s, start as int, end as int),
            _ => true,
        }
}

pub proof fn lemma_push_span(s: Seq<char>, ops: Seq<Op>, op: Op)
    requires
        spans_in(s, ops),
        match op {
            Op::Num { start, end } => number_span(s, start as int, end as int),
            _ => true,
        },
    ensures
        spans_in(s, ops.push(op)),
{
    assert forall|i: int| 0 <= i < ops.push(op).len() implies match #[trigger] ops.push(op)[i] {
        Op::Num { start, end } => number_span(s, start as int, end as int),
        _ => true,
    } by {
        if i < ops.len() {
            assert(ops.push(op)[i] == ops[i]);
        }
    }
}

pub open spec fn num(s: Seq<char>, st: PState) -> PState {
    let end = run_end(s, st.pos, false);
    if is_number(s, st.pos, end) {
        PState {
            pos: end,
            ops: st.ops.push(Op::Num { start: st.pos as usize, end: end as usize }),
            ..st
        }
    } else {
        report(st, st.pos, ErrorKind::ExpectedNumber)
    }
}

pub open spec fn close(s: Seq<char>, st: PState) -> PState {
    if at(s, st.pos, ')') {
        advance(st)
    } else {
        report(st, st.pos, ErrorKind::ExpectedCloseParen)
    }
}

/// `atom`
pub open spec fn paren(s: Seq<char>, st: PState) -> PState
    decreases s.len() - st.pos, 1nat,
{
    if at(s, st.pos, '(') {
        close(s, expression(s, advance(st)))
    } else {
        num(s, st)
    }
}

/// `factor`; `neg` tells whether an odd number of `-` was read so far.
pub open spec fn unary(s: Seq<char>, st: PState, neg: bool) -> PState
    decreases s.len() - st.pos, 2nat,
{
    if at(s, st.pos, '-') {
        unary(s, advance(st), !neg)
    } else if neg {
        emit(paren(s, st), Op::Neg)
    } else {
        paren(s, st)
    }
}

/// The `(operator operand)*` part of `term`.
pub open spec fn term_rest(s: Seq<char>, st: PState) -> PState
    decreases s.len() - st.pos, 0nat,
{
    let next = if at(s, st.pos, '*') {
        Some(emit(unary(s, advance(st), false), Op::Mul))
    } else if at(s, st.pos, '/') {
        Some(emit(unary(s, advance(st), false), Op::Div))
    } else if at(s, st.pos, '(') {
        Some(emit(close(s, expression(s, advance(st))), Op::Mul))
    } else {
        None
    };
    match next {
        Some(st2) => if moved(s, advance(st), st2) {
            term_rest(s, st2)
        } else {
            st2
        },
        None => st,
    }
}

/// `term`
pub open spec fn term(s: Seq<char>, st: PState) -> PState
    decreases s.len() - st.pos, 3nat,
{
    let st1 = unary(s, st, false);
    if moved(s, st, st1) {
        term_rest(s, st1)
    } else {
        st1
    }
}

/// The `(operator operand)*` part of `expression`.
pub open spec fn expression_rest(s: Seq<char>, st: PState) -> PState
    decreases s.len() - st.pos, 0nat,
{
    let next = if at(s, st.pos, '+') {
        Some(emit(term(s, advance(st)), Op::Add))
    } else if at(s, st.pos, '-') {
        Some(emit(term(s, advance(st)), Op::Sub))
    } else {
        None
    };
    match next {
        Some(st2) => if moved(s, advance(st), st2) {
            expression_rest(s, st2)
        } else {
            st2
        },
        None => st,
    }
}

/// `expression`
pub open spec fn expression(s: Seq<char>, st: PState) -> PState
    decreases s.len() - st.pos, 4nat,
{
    let st1 = term(s, st);
    if moved(s, st, st1) {
        expression_rest(s, st1)
    } else {
        st1
    }
}

pub open spec fn start() -> PState {
    PState { pos: 0, ops: Seq::empty(), error: None }
}

/// What compiling the stripped text `s` gives: the program, or the first error.
pub open spec fn compiled(s: Seq<char>) -> Result<Seq<Op>, ParseError> {
    if s.len() == 0 {
        Err(ParseError { kind: ErrorKind::EmptyInput, pos: 0 })
    } else {
        let st = expression(s, start());
        match st.error {
            Some(e) => Err(e),
            None => if st.pos != s.len() {
                Err(ParseError { kind: ErrorKind::UnexpectedCharacter, pos: st.pos as usize })
            } else {
                Ok(st.ops)
            },
        }
    }
}

} // verus!
