//! The cursor over the stripped text, and the recursive-descent parser that
//! writes the postfix program.
use vstd::prelude::*;
use crate::grammar::{
    advance, at, compiled, expression, expression_rest, is_number, lemma_push_span, moved, num,
    number_span, paren, report, run_end, spans_in, term, term_rest, unary, ErrorKind, PState,
    ParseError,
};
use crate::ops::{lemma_empty_stack, lemma_push, pushes_one, valid_program, Op};
use crate::text::{stripped, strip_whitespace};
use crate::report::message;

verus! {

/// Parse state: the stripped text, the cursor into it, the program written so
/// far and the first error met.
pub struct Stack {
    pub file: Vec<char>,
    pub file_index: usize,
    pub ops: Vec<Op>,
    pub error: Option<ParseError>,
}

impl Stack {
    pub open spec fn wf(&self) -> bool {
        self.file_index <= self.file@.len()
    }

    pub open spec fn state(&self) -> PState {
        PState { pos: self.file_index as int, ops: self.ops@, error: self.error }
    }

    /// A fresh parse of `input` with its white space removed; empty text is an
    /// error from the start.
    pub fn new(input: &str) -> (r: Stack)
        ensures
            r.wf(),
            r.file@ == stripped(input@),
            r.state() == (PState {
                pos: 0,
                ops: Seq::empty(),
                error: if stripped(input@).len() == 0 {
                    Some(ParseError { kind: ErrorKind::EmptyInput, pos: 0 })
                } else {
                    None
                },
            }),
    {
        Stack::from_source(strip_whitespace(input))
    }

    /// A fresh parse of text that is already stripped.
    pub fn from_source(file: Vec<char>) -> (r: Stack)
        ensures
            r.wf(),
            r.file@ == file@,
            r.state() == (PState {
                pos: 0,
                ops: Seq::empty(),
                error: if file@.len() == 0 {
                    Some(ParseError { kind: ErrorKind::EmptyInput, pos: 0 })
                } else {
                    None
                },
            }),
    {
        let error = if file.len() == 0 {
            Some(ParseError { kind: ErrorKind::EmptyInput, pos: 0 })
        } else {
            None
        };
        Stack { file, file_index: 0, ops: Vec::new(), error }
    }

    /// Moves past `c` if it comes next.
    pub fn match_char(&mut self, c: char) -> (r: bool)
        requires
            old(self).wf(),
        ensures
            final(self).wf(),
            final(self).file@ == old(self).file@,
            r == at(old(self).file@, old(self).file_index as int, c),
            final(self).state() == if r {
                advance(old(self).state())
            } else {
                old(self).state()
            },
    {
        if self.file_index < self.file.len() && self.file[self.file_index] == c {
            self.file_index = self.file_index + 1;
            true
        } else {
            false
        }
    }

    /// Reads the longest run of digits with at most one `.`; on success moves
    /// past it and returns its span, otherwise leaves the cursor where it was.
    pub fn match_number(&mut self) -> (r: Option<(usize, usize)>)
        requires
            old(self).wf(),
        ensures
            final(self).wf(),
            final(self).file@ == old(self).file@,
            final(self).ops@ == old(self).ops@,
            final(self).error == old(self).error,
            ({
                let s = old(self).file@;
                let start = old(self).file_index as int;
                let end = run_end(s, start, false);
                if is_number(s, start, end) {
                    r == Some((start as usize, end as usize)) && final(self).file_index == end
                        && number_span(s, start, end)
                } else {
                    r is None && final(self).file_index == start
                }
            }),
    {
        let start = self.file_index;
        let mut i: usize = start;
        let mut dot = false;
        while i < self.file.len()
            invariant_except_break
                start <= i <= self.file@.len(),
                run_end(self.file@, start as int, false) == run_end(self.file@, i as int, dot),
            ensures
                start <= i <= self.file@.len(),
                run_end(self.file@, start as int, false) == i,
            decreases self.file@.len() - i,
        {
            let c = self.file[i];
            if c == '.' && !dot {
                dot = true;
            } else if !('0' <= c && c <= '9') {
                break;
            }
            i = i + 1;
        }
        if i > start && !(i == start + 1 && self.file[start] == '.') {
            self.file_index = i;
            Some((start, i))
        } else {
            None
        }
    }

    /// Records an error at `pos`, unless one is already recorded.
    pub fn error(&mut self, pos: usize, kind: ErrorKind)
        ensures
            final(self).file@ == old(self).file@,
            final(self).file_index == old(self).file_index,
            final(self).state() == report(old(self).state(), pos as int, kind),
    {
        if self.error.is_none() {
            self.error = Some(ParseError { kind, pos });
        }
    }
}

/// What every grammar rule promises besides its result: the text is kept, the
/// cursor only moves forward, a recorded error stays, and a rule that ends
/// without error has added a fragment that pushes exactly one value.
pub open spec fn rule_step(before: Stack, after: Stack) -> bool {
    &&& after.wf()
    &&& after.file@ == before.file@
    &&& moved(before.file@, before.state(), after.state())
    &&& (before.error is Some ==> after.error == before.error)
    &&& (after.error is None ==> pushes_one(before.ops@, after.ops@))
    &&& (spans_in(before.file@, before.ops@) ==> spans_in(after.file@, after.ops@))
}

/// `expression := term (('+' | '-') term)*`
pub fn parse(stack: &mut Stack)
    requires
        old(stack).wf(),
    ensures
        rule_step(*old(stack), *final(stack)),
        final(stack).state() == expression(old(stack).file@, old(stack).state()),
    decreases old(stack).file@.len() - old(stack).file_index, 5nat,
{
    parse_add(stack);
}

/// `expression := term (('+' | '-') term)*`, left-associative.
pub fn parse_add(stack: &mut Stack)
    requires
        old(stack).wf(),
    ensures
        rule_step(*old(stack), *final(stack)),
        final(stack).state() == expression(old(stack).file@, old(stack).state()),
    decreases old(stack).file@.len() - old(stack).file_index, 4nat,
{
    let ghost s = stack.file@;
    let ghost st0 = *stack;
    let ghost goal = expression(s, stack.state());
    parse_mul(stack);
    loop
        invariant
            s == st0.file@,
            st0 == *old(stack),
            rule_step(st0, *stack),
            expression_rest(s, stack.state()) == goal,
        ensures
            stack.state() == goal,
        decreases s.len() - stack.file_index,
    {
        let ghost st1 = *stack;
        let op;
        if stack.match_char('+') {
            op = Op::Add;
        } else if stack.match_char('-') {
            op = Op::Sub;
        } else {
            break;
        }
        let ghost st2 = *stack;
        parse_mul(stack);
        let ghost st3 = *stack;
        stack.ops.push(op);
        proof {
            lemma_push(st3.ops@, op);
            if spans_in(st3.file@, st3.ops@) {
                lemma_push_span(st3.file@, st3.ops@, op);
            }
        }
    }
}

/// `term := factor (('*' | '/') factor | '(' expression ')')*`, left-associative;
/// a parenthesis right after a factor multiplies.
pub fn parse_mul(stack: &mut Stack)
    requires
        old(stack).wf(),
    ensures
        rule_step(*old(stack), *final(stack)),
        final(stack).state() == term(old(stack).file@, old(stack).state()),
    decreases old(stack).file@.len() - old(stack).file_index, 3nat,
{
    let ghost s = stack.file@;
    let ghost st0 = *stack;
    let ghost goal = term(s, stack.state());
    parse_unary(stack);
    loop
        invariant
            s == st0.file@,
            st0 == *old(stack),
            rule_step(st0, *stack),
            term_rest(s, stack.state()) == goal,
        ensures
            stack.state() == goal,
        decreases s.len() - stack.file_index,
    {
        let ghost st1 = *stack;
        let op;
        if stack.match_char('*') {
            op = Op::Mul;
            parse_unary(stack);
        } else if stack.match_char('/') {
            op = Op::Div;
            parse_unary(stack);
        } else if stack.match_char('(') {
            op = Op::Mul;
            parse(stack);
            if !stack.match_char(')') {
                stack.error(stack.file_index, ErrorKind::ExpectedCloseParen);
            }
        } else {
            break;
        }
        let ghost st3 = *stack;
        stack.ops.push(op);
        proof {
            lemma_push(st3.ops@, op);
            if spans_in(st3.file@, st3.ops@) {
                lemma_push_span(st3.file@, st3.ops@, op);
            }
        }
    }
}

/// `factor := '-'* atom`; an odd count of `-` negates the atom.
pub fn parse_unary(stack: &mut Stack)
    requires
        old(stack).wf(),
    ensures
        rule_step(*old(stack), *final(stack)),
        final(stack).state() == unary(old(stack).file@, old(stack).state(), false),
    decreases old(stack).file@.len() - old(stack).file_index, 2nat,
{
    let ghost s = stack.file@;
    let ghost st0 = *stack;
    let ghost goal = unary(s, stack.state(), false);
    let mut negate = false;
    while stack.match_char('-')
        invariant
            s == st0.file@,
            st0 == *old(stack),
            stack.wf(),
            stack.file@ == s,
            st0.file_index <= stack.file_index,
            stack.ops@ == st0.ops@,
            stack.error == st0.error,
            unary(s, stack.state(), negate) == goal,
        decreases s.len() - stack.file_index,
    {
        negate = !negate;
    }
    parse_paren(stack);
    if negate {
        let ghost st3 = *stack;
        stack.ops.push(Op::Neg);
        proof {
            lemma_push(st3.ops@, Op::Neg);
            if spans_in(st3.file@, st3.ops@) {
                lemma_push_span(st3.file@, st3.ops@, Op::Neg);
            }
        }
    }
}

/// `atom := '(' expression ')' | number`
pub fn parse_paren(stack: &mut Stack)
    requires
        old(stack).wf(),
    ensures
        rule_step(*old(stack), *final(stack)),
        final(stack).state() == paren(old(stack).file@, old(stack).state()),
    decreases old(stack).file@.len() - old(stack).file_index, 1nat,
{
    if stack.match_char('(') {
        parse(stack);
        if !stack.match_char(')') {
            stack.error(stack.file_index, ErrorKind::ExpectedCloseParen);
        }
    } else {
        parse_num(stack);
    }
}

/// `number`; a missing number is an error at the place where it was due.
pub fn parse_num(stack: &mut Stack)
    requires
        old(stack).wf(),
    ensures
        rule_step(*old(stack), *final(stack)),
        final(stack).state() == num(old(stack).file@, old(stack).state()),
{
    let error_index = stack.file_index;
    match stack.match_number() {
        Some((start, end)) => {
            let ghost st3 = *stack;
            stack.ops.push(Op::Num { start, end });
            proof {
                lemma_push(st3.ops@, Op::Num { start, end });
                if spans_in(st3.file@, st3.ops@) {
                    lemma_push_span(st3.file@, st3.ops@, Op::Num { start, end });
                }
            }
        },
        None => {
            stack.error(error_index, ErrorKind::ExpectedNumber);
        },
    }
}

/// Compiles stripped text into a postfix program, or gives the first error.
///
/// On success the program is valid: run on an empty stack it never pops a
/// missing value and leaves exactly one.
pub fn compile_source(source: &Vec<char>) -> (r: Result<Vec<Op>, ParseError>)
    ensures
        match r {
            Ok(ops) => compiled(source@) == Ok::<Seq<Op>, ParseError>(ops@) && valid_program(ops@)
                && spans_in(source@, ops@),
            Err(e) => compiled(source@) == Err::<Seq<Op>, ParseError>(e),
        },
{
    let mut stack = Stack::from_source(source.clone());
    assert(stack.file@ =~= source@);
    parse(&mut stack);
    if stack.file_index != stack.file.len() {
        stack.error(stack.file_index, ErrorKind::UnexpectedCharacter);
    }
    match stack.error {
        Some(e) => Err(e),
        None => {
            proof {
                lemma_empty_stack();
            }
            Ok(stack.ops)
        },
    }
}

/// A compiled expression: the stripped text, and the postfix program whose
/// numbers are spans of it.
pub struct Program {
    pub source: Vec<char>,
    pub ops: Vec<Op>,
}

/// Strips white space from `input` and compiles what is left; a failure comes
/// back as the rendered message.
pub fn compile(input: &str) -> (r: Result<Program, String>)
    ensures
        match r {
            Ok(p) => p.source@ == stripped(input@) && compiled(stripped(input@)) == Ok::<
                Seq<Op>,
                ParseError,
            >(p.ops@) && valid_program(p.ops@) && spans_in(p.source@, p.ops@),
            Err(m) => compiled(stripped(input@)) is Err && m@ == message(
                compiled(stripped(input@))->Err_0,
                stripped(input@),
            ),
        },
{
    let source = strip_whitespace(input);
    match compile_source(&source) {
        Ok(ops) => Ok(Program { source, ops }),
        Err(e) => Err(e.message(&source)),
    }
}

} // verus!
