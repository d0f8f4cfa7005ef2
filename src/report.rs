//! Error messages: the stripped text with a marker under the offending offset.
use vstd::prelude::*;
use crate::grammar::{ErrorKind, ParseError};

verus! {

/// Relies on `String::push`: appends one character at the end.
#[verifier::external_body]
fn push_char(s: &mut String, c: char)
    ensures
        final(s)@ == old(s)@.push(c),
{
    s.push(c)
}

pub open spec fn label(kind: ErrorKind) -> Seq<char> {
    match kind {
        ErrorKind::EmptyInput => "no user input"@,
        ErrorKind::ExpectedNumber => "expected number"@,
        ErrorKind::ExpectedCloseParen => "expected )"@,
        ErrorKind::UnexpectedCharacter => "unexpected character"@,
    }
}

pub open spec fn spaces(n: nat) -> Seq<char> {
    Seq::new(n, |i: int| ' ')
}

/// The message for `e` in the stripped text `source`: the text on one line, and
/// below it a marker at the error's offset followed by the description.
pub open spec fn message(e: ParseError, source: Seq<char>) -> Seq<char> {
    if e.kind == ErrorKind::EmptyInput {
        label(e.kind)
    } else {
        "ERROR | "@ + source + "\n        "@ + spaces(e.pos as nat) + "└─ "@ + label(e.kind)
            + " here"@
    }
}

pub fn label_text(kind: ErrorKind) -> (r: &'static str)
    ensures
        r@ == label(kind),
{
    match kind {
        ErrorKind::EmptyInput => "no user input",
        ErrorKind::ExpectedNumber => "expected number",
        ErrorKind::ExpectedCloseParen => "expected )",
        ErrorKind::UnexpectedCharacter => "unexpected character",
    }
}

impl ParseError {
    /// Renders this error against the stripped text it was found in.
    pub fn message(&self, source: &Vec<char>) -> (r: String)
        ensures
            r@ == message(*self, source@),
    {
        if self.kind == ErrorKind::EmptyInput {
            return String::from_str(label_text(self.kind));
        }
        let mut out = String::from_str("ERROR | ");
        let ghost head = out@;
        let mut i: usize = 0;
        while i < source.len()
            invariant
                head == "ERROR | "@,
                i <= source@.len(),
                out@ == head + source@.subrange(0, i as int),
            decreases source@.len() - i,
        {
            push_char(&mut out, source[i]);
            assert(source@.subrange(0, i + 1) =~= source@.subrange(0, i as int).push(source@[i as int]));
            i = i + 1;
        }
        assert(source@.subrange(0, source@.len() as int) =~= source@);
        out.append("\n        ");
        let ghost line = out@;
        let mut k: usize = 0;
        while k < self.pos
            invariant
                line == "ERROR | "@ + source@ + "\n        "@,
                k <= self.pos,
                out@ == line + spaces(k as nat),
            decreases self.pos - k,
        {
            out.append(" ");
            proof {
                reveal_strlit(" ");
            }
            assert(spaces((k + 1) as nat) =~= spaces(k as nat) + " "@);
            k = k + 1;
        }
        out.append("└─ ");
        out.append(label_text(self.kind));
        out.append(" here");
        out
    }
}

} // verus!
