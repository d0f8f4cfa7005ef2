//! Facts about the compiler as a whole.
use vstd::prelude::*;
use crate::grammar::{compiled, ErrorKind, ParseError};
use crate::ops::Op;
use crate::text::{is_white, stripped};

verus! {

/// Stripping distributes over concatenation.
pub proof fn lemma_stripped_concat(a: Seq<char>, b: Seq<char>)
    ensures
        stripped(a + b) == stripped(a) + stripped(b),
    decreases b.len(),
{
    if b.len() == 0 {
        assert(a + b =~= a);
        assert(stripped(a) + stripped(b) =~= stripped(a));
    } else {
        lemma_stripped_concat(a, b.drop_last());
        assert((a + b).drop_last() =~= a + b.drop_last());
        assert((a + b).last() == b.last());
        if !is_white(b.last()) {
            assert(stripped(a) + stripped(b.drop_last()).push(b.last()) =~= (stripped(a)
                + stripped(b.drop_last())).push(b.last()));
        }
    }
}

/// Text made of white space alone strips to nothing.
pub proof fn lemma_stripped_blank(w: Seq<char>)
    requires
        forall|i: int| 0 <= i < w.len() ==> is_white(#[trigger] w[i]),
    ensures
        stripped(w) == Seq::<char>::empty(),
    decreases w.len(),
{
    if w.len() > 0 {
        lemma_stripped_blank(w.drop_last());
    }
}

/// White space is insignificant: inserting any run of white space at any place
/// in the input leaves the compiled program, or the error, exactly as it was.
pub proof fn lemma_whitespace_insensitive(s: Seq<char>, w: Seq<char>, i: int)
    requires
        0 <= i <= s.len(),
        forall|j: int| 0 <= j < w.len() ==> is_white(#[trigger] w[j]),
    ensures
        compiled(stripped(s.subrange(0, i) + w + s.subrange(i, s.len() as int))) == compiled(
            stripped(s),
        ),
{
    let a = s.subrange(0, i);
    let b = s.subrange(i, s.len() as int);
    lemma_stripped_concat(a + w, b);
    lemma_stripped_concat(a, w);
    lemma_stripped_concat(a, b);
    lemma_stripped_blank(w);
    assert(stripped(a) + Seq::<char>::empty() =~= stripped(a));
    assert(a + b =~= s);
}

/// Input that is empty or white space alone is an `EmptyInput` error at offset 0.
pub proof fn lemma_blank_input(w: Seq<char>)
    requires
        forall|i: int| 0 <= i < w.len() ==> is_white(#[trigger] w[i]),
    ensures
        compiled(stripped(w)) == Err::<Seq<Op>, ParseError>(
            ParseError { kind: ErrorKind::EmptyInput, pos: 0 },
        ),
{
    lemma_stripped_blank(w);
}

} // verus!
