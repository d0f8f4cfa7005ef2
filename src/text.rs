//! Source text: whitespace removal.
use vstd::prelude::*;

verus! {

/// Whether a character is white space, as `char::is_whitespace` decides it.
pub uninterp spec fn is_white(c: char) -> bool;

/// Relies on `char::is_whitespace`: true exactly for the characters with the
/// Unicode `White_Space` property, a fixed function of the character.
#[verifier::external_body]
fn char_is_whitespace(c: char) -> (r: bool)
    ensures
        r == is_white(c),
{
    c.is_whitespace()
}

/// The text with every white-space character removed, the rest kept in order.
pub open spec fn stripped(s: Seq<char>) -> Seq<char>
    decreases s.len(),
{
    if s.len() == 0 {
        Seq::empty()
    } else if is_white(s.last()) {
        stripped(s.drop_last())
    } else {
        stripped(s.drop_last()).push(s.last())
    }
}

/// Removes all white space from `input`.
pub fn strip_whitespace(input: &str) -> (r: Vec<char>)
    ensures
        r@ == stripped(input@),
        forall|i: int| 0 <= i < r@.len() ==> !is_white(#[trigger] r@[i]),
{
    let n = input.unicode_len();
    let mut out: Vec<char> = Vec::new();
    let mut i: usize = 0;
    while i < n
        invariant
            n == input@.len(),
            i <= n,
            out@ == stripped(input@.subrange(0, i as int)),
            forall|j: int| 0 <= j < out@.len() ==> !is_white(#[trigger] out@[j]),
        decreases n - i,
    {
        let c = input.get_char(i);
        assert(input@.subrange(0, i + 1).drop_last() =~= input@.subrange(0, i as int));
        if !char_is_whitespace(c) {
            out.push(c);
        }
        i = i + 1;
    }
    assert(input@.subrange(0, n as int) =~= input@);
    out
}

} // verus!
