//! The blanks that separate the parts of a line.
use crate::text::{is_blank, same_pos, CharClass};
use vstd::prelude::*;

verus! {

/// The position after one blank at `i`: a space, a tab or a no-break space.
pub open spec fn spec_whitespace(s: Seq<char>, i: int) -> Option<int> {
    if 0 <= i < s.len() && is_blank(s[i]) {
        Some(i + 1)
    } else {
        None
    }
}

/// Recognises one blank at `start`.
pub fn whitespace(input: &[char], start: usize) -> (r: Option<usize>)
    ensures
        same_pos(r, spec_whitespace(input@, start as int)),
{
    if start < input.len() && CharClass::Blank.contains(input[start]) {
        Some(start + 1)
    } else {
        None
    }
}

} // verus!
