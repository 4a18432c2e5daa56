//! What may stand between a directive and the end of its line.
use crate::component::amount::blanks;
use crate::component::comment::{spec_inline, Comment};
use crate::text::{literal, same_pos, skip_run, word_end, CharClass};
use vstd::prelude::*;

verus! {

/// The rest of a line from `i` on: blanks, at least `prefix` of them, and a
/// comment; else blanks alone and no comment.
pub open spec fn spec_end_of_line_prefixed(s: Seq<char>, i: int, prefix: nat) -> (
    Option<Seq<char>>,
    int,
) {
    if blanks(s, i) - i >= prefix {
        match spec_inline(s, blanks(s, i)) {
            Some((text, end)) => (Some(text), end),
            None => (None, blanks(s, i)),
        }
    } else {
        (None, blanks(s, i))
    }
}

/// The rest of a line from `i` on: blanks and, where one follows, a comment.
pub open spec fn spec_end_of_line(s: Seq<char>, i: int) -> (Option<Seq<char>>, int) {
    spec_end_of_line_prefixed(s, i, 0)
}

/// Where the rest of the line from `i` on ends.
pub open spec fn eol(s: Seq<char>, i: int) -> int {
    spec_end_of_line(s, i).1
}

/// Consumes the rest of a line from `start` on. A comment counts only
/// behind at least `prefix_whitespace` blanks.
pub fn end_of_line_prefixed(input: &[char], start: usize, prefix_whitespace: usize) -> (r: (
    Option<Comment>,
    usize,
))
    ensures
        r.0.deep_view() == spec_end_of_line_prefixed(
            input@,
            start as int,
            prefix_whitespace as nat,
        ).0,
        r.1 == spec_end_of_line_prefixed(input@, start as int, prefix_whitespace as nat).1,
        start <= r.1,
        start <= input.len() ==> r.1 <= input.len(),
{
    let b = skip_run(input, start, CharClass::Blank);
    if b - start >= prefix_whitespace {
        match crate::component::comment::inline(input, b) {
            Some((c, end)) => (Some(c), end),
            None => (None, b),
        }
    } else {
        (None, b)
    }
}

/// Consumes the rest of a line from `start` on.
pub fn end_of_line(input: &[char], start: usize) -> (r: (Option<Comment>, usize))
    ensures
        r.0.deep_view() == spec_end_of_line(input@, start as int).0,
        r.1 == eol(input@, start as int),
        start <= r.1,
        start <= input.len() ==> r.1 <= input.len(),
{
    end_of_line_prefixed(input, start, 0)
}

/// Where the body of a directive starts: behind the keyword `word` at `i`
/// and at least one blank.
pub open spec fn keyword_end(s: Seq<char>, i: int, word: Seq<char>) -> Option<int> {
    match word_end(s, i, word) {
        Some(w) => if blanks(s, w) > w {
            Some(blanks(s, w))
        } else {
            None
        },
        None => None,
    }
}

/// Recognises the keyword `word` at `start` and the blanks behind it.
pub fn keyword(input: &[char], start: usize, word: &str) -> (r: Option<usize>)
    ensures
        same_pos(r, keyword_end(input@, start as int, word@)),
        r matches Some(j) ==> start < j <= input.len(),
{
    match literal(input, start, word) {
        Some(w) => {
            let b = skip_run(input, w, CharClass::Blank);
            if b > w {
                Some(b)
            } else {
                None
            }
        },
        None => None,
    }
}

} // verus!
