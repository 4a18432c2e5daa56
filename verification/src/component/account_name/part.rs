//! One segment of an account name, as it is written.
use crate::component::account_name::{segment_end, skip_segment};
use crate::text::{agrees, copy_range};
use vstd::prelude::*;

verus! {

/// A segment of an account name, not trimmed.
#[derive(Clone, Debug, PartialEq, Eq)]
pub struct Part(pub String);

impl DeepView for Part {
    type V = Seq<char>;

    open spec fn deep_view(&self) -> Seq<char> {
        self.0@
    }
}

impl Part {
    /// The segment with the text `s`.
    pub fn from_str(s: &str) -> (p: Part)
        ensures
            p.deep_view() == s@,
    {
        Part(s.to_owned())
    }

    /// The text of the segment.
    pub fn to_str(&self) -> (s: &str)
        ensures
            s@ == self.deep_view(),
    {
        self.0.as_str()
    }
}

/// The segment at `i`: the text up to a line break, a colon or two spaces
/// in a row. It may be empty.
pub open spec fn spec_part(s: Seq<char>, i: int) -> Option<(Seq<char>, int)> {
    if 0 <= i <= s.len() {
        Some((s.subrange(i, segment_end(s, i, false)), segment_end(s, i, false)))
    } else {
        None
    }
}

/// Parses the segment that starts at `start`.
pub fn part(input: &[char], start: usize) -> (r: Option<(Part, usize)>)
    ensures
        agrees(r, spec_part(input@, start as int)),
        r matches Some(x) ==> start <= x.1 <= input.len(),
{
    if start > input.len() {
        return None;
    }
    let e = skip_segment(input, start, false);
    Some((Part(copy_range(input, start, e)), e))
}

} // verus!
