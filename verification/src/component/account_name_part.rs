//! One segment of an account name, where only a comment ends it early.
use crate::text::{agrees, at, copy_range, is_line_break, line_break};
use vstd::prelude::*;

verus! {

/// A segment of an account name, not trimmed.
#[derive(Clone, Debug, PartialEq, Eq)]
pub struct AccountNamePart(pub String);

impl DeepView for AccountNamePart {
    type V = Seq<char>;

    open spec fn deep_view(&self) -> Seq<char> {
        self.0@
    }
}

impl AccountNamePart {
    /// The segment with the text `s`.
    pub fn from_str(s: &str) -> (p: AccountNamePart)
        ensures
            p.deep_view() == s@,
    {
        AccountNamePart(s.to_owned())
    }

    /// The text of the segment.
    pub fn to_str(&self) -> (s: &str)
        ensures
            s@ == self.deep_view(),
    {
        self.0.as_str()
    }
}

/// The segment goes on over the character at `i`: it ends before a line
/// break, a colon, and two spaces with a semicolon behind them.
pub open spec fn in_part(s: Seq<char>, i: int) -> bool {
    0 <= i < s.len() && !is_line_break(s[i]) && s[i] != ':' && !(s[i] == ' ' && at(s, i + 1, ' ')
        && at(s, i + 2, ';'))
}

/// The end of the segment that starts at `i`.
pub open spec fn part_end(s: Seq<char>, i: int) -> int
    decreases s.len() - i,
{
    if in_part(s, i) {
        part_end(s, i + 1)
    } else {
        i
    }
}

/// The segment at `i`. It may be empty.
pub open spec fn spec_account_name_part(s: Seq<char>, i: int) -> Option<(Seq<char>, int)> {
    if 0 <= i <= s.len() {
        Some((s.subrange(i, part_end(s, i)), part_end(s, i)))
    } else {
        None
    }
}

fn part_here(input: &[char], i: usize) -> (r: bool)
    ensures
        r == in_part(input@, i as int),
        r ==> i < input.len(),
{
    if i >= input.len() {
        return false;
    }
    let c = input[i];
    !line_break(c) && c != ':' && !(c == ' ' && input.len() - i > 2 && input[i + 1] == ' '
        && input[i + 2] == ';')
}

/// Parses the segment that starts at `start`.
pub fn account_name_part(input: &[char], start: usize) -> (r: Option<(AccountNamePart, usize)>)
    ensures
        agrees(r, spec_account_name_part(input@, start as int)),
        r matches Some(x) ==> start <= x.1 <= input.len(),
{
    if start > input.len() {
        return None;
    }
    let mut j: usize = start;
    while part_here(input, j)
        invariant
            start <= j <= input.len(),
            part_end(input@, start as int) == part_end(input@, j as int),
        decreases input.len() - j,
    {
        j = j + 1;
    }
    Some((AccountNamePart(copy_range(input, start, j)), j))
}

} // verus!
