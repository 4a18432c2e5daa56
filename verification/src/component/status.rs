//! The status marks of transactions and postings.
use crate::text::{agrees, at};
use vstd::prelude::*;

verus! {

/// How far a transaction or posting has been confirmed.
#[derive(Clone, Copy, Debug, PartialEq, Eq)]
pub enum Status {
    /// Written `!`.
    Pending,
    /// Written `*`.
    Cleared,
}

impl DeepView for Status {
    type V = Status;

    open spec fn deep_view(&self) -> Status {
        *self
    }
}

/// The status mark at `i`.
pub open spec fn spec_status(s: Seq<char>, i: int) -> Option<(Status, int)> {
    if at(s, i, '!') {
        Some((Status::Pending, i + 1))
    } else if at(s, i, '*') {
        Some((Status::Cleared, i + 1))
    } else {
        None
    }
}

/// Parses the status mark at `start`.
pub fn status(input: &[char], start: usize) -> (r: Option<(Status, usize)>)
    ensures
        agrees(r, spec_status(input@, start as int)),
        r matches Some(x) ==> x.1 == start + 1 && x.1 <= input.len(),
{
    if start < input.len() && input[start] == '!' {
        Some((Status::Pending, start + 1))
    } else if start < input.len() && input[start] == '*' {
        Some((Status::Cleared, start + 1))
    } else {
        None
    }
}

} // verus!
