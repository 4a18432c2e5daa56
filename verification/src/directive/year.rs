//! The `year` directive.
use crate::component::quantity::{digit_at, digit_here};
use crate::text::{agrees, number_value, read_small};
use crate::utils::{end_of_line, eol, keyword, keyword_end};
use vstd::prelude::*;

verus! {

/// The declaration of the year of the dates that are written without one.
#[derive(Clone, Copy, Debug, PartialEq, Eq)]
pub struct Year(pub u16);

impl DeepView for Year {
    type V = Year;

    open spec fn deep_view(&self) -> Year {
        *self
    }
}

/// The directive at `i`: `year`, blanks, four digits and the rest of the line.
pub open spec fn spec_year(s: Seq<char>, i: int) -> Option<(Year, int)> {
    match keyword_end(s, i, "year"@) {
        Some(j) => if digit_at(s, j) && digit_at(s, j + 1) && digit_at(s, j + 2) && digit_at(
            s,
            j + 3,
        ) {
            Some((Year(number_value(s.subrange(j, j + 4)) as u16), eol(s, j + 4)))
        } else {
            None
        },
        None => None,
    }
}

/// Parses the `year` directive that starts at `start`.
pub fn year(input: &[char], start: usize) -> (r: Option<(Year, usize)>)
    ensures
        agrees(r, spec_year(input@, start as int)),
        r matches Some(x) ==> start < x.1 <= input.len(),
{
    match keyword(input, start, "year") {
        Some(j) => {
            if digit_here(input, j) && digit_here(input, j + 1) && digit_here(input, j + 2)
                && digit_here(input, j + 3) {
                let (_, end) = end_of_line(input, j + 4);
                Some((Year(read_small(input, j, j + 4)), end))
            } else {
                None
            }
        },
        None => None,
    }
}

} // verus!
