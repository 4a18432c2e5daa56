//! The `payee` directive.
use crate::text::{agrees, copy_trimmed_end, skip_until, text_end, trimmed_end};
use crate::utils::{end_of_line, eol, keyword, keyword_end};
use vstd::prelude::*;

verus! {

/// The declaration of a payee.
#[derive(Clone, Debug, PartialEq, Eq)]
pub struct Payee(pub String);

impl DeepView for Payee {
    type V = Seq<char>;

    open spec fn deep_view(&self) -> Seq<char> {
        self.0@
    }
}

/// The directive at `i`: `payee`, blanks, a name that is not empty and ends
/// before `;` or the end of the line, trimmed at its end, and the rest of
/// the line.
pub open spec fn spec_payee(s: Seq<char>, i: int) -> Option<(Seq<char>, int)> {
    match keyword_end(s, i, "payee"@) {
        Some(j) => {
            let e = text_end(s, j, seq![';']);
            if e > j {
                Some((trimmed_end(s, j, e), eol(s, e)))
            } else {
                None
            }
        },
        None => None,
    }
}

/// Parses the `payee` directive that starts at `start`.
pub fn payee(input: &[char], start: usize) -> (r: Option<(Payee, usize)>)
    ensures
        agrees(r, spec_payee(input@, start as int)),
        r matches Some(x) ==> start < x.1 <= input.len(),
{
    match keyword(input, start, "payee") {
        Some(j) => {
            let e = skip_until(input, j, ';');
            if e > j {
                let (_, end) = end_of_line(input, e);
                Some((Payee(copy_trimmed_end(input, j, e)), end))
            } else {
                None
            }
        },
        None => None,
    }
}

} // verus!
