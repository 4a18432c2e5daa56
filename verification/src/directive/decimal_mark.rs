//! The `decimal-mark` directive.
use crate::state::Separator;
use crate::text::{agrees, at};
use crate::utils::{end_of_line, eol, keyword, keyword_end};
use vstd::prelude::*;

verus! {

/// The declaration of the character that introduces the fraction of a number.
#[derive(Clone, Copy, Debug, PartialEq, Eq)]
pub struct DecimalMark(pub char);

impl DeepView for DecimalMark {
    type V = DecimalMark;

    open spec fn deep_view(&self) -> DecimalMark {
        *self
    }
}

impl DecimalMark {
    /// The mark as a separator, where the character is one.
    pub open spec fn spec_separator(self) -> Option<Separator> {
        if self.0 == '.' {
            Some(Separator::Period)
        } else if self.0 == ',' {
            Some(Separator::Comma)
        } else {
            None
        }
    }

    /// The mark as a separator, where the character is one.
    pub fn separator(&self) -> (r: Option<Separator>)
        ensures
            r == self.spec_separator(),
    {
        if self.0 == '.' {
            Some(Separator::Period)
        } else if self.0 == ',' {
            Some(Separator::Comma)
        } else {
            None
        }
    }
}

/// The directive at `i`: `decimal-mark`, blanks, a period or a comma, and
/// the rest of the line.
pub open spec fn spec_decimal_mark(s: Seq<char>, i: int) -> Option<(DecimalMark, int)> {
    match keyword_end(s, i, "decimal-mark"@) {
        Some(j) => if at(s, j, '.') || at(s, j, ',') {
            Some((DecimalMark(s[j]), eol(s, j + 1)))
        } else {
            None
        },
        None => None,
    }
}

/// Parses the `decimal-mark` directive that starts at `start`.
pub fn decimal_mark(input: &[char], start: usize) -> (r: Option<(DecimalMark, usize)>)
    ensures
        agrees(r, spec_decimal_mark(input@, start as int)),
        r matches Some(x) ==> start < x.1 <= input.len() && x.0.spec_separator() is Some,
{
    match keyword(input, start, "decimal-mark") {
        Some(j) => {
            if j < input.len() && (input[j] == '.' || input[j] == ',') {
                let (_, end) = end_of_line(input, j + 1);
                Some((DecimalMark(input[j]), end))
            } else {
                None
            }
        },
        None => None,
    }
}

} // verus!
