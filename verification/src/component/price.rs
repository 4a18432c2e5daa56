//! Price annotations of postings.
use crate::component::amount::{amount, blanks, spec_amount, Amount, AmountView};
use crate::state::Separator;
use crate::text::{agrees, at, skip_run, CharClass};
use vstd::prelude::*;

verus! {

/// What a posting's amount costs.
#[derive(Clone, Debug, PartialEq, Eq)]
pub enum Price {
    /// The price of one unit, written behind `@`.
    Unit(Amount),
    /// The price of the whole amount, written behind `@@`.
    Total(Amount),
}

/// The mathematical value of a [`Price`].
pub enum PriceView {
    Unit(AmountView),
    Total(AmountView),
}

impl DeepView for Price {
    type V = PriceView;

    open spec fn deep_view(&self) -> PriceView {
        match self {
            Price::Unit(a) => PriceView::Unit(a.deep_view()),
            Price::Total(a) => PriceView::Total(a.deep_view()),
        }
    }
}

/// The price at `i`: one or two `@`, blanks, an amount.
pub open spec fn spec_price(s: Seq<char>, i: int, mark: Option<Separator>) -> Option<
    (PriceView, int),
> {
    if at(s, i, '@') {
        if at(s, i + 1, '@') {
            match spec_amount(s, blanks(s, i + 2), mark) {
                Some((a, k)) => Some((PriceView::Total(a), k)),
                None => None,
            }
        } else {
            match spec_amount(s, blanks(s, i + 1), mark) {
                Some((a, k)) => Some((PriceView::Unit(a), k)),
                None => None,
            }
        }
    } else {
        None
    }
}

/// Parses the price that starts at `start`.
pub fn price(input: &[char], start: usize, mark: Option<Separator>) -> (r: Option<(Price, usize)>)
    ensures
        agrees(r, spec_price(input@, start as int, mark)),
        r matches Some(x) ==> start < x.1 <= input.len(),
{
    if start < input.len() && input[start] == '@' {
        if start + 1 < input.len() && input[start + 1] == '@' {
            match amount(input, skip_run(input, start + 2, CharClass::Blank), mark) {
                Some((a, k)) => Some((Price::Total(a), k)),
                None => None,
            }
        } else {
            match amount(input, skip_run(input, start + 1, CharClass::Blank), mark) {
                Some((a, k)) => Some((Price::Unit(a), k)),
                None => None,
            }
        }
    } else {
        None
    }
}

} // verus!
