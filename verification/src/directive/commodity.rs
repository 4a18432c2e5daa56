//! The `commodity` directive.
use crate::component::amount::{amount, spec_amount, Amount, AmountView};
use crate::component::commodity::{commodity as parse_commodity, spec_commodity};
use crate::state::Separator;
use crate::text::agrees;
use crate::utils::{end_of_line, eol, keyword, keyword_end};
use vstd::prelude::*;

verus! {

/// The declaration of a commodity: by an amount that shows how it is
/// written, or by its name alone.
#[derive(Clone, Debug, PartialEq, Eq)]
pub enum Commodity {
    Amount(Amount),
    Commodity(crate::component::commodity::Commodity),
}

/// The mathematical value of a [`Commodity`] declaration.
pub enum CommodityView {
    Amount(AmountView),
    Commodity(Seq<char>),
}

impl DeepView for Commodity {
    type V = CommodityView;

    open spec fn deep_view(&self) -> CommodityView {
        match self {
            Commodity::Amount(a) => CommodityView::Amount(a.deep_view()),
            Commodity::Commodity(c) => CommodityView::Commodity(c.deep_view()),
        }
    }
}

/// The directive at `i`: `commodity`, blanks, an amount or else a commodity
/// name, and the rest of the line.
pub open spec fn spec_commodity_directive(s: Seq<char>, i: int, mark: Option<Separator>) -> Option<
    (CommodityView, int),
> {
    match keyword_end(s, i, "commodity"@) {
        Some(j) => match spec_amount(s, j, mark) {
            Some((a, e)) => Some((CommodityView::Amount(a), eol(s, e))),
            None => match spec_commodity(s, j) {
                Some((c, e)) => Some((CommodityView::Commodity(c), eol(s, e))),
                None => None,
            },
        },
        None => None,
    }
}

/// Parses the `commodity` directive that starts at `start`.
pub fn commodity(input: &[char], start: usize, mark: Option<Separator>) -> (r: Option<
    (Commodity, usize),
>)
    ensures
        agrees(r, spec_commodity_directive(input@, start as int, mark)),
        r matches Some(x) ==> start < x.1 <= input.len(),
{
    match keyword(input, start, "commodity") {
        Some(j) => match amount(input, j, mark) {
            Some((a, e)) => {
                let (_, end) = end_of_line(input, e);
                Some((Commodity::Amount(a), end))
            },
            None => match parse_commodity(input, j) {
                Some((c, e)) => {
                    let (_, end) = end_of_line(input, e);
                    Some((Commodity::Commodity(c), end))
                },
                None => None,
            },
        },
        None => None,
    }
}

} // verus!
