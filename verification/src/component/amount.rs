//! Amounts: a quantity with an optional sign and commodity, in any order.
use crate::component::commodity::{commodity, spec_commodity, Commodity};
use crate::component::quantity::{quantity, spec_quantity, Quantity};
use crate::state::Separator;
use crate::text::{agrees, at, run_end, skip_run, CharClass};
use vstd::prelude::*;

verus! {

/// A signed quantity of a commodity.
#[derive(Clone, Debug, Default, PartialEq, Eq)]
pub struct Amount {
    pub is_negative: bool,
    pub quantity: Quantity,
    pub commodity: Commodity,
}

/// The mathematical value of an [`Amount`].
pub struct AmountView {
    pub is_negative: bool,
    pub quantity: Quantity,
    pub commodity: Seq<char>,
}

impl DeepView for Amount {
    type V = AmountView;

    open spec fn deep_view(&self) -> AmountView {
        AmountView {
            is_negative: self.is_negative,
            quantity: self.quantity,
            commodity: self.commodity.deep_view(),
        }
    }
}

/// The sign at `i`: whether it is a minus.
pub open spec fn sign_at(s: Seq<char>, i: int) -> Option<bool> {
    if at(s, i, '-') {
        Some(true)
    } else if at(s, i, '+') {
        Some(false)
    } else {
        None
    }
}

/// The position after the blanks that start at `i`.
pub open spec fn blanks(s: Seq<char>, i: int) -> int {
    run_end(s, i, CharClass::Blank)
}

/// A quantity, blanks, a commodity.
pub open spec fn quantity_commodity(s: Seq<char>, i: int, mark: Option<Separator>) -> Option<
    (AmountView, int),
> {
    match spec_quantity(s, i, mark) {
        Some((q, j)) => match spec_commodity(s, blanks(s, j)) {
            Some((c, k)) => Some(
                (AmountView { is_negative: false, quantity: q, commodity: c }, k),
            ),
            None => None,
        },
        None => None,
    }
}

/// A commodity, blanks, a quantity.
pub open spec fn commodity_quantity(s: Seq<char>, i: int, mark: Option<Separator>) -> Option<
    (AmountView, int),
> {
    match spec_commodity(s, i) {
        Some((c, j)) => match spec_quantity(s, blanks(s, j), mark) {
            Some((q, k)) => Some(
                (AmountView { is_negative: false, quantity: q, commodity: c }, k),
            ),
            None => None,
        },
        None => None,
    }
}

/// The same match with the sign `negative`.
pub open spec fn with_sign(negative: bool, r: Option<(AmountView, int)>) -> Option<
    (AmountView, int),
> {
    match r {
        Some((a, k)) => Some(
            (AmountView { is_negative: negative, quantity: a.quantity, commodity: a.commodity }, k),
        ),
        None => None,
    }
}

/// A sign, blanks, then quantity and commodity in the order that
/// `quantity_first` tells.
pub open spec fn sign_first(
    s: Seq<char>,
    i: int,
    mark: Option<Separator>,
    quantity_first: bool,
) -> Option<(AmountView, int)> {
    match sign_at(s, i) {
        Some(negative) => with_sign(
            negative,
            if quantity_first {
                quantity_commodity(s, blanks(s, i + 1), mark)
            } else {
                commodity_quantity(s, blanks(s, i + 1), mark)
            },
        ),
        None => None,
    }
}

/// A quantity, blanks, a sign, blanks, a commodity.
pub open spec fn quantity_sign_commodity(s: Seq<char>, i: int, mark: Option<Separator>) -> Option<
    (AmountView, int),
> {
    match spec_quantity(s, i, mark) {
        Some((q, j)) => match sign_at(s, blanks(s, j)) {
            Some(negative) => match spec_commodity(s, blanks(s, blanks(s, j) + 1)) {
                Some((c, k)) => Some(
                    (AmountView { is_negative: negative, quantity: q, commodity: c }, k),
                ),
                None => None,
            },
            None => None,
        },
        None => None,
    }
}

/// A commodity, blanks, a sign, blanks, a quantity.
pub open spec fn commodity_sign_quantity(s: Seq<char>, i: int, mark: Option<Separator>) -> Option<
    (AmountView, int),
> {
    match spec_commodity(s, i) {
        Some((c, j)) => match sign_at(s, blanks(s, j)) {
            Some(negative) => match spec_quantity(s, blanks(s, blanks(s, j) + 1), mark) {
                Some((q, k)) => Some(
                    (AmountView { is_negative: negative, quantity: q, commodity: c }, k),
                ),
                None => None,
            },
            None => None,
        },
        None => None,
    }
}

/// A quantity alone: no sign and the empty commodity.
pub open spec fn bare_quantity(s: Seq<char>, i: int, mark: Option<Separator>) -> Option<
    (AmountView, int),
> {
    match spec_quantity(s, i, mark) {
        Some((q, j)) => Some(
            (AmountView { is_negative: false, quantity: q, commodity: Seq::empty() }, j),
        ),
        None => None,
    }
}

/// Ordered choice between two matches.
pub open spec fn or_else(a: Option<(AmountView, int)>, b: Option<(AmountView, int)>) -> Option<
    (AmountView, int),
> {
    if a is Some {
        a
    } else {
        b
    }
}

/// The amount at `i`: the first of the seven orders of sign, quantity and
/// commodity that matches.
#[verifier::opaque]
pub open spec fn spec_amount(s: Seq<char>, i: int, mark: Option<Separator>) -> Option<
    (AmountView, int),
> {
    or_else(
        sign_first(s, i, mark, true),
        or_else(
            quantity_sign_commodity(s, i, mark),
            or_else(
                sign_first(s, i, mark, false),
                or_else(
                    commodity_sign_quantity(s, i, mark),
                    or_else(
                        quantity_commodity(s, i, mark),
                        or_else(commodity_quantity(s, i, mark), bare_quantity(s, i, mark)),
                    ),
                ),
            ),
        ),
    )
}

fn sign(input: &[char], start: usize) -> (r: Option<bool>)
    ensures
        r == sign_at(input@, start as int),
        r is Some ==> start < input.len(),
{
    if start < input.len() && input[start] == '-' {
        Some(true)
    } else if start < input.len() && input[start] == '+' {
        Some(false)
    } else {
        None
    }
}

fn match_quantity_commodity(input: &[char], start: usize, mark: Option<Separator>) -> (r: Option<
    (Amount, usize),
>)
    ensures
        agrees(r, quantity_commodity(input@, start as int, mark)),
        r matches Some(x) ==> start < x.1 <= input.len(),
{
    match quantity(input, start, mark) {
        Some((q, j)) => match commodity(input, skip_run(input, j, CharClass::Blank)) {
            Some((c, k)) => Some((Amount { is_negative: false, quantity: q, commodity: c }, k)),
            None => None,
        },
        None => None,
    }
}

fn match_commodity_quantity(input: &[char], start: usize, mark: Option<Separator>) -> (r: Option<
    (Amount, usize),
>)
    ensures
        agrees(r, commodity_quantity(input@, start as int, mark)),
        r matches Some(x) ==> start < x.1 <= input.len(),
{
    match commodity(input, start) {
        Some((c, j)) => match quantity(input, skip_run(input, j, CharClass::Blank), mark) {
            Some((q, k)) => Some((Amount { is_negative: false, quantity: q, commodity: c }, k)),
            None => None,
        },
        None => None,
    }
}

fn match_sign_first(
    input: &[char],
    start: usize,
    mark: Option<Separator>,
    quantity_first: bool,
) -> (r: Option<(Amount, usize)>)
    ensures
        agrees(r, sign_first(input@, start as int, mark, quantity_first)),
        r matches Some(x) ==> start < x.1 <= input.len(),
{
    match sign(input, start) {
        Some(negative) => {
            let next = skip_run(input, start + 1, CharClass::Blank);
            let inner = if quantity_first {
                match_quantity_commodity(input, next, mark)
            } else {
                match_commodity_quantity(input, next, mark)
            };
            match inner {
                Some((a, k)) => Some(
                    (Amount { is_negative: negative, quantity: a.quantity, commodity: a.commodity }, k),
                ),
                None => None,
            }
        },
        None => None,
    }
}

fn match_quantity_sign_commodity(input: &[char], start: usize, mark: Option<Separator>) -> (r:
    Option<(Amount, usize)>)
    ensures
        agrees(r, quantity_sign_commodity(input@, start as int, mark)),
        r matches Some(x) ==> start < x.1 <= input.len(),
{
    match quantity(input, start, mark) {
        Some((q, j)) => {
            let at_sign = skip_run(input, j, CharClass::Blank);
            match sign(input, at_sign) {
                Some(negative) => match commodity(
                    input,
                    skip_run(input, at_sign + 1, CharClass::Blank),
                ) {
                    Some((c, k)) => Some(
                        (Amount { is_negative: negative, quantity: q, commodity: c }, k),
                    ),
                    None => None,
                },
                None => None,
            }
        },
        None => None,
    }
}

fn match_commodity_sign_quantity(input: &[char], start: usize, mark: Option<Separator>) -> (r:
    Option<(Amount, usize)>)
    ensures
        agrees(r, commodity_sign_quantity(input@, start as int, mark)),
        r matches Some(x) ==> start < x.1 <= input.len(),
{
    match commodity(input, start) {
        Some((c, j)) => {
            let at_sign = skip_run(input, j, CharClass::Blank);
            match sign(input, at_sign) {
                Some(negative) => match quantity(
                    input,
                    skip_run(input, at_sign + 1, CharClass::Blank),
                    mark,
                ) {
                    Some((q, k)) => Some(
                        (Amount { is_negative: negative, quantity: q, commodity: c }, k),
                    ),
                    None => None,
                },
                None => None,
            }
        },
        None => None,
    }
}

fn match_bare_quantity(input: &[char], start: usize, mark: Option<Separator>) -> (r: Option<
    (Amount, usize),
>)
    ensures
        agrees(r, bare_quantity(input@, start as int, mark)),
        r matches Some(x) ==> start < x.1 <= input.len(),
{
    match quantity(input, start, mark) {
        Some((q, j)) => Some(
            (Amount { is_negative: false, quantity: q, commodity: Commodity(String::new()) }, j),
        ),
        None => None,
    }
}

/// Parses the amount that starts at `start`, under the decimal-mark
/// convention `mark`. A match is never empty.
pub fn amount(input: &[char], start: usize, mark: Option<Separator>) -> (r: Option<
    (Amount, usize),
>)
    ensures
        agrees(r, spec_amount(input@, start as int, mark)),
        r matches Some(x) ==> start < x.1 <= input.len(),
{
    proof {
        reveal(spec_amount);
    }
    if let Some(x) = match_sign_first(input, start, mark, true) {
        return Some(x);
    }
    if let Some(x) = match_quantity_sign_commodity(input, start, mark) {
        return Some(x);
    }
    if let Some(x) = match_sign_first(input, start, mark, false) {
        return Some(x);
    }
    if let Some(x) = match_commodity_sign_quantity(input, start, mark) {
        return Some(x);
    }
    if let Some(x) = match_quantity_commodity(input, start, mark) {
        return Some(x);
    }
    if let Some(x) = match_commodity_quantity(input, start, mark) {
        return Some(x);
    }
    match_bare_quantity(input, start, mark)
}

} // verus!
