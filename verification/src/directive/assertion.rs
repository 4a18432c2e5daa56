//! Balance assertions of postings.
use crate::component::amount::{amount, blanks, spec_amount, Amount, AmountView};
use crate::component::price::{price, spec_price, Price, PriceView};
use crate::state::Separator;
use crate::text::{agrees, at, skip_run, CharClass};
use vstd::prelude::*;

verus! {

/// What the balance of an account is claimed to be behind a posting.
#[derive(Clone, Debug, PartialEq, Eq)]
pub struct Assertion {
    /// Written `==`: the balance holds no other commodity.
    pub is_strict: bool,
    /// Written with `*`: subaccounts count too.
    pub is_subaccount_inclusive: bool,
    pub amount: Amount,
    pub price: Option<Price>,
}

/// The mathematical value of an [`Assertion`].
pub struct AssertionView {
    pub is_strict: bool,
    pub is_subaccount_inclusive: bool,
    pub amount: AmountView,
    pub price: Option<PriceView>,
}

impl DeepView for Assertion {
    type V = AssertionView;

    open spec fn deep_view(&self) -> AssertionView {
        AssertionView {
            is_strict: self.is_strict,
            is_subaccount_inclusive: self.is_subaccount_inclusive,
            amount: self.amount.deep_view(),
            price: self.price.deep_view(),
        }
    }
}

/// Where the amount of the assertion at `i` starts: behind one or two `=`,
/// an optional `*` and blanks.
pub open spec fn assertion_amount_at(s: Seq<char>, i: int) -> int {
    let j = if at(s, i + 1, '=') {
        i + 2
    } else {
        i + 1
    };
    if at(s, j, '*') {
        blanks(s, j + 1)
    } else {
        blanks(s, j)
    }
}

/// The assertion at `i`: the marks, an amount, and a price where one follows.
pub open spec fn spec_assertion(s: Seq<char>, i: int, mark: Option<Separator>) -> Option<
    (AssertionView, int),
> {
    if at(s, i, '=') {
        let strict = at(s, i + 1, '=');
        let inclusive = at(s, if strict {
            i + 2
        } else {
            i + 1
        }, '*');
        match spec_amount(s, assertion_amount_at(s, i), mark) {
            Some((a, e)) => match spec_price(s, blanks(s, e), mark) {
                Some((p, e2)) => Some(
                    (
                        AssertionView {
                            is_strict: strict,
                            is_subaccount_inclusive: inclusive,
                            amount: a,
                            price: Some(p),
                        },
                        e2,
                    ),
                ),
                None => Some(
                    (
                        AssertionView {
                            is_strict: strict,
                            is_subaccount_inclusive: inclusive,
                            amount: a,
                            price: None,
                        },
                        e,
                    ),
                ),
            },
            None => None,
        }
    } else {
        None
    }
}

/// Parses the balance assertion that starts at `start`.
pub fn assertion(input: &[char], start: usize, mark: Option<Separator>) -> (r: Option<
    (Assertion, usize),
>)
    ensures
        agrees(r, spec_assertion(input@, start as int, mark)),
        r matches Some(x) ==> start < x.1 <= input.len(),
{
    if !(start < input.len() && input[start] == '=') {
        return None;
    }
    let is_strict = start + 1 < input.len() && input[start + 1] == '=';
    let j: usize = if is_strict {
        start + 2
    } else {
        start + 1
    };
    let is_subaccount_inclusive = j < input.len() && input[j] == '*';
    let k: usize = if is_subaccount_inclusive {
        skip_run(input, j + 1, CharClass::Blank)
    } else {
        skip_run(input, j, CharClass::Blank)
    };
    match amount(input, k, mark) {
        Some((a, e)) => match price(input, skip_run(input, e, CharClass::Blank), mark) {
            Some((p, e2)) => Some(
                (Assertion { is_strict, is_subaccount_inclusive, amount: a, price: Some(p) }, e2),
            ),
            None => Some(
                (Assertion { is_strict, is_subaccount_inclusive, amount: a, price: None }, e),
            ),
        },
        None => None,
    }
}

} // verus!
