//! The `P` directive: the market price of a commodity on a date.
use crate::component::amount::{amount, blanks, spec_amount, Amount, AmountView};
use crate::component::commodity::{commodity, spec_commodity, Commodity};
use crate::component::date::{date, date_diagnostics, spec_date, spec_date_diagnostics, Date};
use crate::component::time::{spec_time, spec_time_diagnostics, time, time_diagnostics};
use crate::diagnostic::{lemma_spans_concat, spans_within, Diagnostic};
use crate::directive::transaction::with_default_year;
use crate::state::ParseState;
use crate::text::{agrees, skip_run, CharClass};
use crate::utils::{end_of_line, eol, keyword, keyword_end};
use vstd::prelude::*;

verus! {

/// The declaration of what one unit of a commodity costs on a date.
#[derive(Clone, Debug, PartialEq, Eq)]
pub struct Price {
    pub date: Date,
    pub commodity: Commodity,
    pub amount: Amount,
}

/// The mathematical value of a [`Price`] declaration.
pub struct PriceView {
    pub date: Date,
    pub commodity: Seq<char>,
    pub amount: AmountView,
}

impl DeepView for Price {
    type V = PriceView;

    open spec fn deep_view(&self) -> PriceView {
        PriceView {
            date: self.date,
            commodity: self.commodity.deep_view(),
            amount: self.amount.deep_view(),
        }
    }
}

/// Where the commodity stands behind a date that ends at `j`: behind blanks
/// and, where a time and more blanks follow them, behind those. Nowhere
/// without a blank behind the date.
pub open spec fn price_commodity_at(s: Seq<char>, j: int) -> Option<int> {
    if blanks(s, j) > j {
        match spec_time(s, blanks(s, j)) {
            Some((t, e)) => if blanks(s, e) > e {
                Some(blanks(s, e))
            } else {
                Some(blanks(s, j))
            },
            None => Some(blanks(s, j)),
        }
    } else {
        None
    }
}

/// The directive behind the keyword, from the date at `j` on: the date, an
/// optional time, the commodity, and its price, with blanks between them,
/// and the rest of the line.
#[verifier::opaque]
pub open spec fn price_body(s: Seq<char>, j: int, state: ParseState) -> Option<
    (PriceView, int),
> {
    match spec_date(s, j) {
        Some((d, e)) => match price_commodity_at(s, e) {
            Some(c) => match spec_commodity(s, c) {
                Some((name, k)) => if blanks(s, k) > k {
                    match spec_amount(s, blanks(s, k), state.decimal_mark) {
                        Some((a, end)) => Some(
                            (
                                PriceView {
                                    date: with_default_year(d, state.default_year),
                                    commodity: name,
                                    amount: a,
                                },
                                eol(s, end),
                            ),
                        ),
                        None => None,
                    }
                } else {
                    None
                },
                None => None,
            },
            None => None,
        },
        None => None,
    }
}

/// The directive at `i`: `P`, blanks, and the body.
pub open spec fn spec_price_directive(s: Seq<char>, i: int, state: ParseState) -> Option<
    (PriceView, int),
> {
    match keyword_end(s, i, "P"@) {
        Some(j) => price_body(s, j, state),
        None => None,
    }
}

/// Whether a time that counts stands behind the date that ends at `j`, and where.
pub open spec fn price_time_at(s: Seq<char>, j: int) -> Option<int> {
    match spec_time(s, blanks(s, j)) {
        Some((t, e)) => if blanks(s, j) > j && blanks(s, e) > e {
            Some(blanks(s, j))
        } else {
            None
        },
        None => None,
    }
}

/// The reports on the directive at `i`: those on its date, then those on
/// its time. Where no such directive stands at `i`, there are none.
#[verifier::opaque]
pub open spec fn spec_price_diagnostics(s: Seq<char>, i: int, state: ParseState) -> Seq<
    Diagnostic,
> {
    if spec_price_directive(s, i, state) is Some {
        let j = keyword_end(s, i, "P"@).unwrap();
        spec_date_diagnostics(s, j) + match price_time_at(s, spec_date(s, j).unwrap().1) {
            Some(t) => spec_time_diagnostics(s, t),
            None => Seq::empty(),
        }
    } else {
        Seq::empty()
    }
}

fn commodity_start(input: &[char], j: usize) -> (r: Option<usize>)
    requires
        j <= input.len(),
    ensures
        crate::text::same_pos(r, price_commodity_at(input@, j as int)),
        r matches Some(c) ==> j < c <= input.len(),
{
    let b = skip_run(input, j, CharClass::Blank);
    if b > j {
        match time(input, b) {
            Some((_, e)) => {
                let b2 = skip_run(input, e, CharClass::Blank);
                if b2 > e {
                    Some(b2)
                } else {
                    Some(b)
                }
            },
            None => Some(b),
        }
    } else {
        None
    }
}

fn body(input: &[char], j: usize, state: &ParseState) -> (r: Option<(Price, usize)>)
    ensures
        agrees(r, price_body(input@, j as int, *state)),
        r matches Some(x) ==> j < x.1 <= input.len(),
{
    proof {
        reveal(price_body);
    }
    let (d, e) = match date(input, j) {
        Some(x) => x,
        None => {
            return None;
        },
    };
    let c = match commodity_start(input, e) {
        Some(c) => c,
        None => {
            return None;
        },
    };
    let (name, k) = match commodity(input, c) {
        Some(x) => x,
        None => {
            return None;
        },
    };
    let b = skip_run(input, k, CharClass::Blank);
    if b <= k {
        return None;
    }
    match amount(input, b, state.decimal_mark) {
        Some((a, end)) => {
            let (_, last) = end_of_line(input, end);
            let year = match d.year {
                Some(y) => Some(y),
                None => state.default_year,
            };
            Some(
                (
                    Price {
                        date: Date { year, month: d.month, day: d.day },
                        commodity: name,
                        amount: a,
                    },
                    last,
                ),
            )
        },
        None => None,
    }
}

/// Parses the `P` directive that starts at `start`.
pub fn price(input: &[char], start: usize, state: &ParseState) -> (r: Option<(Price, usize)>)
    ensures
        agrees(r, spec_price_directive(input@, start as int, *state)),
        r matches Some(x) ==> start < x.1 <= input.len(),
{
    match keyword(input, start, "P") {
        Some(j) => body(input, j, state),
        None => None,
    }
}

/// Reports the parts of the date and the time of the `P` directive at
/// `start` that lie outside the calendar and the clock.
pub fn price_diagnostics(input: &[char], start: usize, state: &ParseState) -> (r: Vec<
    Diagnostic,
>)
    ensures
        r@ == spec_price_diagnostics(input@, start as int, *state),
        spans_within(r@, input.len() as int),
{
    proof {
        reveal(spec_price_diagnostics);
        reveal(price_body);
    }
    let j = match keyword(input, start, "P") {
        Some(j) => j,
        None => {
            return Vec::new();
        },
    };
    if body(input, j, state).is_none() {
        return Vec::new();
    }
    let mut out = date_diagnostics(input, j);
    let e = match date(input, j) {
        Some((_, e)) => e,
        None => {
            return Vec::new();
        },
    };
    let b = skip_run(input, e, CharClass::Blank);
    match time(input, b) {
        Some((_, te)) => {
            if b > e && skip_run(input, te, CharClass::Blank) > te {
                let mut more = time_diagnostics(input, b);
                let ghost first = out@;
                let ghost second = more@;
                out.append(&mut more);
                assert(out@ =~= first + second);
                proof {
                    lemma_spans_concat(first, second, input.len() as int);
                }
            } else {
                assert(out@ + Seq::<Diagnostic>::empty() =~= out@);
            }
        },
        None => {
            assert(out@ + Seq::<Diagnostic>::empty() =~= out@);
        },
    }
    out
}

} // verus!
