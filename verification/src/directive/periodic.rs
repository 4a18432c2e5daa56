//! Periodic transactions: a period in place of a date.
use crate::component::amount::blanks;
use crate::component::period::{period, spec_period, Period};
use crate::component::status::Status;
use crate::directive::posting::{Posting, PostingView};
use crate::directive::transaction::{header, postings, spec_header, spec_postings};
use crate::state::Separator;
use crate::text::{agrees, at, skip_run, CharClass};
use vstd::prelude::*;

verus! {

/// A movement between accounts that recurs over a period.
#[derive(Clone, Debug, PartialEq, Eq)]
pub struct Transaction {
    pub period: Period,
    pub status: Option<Status>,
    pub code: Option<String>,
    pub payee: String,
    pub description: Option<String>,
    pub postings: Vec<Posting>,
}

/// The mathematical value of a periodic [`Transaction`].
pub struct TransactionView {
    pub period: Period,
    pub status: Option<Status>,
    pub code: Option<Seq<char>>,
    pub payee: Seq<char>,
    pub description: Option<Seq<char>>,
    pub postings: Seq<PostingView>,
}

impl DeepView for Transaction {
    type V = TransactionView;

    open spec fn deep_view(&self) -> TransactionView {
        TransactionView {
            period: self.period,
            status: self.status,
            code: self.code.deep_view(),
            payee: self.payee@,
            description: self.description.deep_view(),
            postings: self.postings.deep_view(),
        }
    }
}

/// The periodic transaction at `i`: `~`, blanks, a period, the header, and
/// the postings on the lines that follow.
pub open spec fn spec_periodic(s: Seq<char>, i: int, mark: Option<Separator>) -> Option<
    (TransactionView, int),
> {
    if at(s, i, '~') {
        let p = spec_period(s, blanks(s, i + 1));
        let h = spec_header(s, p.1);
        let ps = spec_postings(s, h.1, mark);
        Some(
            (
                TransactionView {
                    period: p.0,
                    status: h.0.status,
                    code: h.0.code,
                    payee: h.0.payee,
                    description: h.0.description,
                    postings: ps.0,
                },
                ps.1,
            ),
        )
    } else {
        None
    }
}

/// Parses the periodic transaction that starts at `start`.
pub fn transaction(input: &[char], start: usize, mark: Option<Separator>) -> (r: Option<
    (Transaction, usize),
>)
    ensures
        agrees(r, spec_periodic(input@, start as int, mark)),
        r matches Some(x) ==> start < x.1 <= input.len(),
{
    if !(start < input.len() && input[start] == '~') {
        return None;
    }
    let (p, j) = period(input, skip_run(input, start + 1, CharClass::Blank));
    let (h, e) = header(input, j);
    let (ps, end) = postings(input, e, mark);
    Some(
        (
            Transaction {
                period: p,
                status: h.status,
                code: h.code,
                payee: h.payee,
                description: h.description,
                postings: ps,
            },
            end,
        ),
    )
}

} // verus!
