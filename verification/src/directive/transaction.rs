//! Transactions: a dated header and the postings under it.
use crate::component::amount::blanks;
use crate::component::date::{date, spec_date, Date};
use crate::component::status::{spec_status, status, Status};
use crate::directive::posting::{posting, spec_posting, Posting, PostingView};
use crate::state::{ParseState, Separator};
use crate::text::{
    agrees, at, copy_range, copy_trimmed, newline, newline_end, skip_run,
    skip_text, skip_until, text_end, trimmed, CharClass,
};
use crate::utils::{end_of_line, eol};
use vstd::prelude::*;

verus! {

/// A dated movement between accounts.
#[derive(Clone, Debug, PartialEq, Eq)]
pub struct Transaction {
    pub date: Date,
    pub status: Option<Status>,
    pub code: Option<String>,
    pub payee: String,
    pub description: Option<String>,
    pub postings: Vec<Posting>,
}

/// The mathematical value of a [`Transaction`].
pub struct TransactionView {
    pub date: Date,
    pub status: Option<Status>,
    pub code: Option<Seq<char>>,
    pub payee: Seq<char>,
    pub description: Option<Seq<char>>,
    pub postings: Seq<PostingView>,
}

impl DeepView for Transaction {
    type V = TransactionView;

    open spec fn deep_view(&self) -> TransactionView {
        TransactionView {
            date: self.date,
            status: self.status,
            code: self.code.deep_view(),
            payee: self.payee@,
            description: self.description.deep_view(),
            postings: self.postings.deep_view(),
        }
    }
}

/// What stands on a transaction's first line behind the date or the period.
#[derive(Clone, Debug, PartialEq, Eq)]
pub struct Header {
    pub status: Option<Status>,
    pub code: Option<String>,
    pub payee: String,
    pub description: Option<String>,
}

/// The mathematical value of a [`Header`].
pub struct HeaderView {
    pub status: Option<Status>,
    pub code: Option<Seq<char>>,
    pub payee: Seq<char>,
    pub description: Option<Seq<char>>,
}

impl DeepView for Header {
    type V = HeaderView;

    open spec fn deep_view(&self) -> HeaderView {
        HeaderView {
            status: self.status,
            code: self.code.deep_view(),
            payee: self.payee@,
            description: self.description.deep_view(),
        }
    }
}

/// The status behind the blanks at `j`, if a mark stands there.
pub open spec fn header_status(s: Seq<char>, j: int) -> (Option<Status>, int) {
    match spec_status(s, blanks(s, j)) {
        Some((st, e)) => (Some(st), e),
        None => (None, j),
    }
}

/// The code behind the blanks at `j`: text in parentheses, not empty, on one line.
pub open spec fn header_code(s: Seq<char>, j: int) -> (Option<Seq<char>>, int) {
    let open = blanks(s, j);
    let close = text_end(s, open + 1, seq![')']);
    if at(s, open, '(') && close > open + 1 && at(s, close, ')') {
        (Some(s.subrange(open + 1, close)), close + 1)
    } else {
        (None, j)
    }
}

/// Where the payee that starts behind the blanks at `j` ends: before `|`,
/// `;` or the end of the line.
pub open spec fn payee_end(s: Seq<char>, j: int) -> int {
    text_end(s, blanks(s, j), seq!['|', ';'])
}

/// The description behind a `|` at `p`: the text behind the blanks that
/// follow it, up to `;` or the end of the line.
pub open spec fn header_description(s: Seq<char>, p: int) -> (Option<Seq<char>>, int) {
    if at(s, p, '|') {
        (
            Some(s.subrange(blanks(s, p + 1), text_end(s, blanks(s, p + 1), seq![';']))),
            text_end(s, blanks(s, p + 1), seq![';']),
        )
    } else {
        (None, p)
    }
}

/// The header from `j` on: status, code, payee and description, each as far
/// as it is there, and the rest of the line. The payee is trimmed.
#[verifier::opaque]
pub open spec fn spec_header(s: Seq<char>, j: int) -> (HeaderView, int) {
    let st = header_status(s, j);
    let code = header_code(s, st.1);
    let p = payee_end(s, code.1);
    let d = header_description(s, p);
    (
        HeaderView {
            status: st.0,
            code: code.0,
            payee: trimmed(s, blanks(s, code.1), p),
            description: d.0,
        },
        eol(s, d.1),
    )
}

/// The postings behind `j`, each on a line of its own, and where the last
/// one ends.
pub open spec fn spec_postings(s: Seq<char>, j: int, mark: Option<Separator>) -> (
    Seq<PostingView>,
    int,
)
    decreases s.len() - j,
{
    match newline_end(s, j) {
        Some(n) => match spec_posting(s, n, mark) {
            Some((p, e)) => if j < e <= s.len() {
                (seq![p] + spec_postings(s, e, mark).0, spec_postings(s, e, mark).1)
            } else {
                (Seq::empty(), j)
            },
            None => (Seq::empty(), j),
        },
        None => (Seq::empty(), j),
    }
}

/// The date `d` with the year `year` where it has none of its own.
pub open spec fn with_default_year(d: Date, year: Option<u16>) -> Date {
    Date { year: if d.year is Some {
        d.year
    } else {
        year
    }, month: d.month, day: d.day }
}

/// The transaction at `i`: a date, the header, and the postings on the
/// lines that follow. A date without a year takes the state's.
pub open spec fn spec_transaction(s: Seq<char>, i: int, state: ParseState) -> Option<
    (TransactionView, int),
> {
    match spec_date(s, i) {
        Some((d, j)) => {
            let h = spec_header(s, j);
            let ps = spec_postings(s, h.1, state.decimal_mark);
            Some(
                (
                    TransactionView {
                        date: with_default_year(d, state.default_year),
                        status: h.0.status,
                        code: h.0.code,
                        payee: h.0.payee,
                        description: h.0.description,
                        postings: ps.0,
                    },
                    ps.1,
                ),
            )
        },
        None => None,
    }
}

fn status_of(input: &[char], j: usize) -> (r: (Option<Status>, usize))
    requires
        j <= input.len(),
    ensures
        r.0 == header_status(input@, j as int).0,
        r.1 == header_status(input@, j as int).1,
        j <= r.1 <= input.len(),
{
    match status(input, skip_run(input, j, CharClass::Blank)) {
        Some((st, e)) => (Some(st), e),
        None => (None, j),
    }
}

fn code_of(input: &[char], j: usize) -> (r: (Option<String>, usize))
    requires
        j <= input.len(),
    ensures
        r.0.deep_view() == header_code(input@, j as int).0,
        r.1 == header_code(input@, j as int).1,
        j <= r.1 <= input.len(),
{
    let open = skip_run(input, j, CharClass::Blank);
    if open < input.len() && input[open] == '(' {
        let close = skip_until(input, open + 1, ')');
        if close > open + 1 && close < input.len() && input[close] == ')' {
            return (Some(copy_range(input, open + 1, close)), close + 1);
        }
    }
    (None, j)
}

fn payee_of(input: &[char], j: usize) -> (r: (String, usize))
    requires
        j <= input.len(),
    ensures
        r.0@ == trimmed(input@, blanks(input@, j as int), payee_end(input@, j as int)),
        r.1 == payee_end(input@, j as int),
        j <= r.1 <= input.len(),
{
    let from = skip_run(input, j, CharClass::Blank);
    let mut stops: Vec<char> = Vec::new();
    stops.push('|');
    stops.push(';');
    assert(stops@ =~= seq!['|', ';']);
    let to = skip_text(input, from, stops.as_slice());
    (copy_trimmed(input, from, to), to)
}

fn description_of(input: &[char], p: usize) -> (r: (Option<String>, usize))
    requires
        p <= input.len(),
    ensures
        r.0.deep_view() == header_description(input@, p as int).0,
        r.1 == header_description(input@, p as int).1,
        p <= r.1 <= input.len(),
{
    if p < input.len() && input[p] == '|' {
        let from = skip_run(input, p + 1, CharClass::Blank);
        let to = skip_until(input, from, ';');
        (Some(copy_range(input, from, to)), to)
    } else {
        (None, p)
    }
}

/// Parses the header of a transaction from `start` on: what follows the
/// date or the period on the first line.
pub fn header(input: &[char], start: usize) -> (r: (Header, usize))
    requires
        start <= input.len(),
    ensures
        r.0.deep_view() == spec_header(input@, start as int).0,
        r.1 == spec_header(input@, start as int).1,
        start <= r.1 <= input.len(),
{
    proof {
        reveal(spec_header);
    }
    let (status, j1) = status_of(input, start);
    let (code, j2) = code_of(input, j1);
    let (payee, p) = payee_of(input, j2);
    let (description, j3) = description_of(input, p);
    let (_, end) = end_of_line(input, j3);
    (Header { status, code, payee, description }, end)
}

/// Parses the postings on the lines behind `start`.
pub fn postings(input: &[char], start: usize, mark: Option<Separator>) -> (r: (
    Vec<Posting>,
    usize,
))
    requires
        start <= input.len(),
    ensures
        r.0.deep_view() == spec_postings(input@, start as int, mark).0,
        r.1 == spec_postings(input@, start as int, mark).1,
        start <= r.1 <= input.len(),
{
    let mut out: Vec<Posting> = Vec::new();
    let mut cur: usize = start;
    let ghost whole = spec_postings(input@, start as int, mark);
    assert(out.deep_view() =~= Seq::<PostingView>::empty());
    assert(Seq::<PostingView>::empty() + whole.0 =~= whole.0);
    loop
        invariant
            start <= cur <= input.len(),
            whole.0 == out.deep_view() + spec_postings(input@, cur as int, mark).0,
            whole.1 == spec_postings(input@, cur as int, mark).1,
        ensures
            whole.0 == out.deep_view(),
            whole.1 == cur,
            start <= cur <= input.len(),
        decreases input.len() - cur,
    {
        let next = match newline(input, cur) {
            Some(n) => posting(input, n, mark),
            None => None,
        };
        match next {
            Some((p, e)) => {
                let ghost before = out.deep_view();
                let ghost pv = p.deep_view();
                out.push(p);
                proof {
                    assert(out.deep_view() =~= before + seq![pv]);
                    assert(whole.0 =~= out.deep_view() + spec_postings(input@, e as int, mark).0);
                }
                cur = e;
            },
            None => {
                proof {
                    assert(out.deep_view() + Seq::<PostingView>::empty() =~= out.deep_view());
                }
                break ;
            },
        }
    }
    (out, cur)
}

/// Parses the transaction that starts at `start`.
pub fn transaction(input: &[char], start: usize, state: &ParseState) -> (r: Option<
    (Transaction, usize),
>)
    ensures
        agrees(r, spec_transaction(input@, start as int, *state)),
        r matches Some(x) ==> start < x.1 <= input.len(),
{
    match date(input, start) {
        Some((d, j)) => {
            let (h, e) = header(input, j);
            let (ps, end) = postings(input, e, state.decimal_mark);
            let year = match d.year {
                Some(y) => Some(y),
                None => state.default_year,
            };
            Some(
                (
                    Transaction {
                        date: Date { year, month: d.month, day: d.day },
                        status: h.status,
                        code: h.code,
                        payee: h.payee,
                        description: h.description,
                        postings: ps,
                    },
                    end,
                ),
            )
        },
        None => None,
    }
}

} // verus!
