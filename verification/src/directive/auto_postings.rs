//! Rules that add postings to the transactions that a query matches.
use crate::component::account_name::AccountName;
use crate::component::amount::{amount, blanks, spec_amount, Amount, AmountView};
use crate::directive::posting::{account_ref, posting_account};
use crate::state::Separator;
use crate::text::{
    agrees, at, copy_trimmed_end, newline, newline_end, skip_run, skip_until, text_end,
    trim_end, trim_end_at, trimmed_end, CharClass,
};
use crate::utils::{end_of_line, eol};
use vstd::prelude::*;

verus! {

/// The text that selects the transactions of a rule, as it is written.
#[derive(Clone, Debug, PartialEq, Eq)]
pub struct Query(pub String);

impl DeepView for Query {
    type V = Seq<char>;

    open spec fn deep_view(&self) -> Seq<char> {
        self.0@
    }
}

impl Query {
    /// The query with the text `s`.
    pub fn from_str(s: &str) -> (q: Query)
        ensures
            q.deep_view() == s@,
    {
        Query(s.to_owned())
    }
}

/// One posting of a rule.
#[derive(Clone, Debug, PartialEq, Eq)]
pub struct AutoPosting {
    pub account_name: AccountName,
    pub is_virtual: bool,
    pub amount: Amount,
    /// The amount is a factor, written behind `*`.
    pub is_mul: bool,
}

/// The mathematical value of an [`AutoPosting`].
pub struct AutoPostingView {
    pub account_name: Seq<Seq<char>>,
    pub is_virtual: bool,
    pub amount: AmountView,
    pub is_mul: bool,
}

impl DeepView for AutoPosting {
    type V = AutoPostingView;

    open spec fn deep_view(&self) -> AutoPostingView {
        AutoPostingView {
            account_name: self.account_name.deep_view(),
            is_virtual: self.is_virtual,
            amount: self.amount.deep_view(),
            is_mul: self.is_mul,
        }
    }
}

/// A rule: a query and the postings to add.
#[derive(Clone, Debug, PartialEq, Eq)]
pub struct AutoPostings {
    pub query: Query,
    pub postings: Vec<AutoPosting>,
}

/// The mathematical value of an [`AutoPostings`].
pub struct AutoPostingsView {
    pub query: Seq<char>,
    pub postings: Seq<AutoPostingView>,
}

impl DeepView for AutoPostings {
    type V = AutoPostingsView;

    open spec fn deep_view(&self) -> AutoPostingsView {
        AutoPostingsView { query: self.query.deep_view(), postings: self.postings.deep_view() }
    }
}

/// The posting of a rule at `i`: at least one blank, the account, at least
/// two blanks, an optional `*`, the amount, and the rest of the line.
#[verifier::opaque]
pub open spec fn spec_auto_posting(s: Seq<char>, i: int, mark: Option<Separator>) -> Option<
    (AutoPostingView, int),
> {
    if blanks(s, i) > i {
        match posting_account(s, blanks(s, i)) {
            Some(account) => if blanks(s, account.end) - account.end >= 2 {
                let m = blanks(s, account.end);
                match spec_amount(s, if at(s, m, '*') {
                    m + 1
                } else {
                    m
                }, mark) {
                    Some((a, e)) => Some(
                        (
                            AutoPostingView {
                                account_name: account.name,
                                is_virtual: account.is_virtual,
                                amount: a,
                                is_mul: at(s, m, '*'),
                            },
                            eol(s, e),
                        ),
                    ),
                    None => None,
                }
            } else {
                None
            },
            None => None,
        }
    } else {
        None
    }
}

/// The postings of a rule behind `j`, each on a line of its own, and where
/// the last one ends.
pub open spec fn spec_auto_posting_lines(s: Seq<char>, j: int, mark: Option<Separator>) -> (
    Seq<AutoPostingView>,
    int,
)
    decreases s.len() - j,
{
    match newline_end(s, j) {
        Some(n) => match spec_auto_posting(s, n, mark) {
            Some((p, e)) => if j < e <= s.len() {
                (
                    seq![p] + spec_auto_posting_lines(s, e, mark).0,
                    spec_auto_posting_lines(s, e, mark).1,
                )
            } else {
                (Seq::empty(), j)
            },
            None => (Seq::empty(), j),
        },
        None => (Seq::empty(), j),
    }
}

/// The rule at `i`: `=`, blanks, the query up to `;` or the end of the
/// line, which is not empty once trimmed at its end, the rest of the line,
/// and at least two postings on the lines that follow.
pub open spec fn spec_auto_postings(s: Seq<char>, i: int, mark: Option<Separator>) -> Option<
    (AutoPostingsView, int),
> {
    if at(s, i, '=') {
        let q = blanks(s, i + 1);
        let e = text_end(s, q, seq![';']);
        if trim_end_at(s, q, e) > q {
            let lines = spec_auto_posting_lines(s, eol(s, e), mark);
            if lines.0.len() >= 2 {
                Some((AutoPostingsView { query: trimmed_end(s, q, e), postings: lines.0 }, lines.1))
            } else {
                None
            }
        } else {
            None
        }
    } else {
        None
    }
}

/// Parses the posting of a rule that starts at `start`.
pub fn auto_posting(input: &[char], start: usize, mark: Option<Separator>) -> (r: Option<
    (AutoPosting, usize),
>)
    ensures
        agrees(r, spec_auto_posting(input@, start as int, mark)),
        r matches Some(x) ==> start < x.1 <= input.len(),
{
    proof {
        reveal(spec_auto_posting);
    }
    let b = skip_run(input, start, CharClass::Blank);
    if b <= start {
        return None;
    }
    let (name, is_virtual, k) = match account_ref(input, b) {
        Some(x) => x,
        None => {
            return None;
        },
    };
    let m = skip_run(input, k, CharClass::Blank);
    if m - k < 2 {
        return None;
    }
    let is_mul = m < input.len() && input[m] == '*';
    let from: usize = if is_mul {
        m + 1
    } else {
        m
    };
    match amount(input, from, mark) {
        Some((a, e)) => {
            let (_, end) = end_of_line(input, e);
            Some((AutoPosting { account_name: name, is_virtual, amount: a, is_mul }, end))
        },
        None => None,
    }
}

fn auto_posting_lines(input: &[char], start: usize, mark: Option<Separator>) -> (r: (
    Vec<AutoPosting>,
    usize,
))
    requires
        start <= input.len(),
    ensures
        r.0.deep_view() == spec_auto_posting_lines(input@, start as int, mark).0,
        r.1 == spec_auto_posting_lines(input@, start as int, mark).1,
        start <= r.1 <= input.len(),
{
    let mut out: Vec<AutoPosting> = Vec::new();
    let mut cur: usize = start;
    let ghost whole = spec_auto_posting_lines(input@, start as int, mark);
    assert(out.deep_view() =~= Seq::<AutoPostingView>::empty());
    assert(Seq::<AutoPostingView>::empty() + whole.0 =~= whole.0);
    loop
        invariant
            start <= cur <= input.len(),
            whole.0 == out.deep_view() + spec_auto_posting_lines(input@, cur as int, mark).0,
            whole.1 == spec_auto_posting_lines(input@, cur as int, mark).1,
        ensures
            whole.0 == out.deep_view(),
            whole.1 == cur,
            start <= cur <= input.len(),
        decreases input.len() - cur,
    {
        let next = match newline(input, cur) {
            Some(n) => auto_posting(input, n, mark),
            None => None,
        };
        match next {
            Some((p, e)) => {
                let ghost before = out.deep_view();
                let ghost pv = p.deep_view();
                out.push(p);
                proof {
                    assert(out.deep_view() =~= before + seq![pv]);
                    assert(whole.0 =~= out.deep_view() + spec_auto_posting_lines(
                        input@,
                        e as int,
                        mark,
                    ).0);
                }
                cur = e;
            },
            None => {
                proof {
                    assert(out.deep_view() + Seq::<AutoPostingView>::empty()
                        =~= out.deep_view());
                }
                break ;
            },
        }
    }
    (out, cur)
}

/// Parses the rule that starts at `start`.
pub fn auto_postings(input: &[char], start: usize, mark: Option<Separator>) -> (r: Option<
    (AutoPostings, usize),
>)
    ensures
        agrees(r, spec_auto_postings(input@, start as int, mark)),
        r matches Some(x) ==> start < x.1 <= input.len(),
{
    if !(start < input.len() && input[start] == '=') {
        return None;
    }
    let q = skip_run(input, start + 1, CharClass::Blank);
    let e = skip_until(input, q, ';');
    if trim_end(input, q, e) <= q {
        return None;
    }
    let query = Query(copy_trimmed_end(input, q, e));
    let (_, header_end) = end_of_line(input, e);
    let (lines, end) = auto_posting_lines(input, header_end, mark);
    if lines.len() >= 2 {
        Some((AutoPostings { query, postings: lines }, end))
    } else {
        None
    }
}

} // verus!
