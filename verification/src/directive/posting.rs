//! Postings: the account lines of a transaction.
use crate::component::account_name::{account_name, spec_account_name, AccountName};
use crate::component::amount::{amount, blanks, spec_amount, Amount, AmountView};
use crate::component::price::{price, spec_price, Price, PriceView};
use crate::component::status::{spec_status, status, Status};
use crate::directive::assertion::{assertion, spec_assertion, Assertion, AssertionView};
use crate::state::Separator;
use crate::text::{agrees, at, is_blank, skip_run, CharClass};
use crate::utils::{end_of_line, eol};
use vstd::prelude::*;

verus! {

/// One account line of a transaction.
#[derive(Clone, Debug, PartialEq, Eq)]
pub struct Posting {
    pub status: Option<Status>,
    pub account_name: AccountName,
    /// The account name stands in parentheses.
    pub is_virtual: bool,
    pub amount: Option<Amount>,
    pub price: Option<Price>,
    pub assertion: Option<Assertion>,
}

/// The mathematical value of a [`Posting`].
pub struct PostingView {
    pub status: Option<Status>,
    pub account_name: Seq<Seq<char>>,
    pub is_virtual: bool,
    pub amount: Option<AmountView>,
    pub price: Option<PriceView>,
    pub assertion: Option<AssertionView>,
}

impl DeepView for Posting {
    type V = PostingView;

    open spec fn deep_view(&self) -> PostingView {
        PostingView {
            status: self.status,
            account_name: self.account_name.deep_view(),
            is_virtual: self.is_virtual,
            amount: self.amount.deep_view(),
            price: self.price.deep_view(),
            assertion: self.assertion.deep_view(),
        }
    }
}

/// An account as a posting names it.
pub struct AccountRef {
    pub name: Seq<Seq<char>>,
    pub is_virtual: bool,
    pub end: int,
}

/// The account at `i`: a name in parentheses, which makes it virtual, else a
/// plain name.
pub open spec fn posting_account(s: Seq<char>, i: int) -> Option<AccountRef> {
    match virtual_account(s, i) {
        Some(account) => Some(account),
        None => match spec_account_name(s, i, false) {
            Some((name, end)) => Some(AccountRef { name, is_virtual: false, end }),
            None => None,
        },
    }
}

/// The account at `i` where it stands in parentheses.
pub open spec fn virtual_account(s: Seq<char>, i: int) -> Option<AccountRef> {
    if at(s, i, '(') {
        match spec_account_name(s, i + 1, true) {
            Some((name, end)) => if at(s, end, ')') {
                Some(AccountRef { name, is_virtual: true, end: end + 1 })
            } else {
                None
            },
            None => None,
        }
    } else {
        None
    }
}

/// The status of a posting whose text starts at `b`: a mark counts only with
/// a blank behind it.
pub open spec fn posting_status(s: Seq<char>, b: int) -> (Option<Status>, int) {
    match spec_status(s, b) {
        Some((st, j)) => if 0 <= j < s.len() && is_blank(s[j]) {
            (Some(st), j + 1)
        } else {
            (None, b)
        },
        None => (None, b),
    }
}

/// The amount behind an account name that ends at `k`: it counts only behind
/// at least two blanks.
pub open spec fn posting_amount(s: Seq<char>, k: int, mark: Option<Separator>) -> (
    Option<AmountView>,
    int,
) {
    if blanks(s, k) - k >= 2 {
        match spec_amount(s, blanks(s, k), mark) {
            Some((a, e)) => (Some(a), e),
            None => (None, k),
        }
    } else {
        (None, k)
    }
}

/// The price behind `k`, if one follows the blanks there.
pub open spec fn posting_price(s: Seq<char>, k: int, mark: Option<Separator>) -> (
    Option<PriceView>,
    int,
) {
    match spec_price(s, blanks(s, k), mark) {
        Some((p, e)) => (Some(p), e),
        None => (None, k),
    }
}

/// The assertion behind `k`, if one follows the blanks there.
pub open spec fn posting_assertion(s: Seq<char>, k: int, mark: Option<Separator>) -> (
    Option<AssertionView>,
    int,
) {
    match spec_assertion(s, blanks(s, k), mark) {
        Some((a, e)) => (Some(a), e),
        None => (None, k),
    }
}

/// The posting at `i`: at least one blank, an optional status, the account,
/// then amount, price and assertion as far as they follow, and the rest of
/// the line.
#[verifier::opaque]
pub open spec fn spec_posting(s: Seq<char>, i: int, mark: Option<Separator>) -> Option<
    (PostingView, int),
> {
    if blanks(s, i) > i {
        let st = posting_status(s, blanks(s, i));
        match posting_account(s, st.1) {
            Some(account) => {
                let a = posting_amount(s, account.end, mark);
                let p = posting_price(s, a.1, mark);
                let c = posting_assertion(s, p.1, mark);
                Some(
                    (
                        PostingView {
                            status: st.0,
                            account_name: account.name,
                            is_virtual: account.is_virtual,
                            amount: a.0,
                            price: p.0,
                            assertion: c.0,
                        },
                        eol(s, c.1),
                    ),
                )
            },
            None => None,
        }
    } else {
        None
    }
}

/// Parses the account that a posting names at `start`, and tells whether
/// it is virtual.
pub fn account_ref(input: &[char], start: usize) -> (r: Option<(AccountName, bool, usize)>)
    ensures
        match (r, posting_account(input@, start as int)) {
            (Some((name, is_virtual, end)), Some(e)) => name.deep_view() == e.name && is_virtual
                == e.is_virtual && end == e.end,
            (None, None) => true,
            _ => false,
        },
        r matches Some(x) ==> start < x.2 <= input.len(),
{
    if start < input.len() && input[start] == '(' {
        match account_name(input, start + 1, true) {
            Some((name, end)) => {
                if end < input.len() && input[end] == ')' {
                    return Some((name, true, end + 1));
                }
            },
            None => {},
        }
    }
    match account_name(input, start, false) {
        Some((name, end)) => Some((name, false, end)),
        None => None,
    }
}

fn status_of(input: &[char], b: usize) -> (r: (Option<Status>, usize))
    requires
        b <= input.len(),
    ensures
        r.0 == posting_status(input@, b as int).0,
        r.1 == posting_status(input@, b as int).1,
        b <= r.1 <= input.len(),
{
    match status(input, b) {
        Some((st, j)) => {
            if j < input.len() && CharClass::Blank.contains(input[j]) {
                (Some(st), j + 1)
            } else {
                (None, b)
            }
        },
        None => (None, b),
    }
}

fn amount_of(input: &[char], k: usize, mark: Option<Separator>) -> (r: (Option<Amount>, usize))
    requires
        k <= input.len(),
    ensures
        r.0.deep_view() == posting_amount(input@, k as int, mark).0,
        r.1 == posting_amount(input@, k as int, mark).1,
        k <= r.1 <= input.len(),
{
    let kb = skip_run(input, k, CharClass::Blank);
    if kb - k >= 2 {
        match amount(input, kb, mark) {
            Some((a, e)) => (Some(a), e),
            None => (None, k),
        }
    } else {
        (None, k)
    }
}

fn price_of(input: &[char], k: usize, mark: Option<Separator>) -> (r: (Option<Price>, usize))
    requires
        k <= input.len(),
    ensures
        r.0.deep_view() == posting_price(input@, k as int, mark).0,
        r.1 == posting_price(input@, k as int, mark).1,
        k <= r.1 <= input.len(),
{
    match price(input, skip_run(input, k, CharClass::Blank), mark) {
        Some((p, e)) => (Some(p), e),
        None => (None, k),
    }
}

fn assertion_of(input: &[char], k: usize, mark: Option<Separator>) -> (r: (
    Option<Assertion>,
    usize,
))
    requires
        k <= input.len(),
    ensures
        r.0.deep_view() == posting_assertion(input@, k as int, mark).0,
        r.1 == posting_assertion(input@, k as int, mark).1,
        k <= r.1 <= input.len(),
{
    match assertion(input, skip_run(input, k, CharClass::Blank), mark) {
        Some((a, e)) => (Some(a), e),
        None => (None, k),
    }
}

/// Parses the posting that starts at `start`.
pub fn posting(input: &[char], start: usize, mark: Option<Separator>) -> (r: Option<
    (Posting, usize),
>)
    ensures
        agrees(r, spec_posting(input@, start as int, mark)),
        r matches Some(x) ==> start < x.1 <= input.len(),
{
    proof {
        reveal(spec_posting);
    }
    let b = skip_run(input, start, CharClass::Blank);
    if b <= start || b > input.len() {
        return None;
    }
    let (st, j) = status_of(input, b);
    let (name, is_virtual, k) = match account_ref(input, j) {
        Some(x) => x,
        None => {
            return None;
        },
    };
    let (amt, k2) = amount_of(input, k, mark);
    let (pr, k3) = price_of(input, k2, mark);
    let (asr, k4) = assertion_of(input, k3, mark);
    let (_, end) = end_of_line(input, k4);
    Some(
        (
            Posting {
                status: st,
                account_name: name,
                is_virtual,
                amount: amt,
                price: pr,
                assertion: asr,
            },
            end,
        ),
    )
}

/// The two-space rule: a posting has an amount only where at least two
/// blanks stand between the account name and the amount. With fewer, the
/// posting has none, and the account name is all that was read.
pub proof fn lemma_amount_needs_two_blanks(s: Seq<char>, k: int, mark: Option<Separator>)
    ensures
        posting_amount(s, k, mark).0 is Some ==> blanks(s, k) - k >= 2,
        blanks(s, k) - k < 2 ==> posting_amount(s, k, mark) == (None::<AmountView>, k),
{
}

/// Inside an account name a single space ends nothing: a segment goes on
/// over a space that no second space follows.
pub proof fn lemma_single_space_stays_in_the_name(s: Seq<char>, i: int)
    requires
        0 <= i < s.len(),
        s[i] == ' ',
        !at(s, i + 1, ' '),
    ensures
        crate::component::account_name::in_segment(s, i, false),
{
}

} // verus!
