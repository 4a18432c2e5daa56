//! The top-level constructs of a journal, and the sequence of them that
//! makes a document.
use crate::component::amount::blanks;
use crate::component::comment::{block, line, spec_block, spec_inline, spec_line};
use crate::component::date::{date_diagnostics, spec_date_diagnostics};
use crate::component::period::{period_diagnostics, spec_period_diagnostics};
use crate::diagnostic::{lemma_spans_concat, spans_within, Diagnostic};
use crate::state::ParseState;
use crate::text::{agrees, newline, newline_end, skip_run, CharClass};
use vstd::prelude::*;

pub mod account;
pub mod assertion;
pub mod auto_postings;
pub mod commodity;
pub mod decimal_mark;
pub mod inclusion;
pub mod payee;
pub mod periodic;
pub mod posting;
pub mod price;
pub mod tag;
pub mod transaction;
pub mod year;

verus! {

/// One top-level construct of a journal.
#[derive(Clone, Debug, PartialEq, Eq)]
pub enum Directive {
    Account(account::Account),
    AutoPosting(auto_postings::AutoPostings),
    Commodity(commodity::Commodity),
    DecimalMark(decimal_mark::DecimalMark),
    Include(inclusion::Include),
    Payee(payee::Payee),
    Price(price::Price),
    Tag(tag::Tag),
    Transaction(transaction::Transaction),
    PeriodicTransaction(periodic::Transaction),
    Year(year::Year),
}

/// The mathematical value of a [`Directive`].
pub enum DirectiveView {
    Account(Seq<Seq<char>>),
    AutoPosting(auto_postings::AutoPostingsView),
    Commodity(commodity::CommodityView),
    DecimalMark(decimal_mark::DecimalMark),
    Include(inclusion::IncludeView),
    Payee(Seq<char>),
    Price(price::PriceView),
    Tag(Seq<char>),
    Transaction(transaction::TransactionView),
    PeriodicTransaction(periodic::TransactionView),
    Year(year::Year),
}

impl DeepView for Directive {
    type V = DirectiveView;

    open spec fn deep_view(&self) -> DirectiveView {
        match self {
            Directive::Account(x) => DirectiveView::Account(x.deep_view()),
            Directive::AutoPosting(x) => DirectiveView::AutoPosting(x.deep_view()),
            Directive::Commodity(x) => DirectiveView::Commodity(x.deep_view()),
            Directive::DecimalMark(x) => DirectiveView::DecimalMark(*x),
            Directive::Include(x) => DirectiveView::Include(x.deep_view()),
            Directive::Payee(x) => DirectiveView::Payee(x.deep_view()),
            Directive::Price(x) => DirectiveView::Price(x.deep_view()),
            Directive::Tag(x) => DirectiveView::Tag(x.deep_view()),
            Directive::Transaction(x) => DirectiveView::Transaction(x.deep_view()),
            Directive::PeriodicTransaction(x) => DirectiveView::PeriodicTransaction(
                x.deep_view(),
            ),
            Directive::Year(x) => DirectiveView::Year(*x),
        }
    }
}

/// The directive at `i` read as the first group of kinds: account, rule,
/// commodity, decimal mark.
pub open spec fn spec_directive_head(s: Seq<char>, i: int, state: ParseState) -> Option<
    (DirectiveView, int),
> {
    match account::spec_account(s, i) {
        Some((v, e)) => Some((DirectiveView::Account(v), e)),
        None => match auto_postings::spec_auto_postings(s, i, state.decimal_mark) {
            Some((v, e)) => Some((DirectiveView::AutoPosting(v), e)),
            None => match commodity::spec_commodity_directive(s, i, state.decimal_mark) {
                Some((v, e)) => Some((DirectiveView::Commodity(v), e)),
                None => match decimal_mark::spec_decimal_mark(s, i) {
                    Some((v, e)) => Some((DirectiveView::DecimalMark(v), e)),
                    None => None,
                },
            },
        },
    }
}

/// The directive at `i` read as the second group of kinds: file, payee,
/// price, tag.
pub open spec fn spec_directive_middle(s: Seq<char>, i: int, state: ParseState) -> Option<
    (DirectiveView, int),
> {
    match inclusion::spec_include(s, i) {
        Some((v, e)) => Some((DirectiveView::Include(v), e)),
        None => match payee::spec_payee(s, i) {
            Some((v, e)) => Some((DirectiveView::Payee(v), e)),
            None => match price::spec_price_directive(s, i, state) {
                Some((v, e)) => Some((DirectiveView::Price(v), e)),
                None => match tag::spec_tag(s, i) {
                    Some((v, e)) => Some((DirectiveView::Tag(v), e)),
                    None => None,
                },
            },
        },
    }
}

/// The directive at `i` read as the last group of kinds: transaction,
/// periodic transaction, year.
pub open spec fn spec_directive_tail(s: Seq<char>, i: int, state: ParseState) -> Option<
    (DirectiveView, int),
> {
    match transaction::spec_transaction(s, i, state) {
        Some((v, e)) => Some((DirectiveView::Transaction(v), e)),
        None => match periodic::spec_periodic(s, i, state.decimal_mark) {
            Some((v, e)) => Some((DirectiveView::PeriodicTransaction(v), e)),
            None => match year::spec_year(s, i) {
                Some((v, e)) => Some((DirectiveView::Year(v), e)),
                None => None,
            },
        },
    }
}

/// The directive at `i` under `state`: the first kind that matches, in the
/// order account, rule, commodity, decimal mark, file, payee, price, tag,
/// transaction, periodic transaction, year.
pub open spec fn spec_directive(s: Seq<char>, i: int, state: ParseState) -> Option<
    (DirectiveView, int),
> {
    if spec_directive_head(s, i, state) is Some {
        spec_directive_head(s, i, state)
    } else if spec_directive_middle(s, i, state) is Some {
        spec_directive_middle(s, i, state)
    } else {
        spec_directive_tail(s, i, state)
    }
}

/// The state behind the directive `d`: a decimal mark and a year are kept
/// for what follows, and so is the year of a transaction's date.
pub open spec fn next_state(state: ParseState, d: DirectiveView) -> ParseState {
    match d {
        DirectiveView::DecimalMark(m) => ParseState {
            decimal_mark: if m.spec_separator() is Some {
                m.spec_separator()
            } else {
                state.decimal_mark
            },
            default_year: state.default_year,
        },
        DirectiveView::Year(y) => ParseState {
            decimal_mark: state.decimal_mark,
            default_year: Some(y.0),
        },
        DirectiveView::Transaction(t) => ParseState {
            decimal_mark: state.decimal_mark,
            default_year: if t.date.year is Some {
                t.date.year
            } else {
                state.default_year
            },
        },
        _ => state,
    }
}

/// The reports on the directive `d` that was read at `i`: on the dates and
/// times of prices, transactions and periods.
pub open spec fn directive_diagnostics(s: Seq<char>, i: int, state: ParseState, d: DirectiveView) -> Seq<
    Diagnostic,
> {
    match d {
        DirectiveView::Price(_) => price::spec_price_diagnostics(s, i, state),
        DirectiveView::Transaction(_) => spec_date_diagnostics(s, i),
        DirectiveView::PeriodicTransaction(_) => spec_period_diagnostics(s, blanks(s, i + 1)),
        _ => Seq::empty(),
    }
}

fn head(input: &[char], start: usize, state: &ParseState) -> (r: Option<(Directive, usize)>)
    ensures
        agrees(r, spec_directive_head(input@, start as int, *state)),
        r matches Some(x) ==> start < x.1 <= input.len(),
{
    if let Some((v, e)) = account::account(input, start) {
        return Some((Directive::Account(v), e));
    }
    if let Some((v, e)) = auto_postings::auto_postings(input, start, state.decimal_mark) {
        return Some((Directive::AutoPosting(v), e));
    }
    if let Some((v, e)) = commodity::commodity(input, start, state.decimal_mark) {
        return Some((Directive::Commodity(v), e));
    }
    if let Some((v, e)) = decimal_mark::decimal_mark(input, start) {
        return Some((Directive::DecimalMark(v), e));
    }
    None
}

fn middle(input: &[char], start: usize, state: &ParseState) -> (r: Option<(Directive, usize)>)
    ensures
        agrees(r, spec_directive_middle(input@, start as int, *state)),
        r matches Some(x) ==> start < x.1 <= input.len(),
{
    if let Some((v, e)) = inclusion::include_directive(input, start) {
        return Some((Directive::Include(v), e));
    }
    if let Some((v, e)) = payee::payee(input, start) {
        return Some((Directive::Payee(v), e));
    }
    if let Some((v, e)) = price::price(input, start, state) {
        return Some((Directive::Price(v), e));
    }
    if let Some((v, e)) = tag::tag(input, start) {
        return Some((Directive::Tag(v), e));
    }
    None
}

fn tail(input: &[char], start: usize, state: &ParseState) -> (r: Option<(Directive, usize)>)
    ensures
        agrees(r, spec_directive_tail(input@, start as int, *state)),
        r matches Some(x) ==> start < x.1 <= input.len(),
{
    if let Some((v, e)) = transaction::transaction(input, start, state) {
        return Some((Directive::Transaction(v), e));
    }
    if let Some((v, e)) = periodic::transaction(input, start, state.decimal_mark) {
        return Some((Directive::PeriodicTransaction(v), e));
    }
    if let Some((v, e)) = year::year(input, start) {
        return Some((Directive::Year(v), e));
    }
    None
}

/// Reads the directive that starts at `start` under `state`, without
/// changing the state.
pub fn recognize(input: &[char], start: usize, state: &ParseState) -> (r: Option<
    (Directive, usize),
>)
    ensures
        agrees(r, spec_directive(input@, start as int, *state)),
        r matches Some(x) ==> start < x.1 <= input.len(),
{
    if let Some(x) = head(input, start, state) {
        return Some(x);
    }
    if let Some(x) = middle(input, start, state) {
        return Some(x);
    }
    tail(input, start, state)
}

/// The state behind the directive `d`.
pub fn advance(state: &ParseState, d: &Directive) -> (r: ParseState)
    ensures
        r == next_state(*state, d.deep_view()),
{
    match d {
        Directive::DecimalMark(m) => match m.separator() {
            Some(sep) => ParseState { decimal_mark: Some(sep), default_year: state.default_year },
            None => *state,
        },
        Directive::Year(y) => ParseState {
            decimal_mark: state.decimal_mark,
            default_year: Some(y.0),
        },
        Directive::Transaction(t) => match t.date.year {
            Some(y) => ParseState { decimal_mark: state.decimal_mark, default_year: Some(y) },
            None => *state,
        },
        _ => *state,
    }
}

/// The reports on the directive `d` that was read at `start` under `state`.
fn diagnose(input: &[char], start: usize, state: &ParseState, d: &Directive) -> (r: Vec<
    Diagnostic,
>)
    requires
        start < input.len(),
    ensures
        r@ == directive_diagnostics(input@, start as int, *state, d.deep_view()),
        spans_within(r@, input.len() as int),
{
    match d {
        Directive::Price(_) => price::price_diagnostics(input, start, state),
        Directive::Transaction(_) => date_diagnostics(input, start),
        Directive::PeriodicTransaction(_) => period_diagnostics(
            input,
            skip_run(input, start + 1, CharClass::Blank),
        ),
        _ => Vec::new(),
    }
}

/// Parses the directive that starts at `start`. On success the state moves
/// on to what holds behind the directive, and the reports on its dates and
/// times are appended to `diagnostics`; on failure both stay as they were.
pub fn directive(
    input: &[char],
    start: usize,
    state: &mut ParseState,
    diagnostics: &mut Vec<Diagnostic>,
) -> (r: Option<(Directive, usize)>)
    ensures
        agrees(r, spec_directive(input@, start as int, *old(state))),
        r matches Some(x) ==> start < x.1 <= input.len() && *final(state) == next_state(
            *old(state),
            x.0.deep_view(),
        ) && final(diagnostics)@ == old(diagnostics)@ + directive_diagnostics(
            input@,
            start as int,
            *old(state),
            x.0.deep_view(),
        ),
        r is None ==> *final(state) == *old(state) && final(diagnostics)@ == old(diagnostics)@,
        spans_within(old(diagnostics)@, input.len() as int) ==> spans_within(
            final(diagnostics)@,
            input.len() as int,
        ),
{
    match recognize(input, start, state) {
        Some((d, e)) => {
            let mut found = diagnose(input, start, state, &d);
            let ghost before = diagnostics@;
            let ghost added = found@;
            diagnostics.append(&mut found);
            assert(diagnostics@ =~= before + added);
            proof {
                if spans_within(before, input.len() as int) {
                    lemma_spans_concat(before, added, input.len() as int);
                }
            }
            *state = advance(state, &d);
            Some((d, e))
        },
        None => None,
    }
}

/// What stands between two line breaks of a document at `i`: a directive,
/// else a comment of one of the three kinds, else blanks, which may be
/// none. Only a directive leaves a value.
pub open spec fn spec_item(s: Seq<char>, i: int, state: ParseState) -> (Option<DirectiveView>, int) {
    match spec_directive(s, i, state) {
        Some((d, e)) => (Some(d), e),
        None => match spec_inline(s, i) {
            Some((c, e)) => (None, e),
            None => match spec_line(s, i) {
                Some((c, e)) => (None, e),
                None => match spec_block(s, i) {
                    Some((c, e)) => (None, e),
                    None => (None, blanks(s, i)),
                },
            },
        },
    }
}

/// The state behind an item.
pub open spec fn item_state(state: ParseState, item: Option<DirectiveView>) -> ParseState {
    match item {
        Some(d) => next_state(state, d),
        None => state,
    }
}

/// The reports on an item that was read at `i`.
pub open spec fn item_diagnostics(
    s: Seq<char>,
    i: int,
    state: ParseState,
    item: Option<DirectiveView>,
) -> Seq<Diagnostic> {
    match item {
        Some(d) => directive_diagnostics(s, i, state, d),
        None => Seq::empty(),
    }
}

/// The directive of an item, as a sequence of one or none.
pub open spec fn item_directives(item: Option<DirectiveView>) -> Seq<DirectiveView> {
    match item {
        Some(d) => seq![d],
        None => Seq::empty(),
    }
}

/// What a run of items amounts to.
pub struct Document {
    /// The directives, in the order of the text.
    pub directives: Seq<DirectiveView>,
    /// The reports on dates and times, in the order of the text.
    pub diagnostics: Seq<Diagnostic>,
    /// The state behind the last item.
    pub state: ParseState,
    /// Where the last item ends.
    pub end: int,
}

/// The items from `i` on, each separated from the next by a line break.
/// Every item is read under the state that the items before it have left.
pub open spec fn spec_directives(s: Seq<char>, i: int, state: ParseState) -> Document
    decreases s.len() - i,
{
    let item = spec_item(s, i, state);
    match newline_end(s, item.1) {
        Some(n) => if i < n <= s.len() {
            let rest = spec_directives(s, n, item_state(state, item.0));
            Document {
                directives: item_directives(item.0) + rest.directives,
                diagnostics: item_diagnostics(s, i, state, item.0) + rest.diagnostics,
                state: rest.state,
                end: rest.end,
            }
        } else {
            Document {
                directives: item_directives(item.0),
                diagnostics: item_diagnostics(s, i, state, item.0),
                state: item_state(state, item.0),
                end: item.1,
            }
        },
        None => Document {
            directives: item_directives(item.0),
            diagnostics: item_diagnostics(s, i, state, item.0),
            state: item_state(state, item.0),
            end: item.1,
        },
    }
}

fn skip_comment(input: &[char], start: usize) -> (end: usize)
    ensures
        forall|st: ParseState|
            spec_directive(input@, start as int, st) is None ==> end == (#[trigger] spec_item(
                input@,
                start as int,
                st,
            )).1,
        start <= end,
        start <= input.len() ==> end <= input.len(),
{
    if let Some((_, e)) = crate::component::comment::inline(input, start) {
        return e;
    }
    if let Some((_, e)) = line(input, start) {
        return e;
    }
    if let Some((_, e)) = block(input, start) {
        return e;
    }
    skip_run(input, start, CharClass::Blank)
}

/// Reads the item that starts at `start`: a directive, a comment or blanks.
/// The state and the reports move on as they do for a directive.
pub fn item(
    input: &[char],
    start: usize,
    state: &mut ParseState,
    diagnostics: &mut Vec<Diagnostic>,
) -> (r: (Option<Directive>, usize))
    ensures
        r.0.deep_view() == spec_item(input@, start as int, *old(state)).0,
        r.1 == spec_item(input@, start as int, *old(state)).1,
        *final(state) == item_state(*old(state), r.0.deep_view()),
        final(diagnostics)@ == old(diagnostics)@ + item_diagnostics(
            input@,
            start as int,
            *old(state),
            r.0.deep_view(),
        ),
        start <= r.1,
        start <= input.len() ==> r.1 <= input.len(),
        spans_within(old(diagnostics)@, input.len() as int) ==> spans_within(
            final(diagnostics)@,
            input.len() as int,
        ),
{
    match directive(input, start, state, diagnostics) {
        Some((d, e)) => (Some(d), e),
        None => {
            assert(diagnostics@ + Seq::<Diagnostic>::empty() =~= diagnostics@);
            (None, skip_comment(input, start))
        },
    }
}

/// Reads the items from `start` on, as far as line breaks separate them,
/// and returns the directives among them and the position where it stopped.
/// The state ends as the last item leaves it; the reports on dates and times
/// are appended to `diagnostics`.
pub fn directives(
    input: &[char],
    start: usize,
    state: &mut ParseState,
    diagnostics: &mut Vec<Diagnostic>,
) -> (r: (Vec<Directive>, usize))
    ensures
        r.0.deep_view() == spec_directives(input@, start as int, *old(state)).directives,
        r.1 == spec_directives(input@, start as int, *old(state)).end,
        *final(state) == spec_directives(input@, start as int, *old(state)).state,
        final(diagnostics)@ == old(diagnostics)@ + spec_directives(
            input@,
            start as int,
            *old(state),
        ).diagnostics,
        start <= r.1,
        start <= input.len() ==> r.1 <= input.len(),
        spans_within(old(diagnostics)@, input.len() as int) ==> spans_within(
            final(diagnostics)@,
            input.len() as int,
        ),
{
    let mut out: Vec<Directive> = Vec::new();
    let mut cur: usize = start;
    let ghost whole = spec_directives(input@, start as int, *state);
    let ghost reported = diagnostics@;
    assert(out.deep_view() =~= Seq::<DirectiveView>::empty());
    assert(Seq::<DirectiveView>::empty() + whole.directives =~= whole.directives);
    loop
        invariant_except_break
            whole.directives == out.deep_view() + spec_directives(
                input@,
                cur as int,
                *state,
            ).directives,
            reported + whole.diagnostics == diagnostics@ + spec_directives(
                input@,
                cur as int,
                *state,
            ).diagnostics,
            whole.state == spec_directives(input@, cur as int, *state).state,
            whole.end == spec_directives(input@, cur as int, *state).end,
        invariant
            start <= cur,
            start <= input.len() ==> cur <= input.len(),
            spans_within(reported, input.len() as int) ==> spans_within(
                diagnostics@,
                input.len() as int,
            ),
        ensures
            whole.directives == out.deep_view(),
            reported + whole.diagnostics == diagnostics@,
            whole.state == *state,
            whole.end == cur,
        decreases input.len() - cur,
    {
        let ghost before = out.deep_view();
        let ghost told = diagnostics@;
        let ghost st = *state;
        let ghost here = spec_item(input@, cur as int, st);
        let ghost rest = spec_directives(input@, cur as int, st);
        let (found, e) = item(input, cur, state, diagnostics);
        match found {
            Some(d) => {
                let ghost dv = d.deep_view();
                out.push(d);
                proof {
                    assert(out.deep_view() =~= before + seq![dv]);
                }
            },
            None => {
                proof {
                    assert(out.deep_view() =~= before + Seq::<DirectiveView>::empty());
                }
            },
        }
        proof {
            assert(out.deep_view() =~= before + item_directives(here.0));
            assert(diagnostics@ =~= told + item_diagnostics(input@, cur as int, st, here.0));
        }
        match newline(input, e) {
            Some(n) => {
                proof {
                    let next = spec_directives(input@, n as int, *state);
                    assert(rest.directives =~= item_directives(here.0) + next.directives);
                    assert(rest.diagnostics =~= item_diagnostics(input@, cur as int, st, here.0)
                        + next.diagnostics);
                    assert(whole.directives =~= out.deep_view() + next.directives);
                    assert(reported + whole.diagnostics =~= diagnostics@ + next.diagnostics);
                }
                cur = n;
            },
            None => {
                proof {
                    assert(whole.directives =~= out.deep_view());
                    assert(reported + whole.diagnostics =~= diagnostics@);
                }
                cur = e;
                break ;
            },
        }
    }
    (out, cur)
}

/// Directives act forward only: the item at `i` is read under the state
/// before it, whatever follows, and the items behind the line break that
/// ends it are read under the state that it leaves.
pub proof fn lemma_state_applies_forward(s: Seq<char>, i: int, state: ParseState, next: int)
    requires
        newline_end(s, spec_item(s, i, state).1) == Some(next),
        i < next <= s.len(),
    ensures
        spec_directives(s, i, state).directives == item_directives(spec_item(s, i, state).0)
            + spec_directives(s, next, item_state(state, spec_item(s, i, state).0)).directives,
        spec_directives(s, i, state).state == spec_directives(
            s,
            next,
            item_state(state, spec_item(s, i, state).0),
        ).state,
{
}

/// A decimal mark holds from its directive on: the items behind the
/// directive are read with the declared mark as the only fraction mark, and
/// the default year stays as it was.
pub proof fn lemma_decimal_mark_applies_forward(
    s: Seq<char>,
    i: int,
    state: ParseState,
    mark: crate::state::Separator,
    next: int,
)
    requires
        spec_directive(s, i, state) matches Some((d, e)) && d == DirectiveView::DecimalMark(
            decimal_mark::DecimalMark(mark.glyph()),
        ) && newline_end(s, e) == Some(next),
        i < next <= s.len(),
    ensures
        spec_directives(s, i, state).directives == seq![
            DirectiveView::DecimalMark(decimal_mark::DecimalMark(mark.glyph())),
        ] + spec_directives(
            s,
            next,
            ParseState { decimal_mark: Some(mark), default_year: state.default_year },
        ).directives,
{
    let item = spec_item(s, i, state);
    assert(item_state(state, item.0) == ParseState {
        decimal_mark: Some(mark),
        default_year: state.default_year,
    });
}

} // verus!
