//! Period expressions: how often, from when, until when.
use crate::component::amount::blanks;
use crate::component::date::{date, date_diagnostics, spec_date, spec_date_diagnostics, Date};
use crate::diagnostic::{lemma_spans_concat, spans_within, Diagnostic};
use crate::text::{literal, skip_run, word_end, CharClass};
use crate::utils::{keyword, keyword_end};
use vstd::prelude::*;

verus! {

/// How often a periodic transaction recurs.
#[derive(Clone, Copy, Debug, PartialEq, Eq)]
pub enum Interval {
    NthDay(u32),
    NthWeek(u32),
    NthMonth(u32),
    NthQuarter(u32),
    NthYear(u32),
}

/// A period: an interval and the dates that bound it, each where it is written.
#[derive(Clone, Copy, Debug, PartialEq, Eq)]
pub struct Period {
    pub interval: Option<Interval>,
    pub begin: Option<Date>,
    pub end: Option<Date>,
}

impl DeepView for Period {
    type V = Period;

    open spec fn deep_view(&self) -> Period {
        *self
    }
}

/// The interval `v` where its name `word` stands at `i`, else what `rest` gives.
pub open spec fn interval_word(
    s: Seq<char>,
    i: int,
    word: Seq<char>,
    v: Interval,
    rest: (Option<Interval>, int),
) -> (Option<Interval>, int) {
    match word_end(s, i, word) {
        Some(e) => (Some(v), e),
        None => rest,
    }
}

/// The interval whose name stands at `i`, if one does.
#[verifier::opaque]
pub open spec fn period_interval(s: Seq<char>, i: int) -> (Option<Interval>, int) {
    interval_word(
        s,
        i,
        "daily"@,
        Interval::NthDay(1),
        interval_word(
            s,
            i,
            "weekly"@,
            Interval::NthWeek(1),
            interval_word(
                s,
                i,
                "biweekly"@,
                Interval::NthWeek(2),
                interval_word(
                    s,
                    i,
                    "fortnightly"@,
                    Interval::NthWeek(2),
                    interval_word(
                        s,
                        i,
                        "monthly"@,
                        Interval::NthMonth(1),
                        interval_word(
                            s,
                            i,
                            "bimonthly"@,
                            Interval::NthMonth(2),
                            interval_word(
                                s,
                                i,
                                "quarterly"@,
                                Interval::NthQuarter(1),
                                interval_word(s, i, "yearly"@, Interval::NthYear(1), (None, i)),
                            ),
                        ),
                    ),
                ),
            ),
        ),
    )
}

/// Where the date of the bound `word` stands behind `j`: behind blanks, the
/// word and more blanks, if a date stands there.
pub open spec fn bound_date_at(s: Seq<char>, j: int, word: Seq<char>) -> Option<int> {
    match keyword_end(s, blanks(s, j), word) {
        Some(d) => if spec_date(s, d) is Some {
            Some(d)
        } else {
            None
        },
        None => None,
    }
}

/// The bound `word` behind `j`, if it is written there.
pub open spec fn period_bound(s: Seq<char>, j: int, word: Seq<char>) -> (Option<Date>, int) {
    match bound_date_at(s, j, word) {
        Some(d) => (Some(spec_date(s, d).unwrap().0), spec_date(s, d).unwrap().1),
        None => (None, j),
    }
}

/// The period at `i`: an interval, `from` and a date, `to` and a date, each
/// where it is written, in this order.
pub open spec fn spec_period(s: Seq<char>, i: int) -> (Period, int) {
    let iv = period_interval(s, i);
    let b = period_bound(s, iv.1, "from"@);
    let e = period_bound(s, b.1, "to"@);
    (Period { interval: iv.0, begin: b.0, end: e.0 }, e.1)
}

/// The reports on the dates of the period at `i`: those on the first date,
/// then those on the last.
#[verifier::opaque]
pub open spec fn spec_period_diagnostics(s: Seq<char>, i: int) -> Seq<Diagnostic> {
    let iv = period_interval(s, i);
    let b = period_bound(s, iv.1, "from"@);
    (match bound_date_at(s, iv.1, "from"@) {
        Some(d) => spec_date_diagnostics(s, d),
        None => Seq::empty(),
    }) + (match bound_date_at(s, b.1, "to"@) {
        Some(d) => spec_date_diagnostics(s, d),
        None => Seq::empty(),
    })
}

fn word(input: &[char], start: usize, name: &str, v: Interval, rest: (Option<Interval>, usize)) -> (r:
    (Option<Interval>, usize))
    requires
        start <= input.len(),
        start <= rest.1 <= input.len(),
    ensures
        r.0 == interval_word(input@, start as int, name@, v, (rest.0, rest.1 as int)).0,
        r.1 == interval_word(input@, start as int, name@, v, (rest.0, rest.1 as int)).1,
        start <= r.1 <= input.len(),
{
    match literal(input, start, name) {
        Some(e) => (Some(v), e),
        None => rest,
    }
}

fn interval(input: &[char], start: usize) -> (r: (Option<Interval>, usize))
    requires
        start <= input.len(),
    ensures
        r.0 == period_interval(input@, start as int).0,
        r.1 == period_interval(input@, start as int).1,
        start <= r.1 <= input.len(),
{
    proof {
        reveal(period_interval);
    }
    let r8 = word(input, start, "yearly", Interval::NthYear(1), (None, start));
    let r7 = word(input, start, "quarterly", Interval::NthQuarter(1), r8);
    let r6 = word(input, start, "bimonthly", Interval::NthMonth(2), r7);
    let r5 = word(input, start, "monthly", Interval::NthMonth(1), r6);
    let r4 = word(input, start, "fortnightly", Interval::NthWeek(2), r5);
    let r3 = word(input, start, "biweekly", Interval::NthWeek(2), r4);
    let r2 = word(input, start, "weekly", Interval::NthWeek(1), r3);
    word(input, start, "daily", Interval::NthDay(1), r2)
}

fn bound_start(input: &[char], j: usize, name: &str) -> (r: Option<usize>)
    requires
        j <= input.len(),
    ensures
        crate::text::same_pos(r, bound_date_at(input@, j as int, name@)),
        r matches Some(d) ==> j < d <= input.len(),
{
    match keyword(input, skip_run(input, j, CharClass::Blank), name) {
        Some(d) => {
            if date(input, d).is_some() {
                Some(d)
            } else {
                None
            }
        },
        None => None,
    }
}

fn bound(input: &[char], j: usize, name: &str) -> (r: (Option<Date>, usize))
    requires
        j <= input.len(),
    ensures
        r.0 == period_bound(input@, j as int, name@).0,
        r.1 == period_bound(input@, j as int, name@).1,
        j <= r.1 <= input.len(),
{
    match bound_start(input, j, name) {
        Some(d) => match date(input, d) {
            Some((v, e)) => (Some(v), e),
            None => (None, j),
        },
        None => (None, j),
    }
}

/// Parses the period that starts at `start`. Each part may be missing, so a
/// period may be empty.
pub fn period(input: &[char], start: usize) -> (r: (Period, usize))
    requires
        start <= input.len(),
    ensures
        r.0 == spec_period(input@, start as int).0,
        r.1 == spec_period(input@, start as int).1,
        start <= r.1 <= input.len(),
{
    let (iv, j1) = interval(input, start);
    let (begin, j2) = bound(input, j1, "from");
    let (end, j3) = bound(input, j2, "to");
    (Period { interval: iv, begin, end }, j3)
}

/// Reports the parts of the dates of the period at `start` that lie outside
/// the calendar.
pub fn period_diagnostics(input: &[char], start: usize) -> (r: Vec<Diagnostic>)
    requires
        start <= input.len(),
    ensures
        r@ == spec_period_diagnostics(input@, start as int),
        spans_within(r@, input.len() as int),
{
    proof {
        reveal(spec_period_diagnostics);
    }
    let (_, j1) = interval(input, start);
    let (_, j2) = bound(input, j1, "from");
    let mut out: Vec<Diagnostic> = match bound_start(input, j1, "from") {
        Some(d) => date_diagnostics(input, d),
        None => Vec::new(),
    };
    let mut more: Vec<Diagnostic> = match bound_start(input, j2, "to") {
        Some(d) => date_diagnostics(input, d),
        None => Vec::new(),
    };
    let ghost first = out@;
    let ghost second = more@;
    out.append(&mut more);
    assert(out@ =~= first + second);
    proof {
        lemma_spans_concat(first, second, input.len() as int);
    }
    out
}

} // verus!
