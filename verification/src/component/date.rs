//! Calendar dates with an optional year.
use crate::component::quantity::{digit_at, digit_here};
use crate::diagnostic::{
    check_range, lemma_range_check_within, lemma_spans_concat, range_check, spans_within,
    Diagnostic,
};
use crate::text::{agrees, at, number_value, read_small};
use vstd::prelude::*;

verus! {

/// A date as it is written: the year may be left out.
#[derive(Clone, Copy, Debug, PartialEq, Eq)]
pub struct Date {
    pub year: Option<u16>,
    pub month: u16,
    pub day: u16,
}

impl DeepView for Date {
    type V = Date;

    open spec fn deep_view(&self) -> Date {
        *self
    }
}

/// Where the parts of a written date stand.
pub struct DateLayout {
    /// Whether four digits and a separator come first.
    pub has_year: bool,
    pub month: int,
    pub month_end: int,
    pub day: int,
    pub end: int,
}

/// The end of a number of one or two digits at `i`.
pub open spec fn short_number_end(s: Seq<char>, i: int) -> Option<int> {
    if !digit_at(s, i) {
        None
    } else if digit_at(s, i + 1) {
        Some(i + 2)
    } else {
        Some(i + 1)
    }
}

/// Four digits and the separator `sep` stand at `i`.
pub open spec fn year_at(s: Seq<char>, i: int, sep: char) -> bool {
    digit_at(s, i) && digit_at(s, i + 1) && digit_at(s, i + 2) && digit_at(s, i + 3) && at(
        s,
        i + 4,
        sep,
    )
}

/// The layout of a date at `i` whose parts `sep` separates.
pub open spec fn date_layout_with(s: Seq<char>, i: int, sep: char) -> Option<DateLayout> {
    let has_year = year_at(s, i, sep);
    let month = if has_year {
        i + 5
    } else {
        i
    };
    match short_number_end(s, month) {
        Some(month_end) => if at(s, month_end, sep) {
            match short_number_end(s, month_end + 1) {
                Some(end) => Some(DateLayout { has_year, month, month_end, day: month_end + 1, end }),
                None => None,
            }
        } else {
            None
        },
        None => None,
    }
}

/// The layout of a date at `i`: the separator is a slash, else a period,
/// else a hyphen, the same throughout.
pub open spec fn date_layout(s: Seq<char>, i: int) -> Option<DateLayout> {
    if date_layout_with(s, i, '/') is Some {
        date_layout_with(s, i, '/')
    } else if date_layout_with(s, i, '.') is Some {
        date_layout_with(s, i, '.')
    } else {
        date_layout_with(s, i, '-')
    }
}

/// The date that is written at `i` with the layout `l`.
pub open spec fn date_of(s: Seq<char>, i: int, l: DateLayout) -> Date {
    Date {
        year: if l.has_year {
            Some(number_value(s.subrange(i, i + 4)) as u16)
        } else {
            None
        },
        month: number_value(s.subrange(l.month, l.month_end)) as u16,
        day: number_value(s.subrange(l.day, l.end)) as u16,
    }
}

/// The date at `i`. Month and day are read as written, whatever their value.
pub open spec fn spec_date(s: Seq<char>, i: int) -> Option<(Date, int)> {
    match date_layout(s, i) {
        Some(l) => Some((date_of(s, i, l), l.end)),
        None => None,
    }
}

/// The reports on the date at `i`: one for a month outside 1..=12, then one
/// for a day outside 1..=31, each on the digits of the number.
#[verifier::opaque]
pub open spec fn spec_date_diagnostics(s: Seq<char>, i: int) -> Seq<Diagnostic> {
    match date_layout(s, i) {
        Some(l) => range_check(date_of(s, i, l).month, 1, 12, l.month, l.month_end) + range_check(
            date_of(s, i, l).day,
            1,
            31,
            l.day,
            l.end,
        ),
        None => Seq::empty(),
    }
}

/// Positions of a date's parts, as the executable code holds them.
struct Found {
    has_year: bool,
    month: usize,
    month_end: usize,
    day: usize,
    end: usize,
}

spec fn same_layout(r: Option<Found>, e: Option<DateLayout>) -> bool {
    match (r, e) {
        (Some(f), Some(l)) => f.has_year == l.has_year && f.month == l.month && f.month_end
            == l.month_end && f.day == l.day && f.end == l.end,
        (None, None) => true,
        _ => false,
    }
}

fn short_number(input: &[char], start: usize) -> (r: Option<usize>)
    ensures
        crate::text::same_pos(r, short_number_end(input@, start as int)),
        r matches Some(j) ==> start < j <= input.len() && j - start <= 2,
{
    if !digit_here(input, start) {
        None
    } else if digit_here(input, start + 1) {
        Some(start + 2)
    } else {
        Some(start + 1)
    }
}

fn layout_with(input: &[char], start: usize, sep: char) -> (r: Option<Found>)
    ensures
        same_layout(r, date_layout_with(input@, start as int, sep)),
        r matches Some(f) ==> start <= f.month < f.month_end < f.day < f.end <= input.len()
            && f.month_end - f.month <= 2 && f.end - f.day <= 2 && (f.has_year ==> start + 4
            <= input.len()),
{
    let has_year = digit_here(input, start) && digit_here(input, start + 1) && digit_here(
        input,
        start + 2,
    ) && digit_here(input, start + 3) && start + 4 < input.len() && input[start + 4] == sep;
    let month: usize = if has_year {
        start + 5
    } else {
        start
    };
    match short_number(input, month) {
        Some(month_end) => {
            if month_end < input.len() && input[month_end] == sep {
                match short_number(input, month_end + 1) {
                    Some(end) => Some(Found { has_year, month, month_end, day: month_end + 1, end }),
                    None => None,
                }
            } else {
                None
            }
        },
        None => None,
    }
}

fn layout(input: &[char], start: usize) -> (r: Option<Found>)
    ensures
        same_layout(r, date_layout(input@, start as int)),
        r matches Some(f) ==> start <= f.month < f.month_end < f.day < f.end <= input.len()
            && f.month_end - f.month <= 2 && f.end - f.day <= 2 && (f.has_year ==> start + 4
            <= input.len()),
{
    if let Some(f) = layout_with(input, start, '/') {
        return Some(f);
    }
    if let Some(f) = layout_with(input, start, '.') {
        return Some(f);
    }
    layout_with(input, start, '-')
}

fn read_date(input: &[char], start: usize, f: &Found) -> (d: Date)
    requires
        start <= f.month < f.month_end < f.day < f.end <= input.len(),
        f.month_end - f.month <= 2,
        f.end - f.day <= 2,
        f.has_year ==> start + 4 <= input.len(),
    ensures
        d == date_of(
            input@,
            start as int,
            DateLayout {
                has_year: f.has_year,
                month: f.month as int,
                month_end: f.month_end as int,
                day: f.day as int,
                end: f.end as int,
            },
        ),
{
    let year = if f.has_year {
        Some(read_small(input, start, start + 4))
    } else {
        None
    };
    Date {
        year,
        month: read_small(input, f.month, f.month_end),
        day: read_small(input, f.day, f.end),
    }
}

/// Parses the date that starts at `start`.
pub fn date(input: &[char], start: usize) -> (r: Option<(Date, usize)>)
    ensures
        agrees(r, spec_date(input@, start as int)),
        r matches Some(x) ==> start < x.1 <= input.len(),
{
    match layout(input, start) {
        Some(f) => Some((read_date(input, start, &f), f.end)),
        None => None,
    }
}

/// Reports the month and the day of the date at `start` that lie outside
/// the calendar. Where no date stands there, nothing is reported.
pub fn date_diagnostics(input: &[char], start: usize) -> (r: Vec<Diagnostic>)
    ensures
        r@ == spec_date_diagnostics(input@, start as int),
        spans_within(r@, input.len() as int),
{
    proof {
        reveal(spec_date_diagnostics);
    }
    let mut out: Vec<Diagnostic> = Vec::new();
    match layout(input, start) {
        Some(f) => {
            let d = read_date(input, start, &f);
            check_range(&mut out, d.month, 1, 12, f.month, f.month_end);
            check_range(&mut out, d.day, 1, 31, f.day, f.end);
            assert(out@ =~= spec_date_diagnostics(input@, start as int));
            proof {
                let len = input.len() as int;
                lemma_range_check_within(d.month, 1, 12, f.month as int, f.month_end as int, len);
                lemma_range_check_within(d.day, 1, 31, f.day as int, f.end as int, len);
                lemma_spans_concat(
                    range_check(d.month, 1, 12, f.month as int, f.month_end as int),
                    range_check(d.day, 1, 31, f.day as int, f.end as int),
                    len,
                );
            }
        },
        None => {},
    }
    out
}

/// Range validation is soft: a date is read whatever its month and day
/// are, and it is reported exactly when the month lies outside 1..=12 or
/// the day outside 1..=31.
pub proof fn lemma_date_reported_iff_out_of_range(s: Seq<char>, i: int)
    ensures
        spec_date(s, i) matches Some((d, end)) ==> (spec_date_diagnostics(s, i).len() == 0 <==> 1
            <= d.month <= 12 && 1 <= d.day <= 31),
        spec_date(s, i) is None ==> spec_date_diagnostics(s, i).len() == 0,
{
    reveal(spec_date_diagnostics);
}

} // verus!
