//! Times of day.
use crate::component::quantity::{digit_at, digit_here};
use crate::diagnostic::{
    check_range, lemma_range_check_within, lemma_spans_concat, range_check, spans_within,
    Diagnostic,
};
use crate::text::{agrees, at, number_value, read_small};
use vstd::prelude::*;

verus! {

/// A time of day as it is written.
#[derive(Clone, Copy, Debug, PartialEq, Eq)]
pub struct Time {
    pub hours: u16,
    pub minutes: u16,
    pub seconds: u16,
}

impl DeepView for Time {
    type V = Time;

    open spec fn deep_view(&self) -> Time {
        *self
    }
}

/// Two digits stand at `i`.
pub open spec fn two_digits_at(s: Seq<char>, i: int) -> bool {
    digit_at(s, i) && digit_at(s, i + 1)
}

/// A time stands at `i`: three numbers of two digits each, with colons between.
pub open spec fn time_at(s: Seq<char>, i: int) -> bool {
    two_digits_at(s, i) && at(s, i + 2, ':') && two_digits_at(s, i + 3) && at(s, i + 5, ':')
        && two_digits_at(s, i + 6)
}

/// The number that the two digits at `i` spell.
pub open spec fn two_digits(s: Seq<char>, i: int) -> u16 {
    number_value(s.subrange(i, i + 2)) as u16
}

/// The time at `i`, eight characters long. The numbers are read as written,
/// whatever their value.
pub open spec fn spec_time(s: Seq<char>, i: int) -> Option<(Time, int)> {
    if time_at(s, i) {
        Some(
            (
                Time {
                    hours: two_digits(s, i),
                    minutes: two_digits(s, i + 3),
                    seconds: two_digits(s, i + 6),
                },
                i + 8,
            ),
        )
    } else {
        None
    }
}

/// The reports on the time at `i`: hours outside 0..=23, minutes and seconds
/// outside 0..=59, in this order, each on its two digits.
pub open spec fn spec_time_diagnostics(s: Seq<char>, i: int) -> Seq<Diagnostic> {
    if time_at(s, i) {
        range_check(two_digits(s, i), 0, 23, i, i + 2) + range_check(
            two_digits(s, i + 3),
            0,
            59,
            i + 3,
            i + 5,
        ) + range_check(two_digits(s, i + 6), 0, 59, i + 6, i + 8)
    } else {
        Seq::empty()
    }
}

fn time_here(input: &[char], start: usize) -> (r: bool)
    ensures
        r == time_at(input@, start as int),
        r ==> start + 8 <= input.len(),
{
    if start > input.len() || input.len() - start < 8 {
        return false;
    }
    digit_here(input, start) && digit_here(input, start + 1) && input[start + 2] == ':'
        && digit_here(input, start + 3) && digit_here(input, start + 4) && input[start + 5] == ':'
        && digit_here(input, start + 6) && digit_here(input, start + 7)
}

/// Parses the time that starts at `start`.
pub fn time(input: &[char], start: usize) -> (r: Option<(Time, usize)>)
    ensures
        agrees(r, spec_time(input@, start as int)),
        r matches Some(x) ==> start < x.1 <= input.len(),
{
    if time_here(input, start) {
        Some(
            (
                Time {
                    hours: read_small(input, start, start + 2),
                    minutes: read_small(input, start + 3, start + 5),
                    seconds: read_small(input, start + 6, start + 8),
                },
                start + 8,
            ),
        )
    } else {
        None
    }
}

/// Reports the parts of the time at `start` that lie outside the clock.
/// Where no time stands there, nothing is reported.
pub fn time_diagnostics(input: &[char], start: usize) -> (r: Vec<Diagnostic>)
    ensures
        r@ == spec_time_diagnostics(input@, start as int),
        spans_within(r@, input.len() as int),
{
    let mut out: Vec<Diagnostic> = Vec::new();
    if time_here(input, start) {
        check_range(&mut out, read_small(input, start, start + 2), 0, 23, start, start + 2);
        check_range(&mut out, read_small(input, start + 3, start + 5), 0, 59, start + 3, start + 5);
        check_range(&mut out, read_small(input, start + 6, start + 8), 0, 59, start + 6, start + 8);
        assert(out@ =~= spec_time_diagnostics(input@, start as int));
        proof {
            let s = input@;
            let i = start as int;
            let len = input.len() as int;
            let a = range_check(two_digits(s, i), 0, 23, i, i + 2);
            let b = range_check(two_digits(s, i + 3), 0, 59, i + 3, i + 5);
            let c = range_check(two_digits(s, i + 6), 0, 59, i + 6, i + 8);
            lemma_range_check_within(two_digits(s, i), 0, 23, i, i + 2, len);
            lemma_range_check_within(two_digits(s, i + 3), 0, 59, i + 3, i + 5, len);
            lemma_range_check_within(two_digits(s, i + 6), 0, 59, i + 6, i + 8, len);
            lemma_spans_concat(a, b, len);
            lemma_spans_concat(a + b, c, len);
        }
    }
    out
}

/// Range validation is soft: a time is read whatever its numbers are, and
/// it is reported exactly when the hours lie outside 0..=23 or the minutes
/// or the seconds outside 0..=59.
pub proof fn lemma_time_reported_iff_out_of_range(s: Seq<char>, i: int)
    ensures
        spec_time(s, i) matches Some((t, end)) ==> (spec_time_diagnostics(s, i).len() == 0
            <==> t.hours <= 23 && t.minutes <= 59 && t.seconds <= 59),
        spec_time(s, i) is None ==> spec_time_diagnostics(s, i).len() == 0,
{
}

} // verus!
