//! Commodity names: a currency symbol, a quoted name or a run of letters.
use crate::text::{agrees, at, copy_range, run_end, skip_run, CharClass};
use vstd::prelude::*;

verus! {

/// The currency or unit that a quantity is counted in.
#[derive(Clone, Debug, Default, PartialEq, Eq)]
pub struct Commodity(pub String);

impl DeepView for Commodity {
    type V = Seq<char>;

    open spec fn deep_view(&self) -> Seq<char> {
        self.0@
    }
}

impl Commodity {
    /// The commodity named `s`.
    pub fn from_str(s: &str) -> (c: Commodity)
        ensures
            c.deep_view() == s@,
    {
        Commodity(s.to_owned())
    }

    /// The name.
    pub fn name(&self) -> (s: &str)
        ensures
            s@ == self.deep_view(),
    {
        self.0.as_str()
    }
}

/// The characters that name a commodity by themselves.
pub open spec fn is_currency_symbol(c: char) -> bool {
    c == '$' || c == '\u{a2}' || c == '\u{20ac}' || c == '\u{a3}' || c == '\u{192}' || c
        == '\u{20a3}' || c == '\u{20a7}' || c == '\u{20b1}' || c == '\u{20a8}' || c == '\u{20b9}'
        || c == '\u{20bd}' || c == '\u{20ba}' || c == '\u{a5}'
}

/// Tells whether `c` names a commodity by itself.
pub fn currency_symbol(c: char) -> (r: bool)
    ensures
        r == is_currency_symbol(c),
{
    c == '$' || c == '\u{a2}' || c == '\u{20ac}' || c == '\u{a3}' || c == '\u{192}' || c
        == '\u{20a3}' || c == '\u{20a7}' || c == '\u{20b1}' || c == '\u{20a8}' || c == '\u{20b9}'
        || c == '\u{20bd}' || c == '\u{20ba}' || c == '\u{a5}'
}

/// The position of the first double quote from `i` on, or the end of the input.
pub open spec fn quote_at(s: Seq<char>, i: int) -> int
    decreases s.len() - i,
{
    if 0 <= i < s.len() && s[i] != '"' {
        quote_at(s, i + 1)
    } else {
        i
    }
}

/// The commodity at `i`: one currency symbol; else a name between double
/// quotes; else the letters that stand there, which may be none.
pub open spec fn spec_commodity(s: Seq<char>, i: int) -> Option<(Seq<char>, int)> {
    if 0 <= i < s.len() && is_currency_symbol(s[i]) {
        Some((s.subrange(i, i + 1), i + 1))
    } else if at(s, i, '"') && at(s, quote_at(s, i + 1), '"') {
        Some((s.subrange(i + 1, quote_at(s, i + 1)), quote_at(s, i + 1) + 1))
    } else if 0 <= i <= s.len() {
        Some((s.subrange(i, run_end(s, i, CharClass::Letter)), run_end(s, i, CharClass::Letter)))
    } else {
        None
    }
}

fn find_quote(input: &[char], start: usize) -> (end: usize)
    requires
        start <= input.len(),
    ensures
        end == quote_at(input@, start as int),
        start <= end <= input.len(),
        end < input.len() ==> input@[end as int] == '"',
{
    let mut j: usize = start;
    while j < input.len() && input[j] != '"'
        invariant
            start <= j <= input.len(),
            quote_at(input@, start as int) == quote_at(input@, j as int),
        decreases input.len() - j,
    {
        j = j + 1;
    }
    j
}

/// Parses the commodity that starts at `start`.
pub fn commodity(input: &[char], start: usize) -> (r: Option<(Commodity, usize)>)
    ensures
        agrees(r, spec_commodity(input@, start as int)),
        r matches Some(x) ==> start <= x.1 <= input.len(),
        start <= input.len() ==> r is Some,
{
    if start > input.len() {
        return None;
    }
    if start < input.len() && currency_symbol(input[start]) {
        return Some((Commodity(copy_range(input, start, start + 1)), start + 1));
    }
    if start < input.len() && input[start] == '"' {
        let q = find_quote(input, start + 1);
        if q < input.len() {
            return Some((Commodity(copy_range(input, start + 1, q)), q + 1));
        }
    }
    let e = skip_run(input, start, CharClass::Letter);
    Some((Commodity(copy_range(input, start, e)), e))
}

} // verus!
