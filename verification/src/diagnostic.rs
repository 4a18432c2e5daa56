//! What a parse reports: a place in the input and the reason.
use crate::text::{byte_offset, byte_position, lemma_byte_offset_grows};
use vstd::prelude::*;

verus! {

/// The two kinds of report.
#[derive(Clone, Copy, Debug, PartialEq, Eq)]
pub enum DiagnosticKind {
    /// The input does not follow the grammar at the span.
    Expected,
    /// The input follows the grammar, but a value is outside its domain.
    Custom,
}

/// Why a span is reported.
#[derive(Clone, Copy, Debug, PartialEq, Eq)]
pub enum Reason {
    /// Nothing that the grammar allows starts here.
    Unexpected,
    /// A number lies outside `low..=high`.
    OutOfRange { value: u16, low: u16, high: u16 },
}

/// One report: the characters from `start` up to `end`, and the reason.
#[derive(Clone, Copy, Debug, PartialEq, Eq)]
pub struct Diagnostic {
    pub start: usize,
    pub end: usize,
    pub reason: Reason,
}

/// The decimal digits of `n`, without leading zeros.
pub open spec fn decimal_text(n: nat) -> Seq<char>
    decreases n,
{
    if n < 10 {
        seq![(('0' as int) + n) as char]
    } else {
        decimal_text(n / 10).push((('0' as int) + n % 10) as char)
    }
}

/// The sentence that reports `value` outside `low..=high`.
pub open spec fn range_text(value: u16, low: u16, high: u16) -> Seq<char> {
    decimal_text(value as nat) + " must be between "@ + decimal_text(low as nat) + " and "@
        + decimal_text(high as nat) + "."@
}

/// The report on the number `value` read between `start` and `end`: one
/// diagnostic where it lies outside `low..=high`, none where it lies inside.
pub open spec fn range_check(value: u16, low: u16, high: u16, start: int, end: int) -> Seq<
    Diagnostic,
> {
    if low <= value <= high {
        Seq::empty()
    } else {
        seq![
            Diagnostic {
                start: start as usize,
                end: end as usize,
                reason: Reason::OutOfRange { value, low, high },
            },
        ]
    }
}

/// Every report of `reports` is about a span of a text of `len` characters.
pub open spec fn spans_within(reports: Seq<Diagnostic>, len: int) -> bool {
    forall|k: int|
        0 <= k < reports.len() ==> (#[trigger] reports[k]).start <= reports[k].end <= len
}

/// The report on a number that was read inside a text is about a span of that text.
pub proof fn lemma_range_check_within(
    value: u16,
    low: u16,
    high: u16,
    start: int,
    end: int,
    len: int,
)
    requires
        0 <= start <= end <= len <= usize::MAX,
    ensures
        spans_within(range_check(value, low, high, start, end), len),
{
}

/// Reports about spans of a text, put together, are about spans of that text.
pub proof fn lemma_spans_concat(a: Seq<Diagnostic>, b: Seq<Diagnostic>, len: int)
    requires
        spans_within(a, len),
        spans_within(b, len),
    ensures
        spans_within(a + b, len),
{
    assert forall|k: int| 0 <= k < (a + b).len() implies (#[trigger] (a + b)[k]).start <= (a
        + b)[k].end <= len by {
        if k < a.len() {
            assert((a + b)[k] == a[k]);
        } else {
            assert((a + b)[k] == b[k - a.len()]);
        }
    }
}

/// Appends to `out` the report on `value`, read between `start` and `end`.
pub fn check_range(
    out: &mut Vec<Diagnostic>,
    value: u16,
    low: u16,
    high: u16,
    start: usize,
    end: usize,
)
    ensures
        final(out)@ == old(out)@ + range_check(value, low, high, start as int, end as int),
{
    if low <= value && value <= high {
        assert(old(out)@ + Seq::<Diagnostic>::empty() =~= old(out)@);
    } else {
        out.push(Diagnostic { start, end, reason: Reason::OutOfRange { value, low, high } });
        assert(final(out)@ =~= old(out)@ + range_check(
            value,
            low,
            high,
            start as int,
            end as int,
        ));
    }
}

fn push_decimal(out: &mut String, n: u16)
    ensures
        final(out)@ == old(out)@ + decimal_text(n as nat),
    decreases n,
{
    if n < 10 {
        out.push(((('0' as u8) + (n as u8)) as char));
        assert(final(out)@ =~= old(out)@ + decimal_text(n as nat));
    } else {
        push_decimal(out, n / 10);
        out.push(((('0' as u8) + ((n % 10) as u8)) as char));
        assert(final(out)@ =~= old(out)@ + decimal_text(n as nat));
    }
}

impl Diagnostic {
    pub open spec fn spec_kind(self) -> DiagnosticKind {
        match self.reason {
            Reason::Unexpected => DiagnosticKind::Expected,
            Reason::OutOfRange { .. } => DiagnosticKind::Custom,
        }
    }

    pub open spec fn spec_message(self) -> Seq<char> {
        match self.reason {
            Reason::Unexpected => "unexpected input"@,
            Reason::OutOfRange { value, low, high } => range_text(value, low, high),
        }
    }

    /// The kind of the report.
    pub fn kind(&self) -> (k: DiagnosticKind)
        ensures
            k == self.spec_kind(),
    {
        match self.reason {
            Reason::Unexpected => DiagnosticKind::Expected,
            Reason::OutOfRange { .. } => DiagnosticKind::Custom,
        }
    }

    /// The reason in words.
    pub fn message(&self) -> (m: String)
        ensures
            m@ == self.spec_message(),
    {
        match self.reason {
            Reason::Unexpected => "unexpected input".to_owned(),
            Reason::OutOfRange { value, low, high } => {
                let mut out = String::new();
                push_decimal(&mut out, value);
                out.append(" must be between ");
                push_decimal(&mut out, low);
                out.append(" and ");
                push_decimal(&mut out, high);
                out.append(".");
                assert(out@ =~= range_text(value, low, high));
                out
            },
        }
    }
}

/// The number `n` as a machine word, or the largest word where it does not fit.
pub open spec fn clip(n: nat) -> usize {
    if n <= usize::MAX {
        n as usize
    } else {
        usize::MAX
    }
}

/// The report `d` on the text `s` with its span counted in bytes of UTF-8
/// where `d` counts characters.
pub open spec fn byte_span(s: Seq<char>, d: Diagnostic) -> Diagnostic {
    Diagnostic {
        start: clip(byte_offset(s, d.start as int)),
        end: clip(byte_offset(s, d.end as int)),
        reason: d.reason,
    }
}

/// The reports on the text `s` with their spans counted in bytes.
pub open spec fn byte_spans(s: Seq<char>, reports: Seq<Diagnostic>) -> Seq<Diagnostic> {
    Seq::new(reports.len(), |k: int| byte_span(s, reports[k]))
}

/// Spans within a text stay within it when they are counted in bytes.
pub proof fn lemma_byte_spans_within(s: Seq<char>, reports: Seq<Diagnostic>)
    requires
        spans_within(reports, s.len() as int),
    ensures
        spans_within(byte_spans(s, reports), clip(byte_offset(s, s.len() as int)) as int),
{
    assert forall|k: int| 0 <= k < reports.len() implies (#[trigger] byte_spans(
        s,
        reports,
    )[k]).start <= byte_spans(s, reports)[k].end <= clip(byte_offset(s, s.len() as int)) by {
        let d = reports[k];
        lemma_byte_offset_grows(s, d.start as int, d.end as int);
        lemma_byte_offset_grows(s, d.end as int, s.len() as int);
    }
}

fn position_in_bytes(input: &[char], index: usize) -> (r: usize)
    ensures
        r == clip(byte_offset(input@, index as int)),
{
    match byte_position(input, index) {
        Some(b) => b,
        None => usize::MAX,
    }
}

/// Counts the spans of `reports` on the text `input` in bytes of UTF-8.
pub fn in_bytes(input: &[char], reports: &Vec<Diagnostic>) -> (r: Vec<Diagnostic>)
    ensures
        r@ == byte_spans(input@, reports@),
{
    let mut out: Vec<Diagnostic> = Vec::new();
    let mut k: usize = 0;
    while k < reports.len()
        invariant
            k <= reports.len(),
            out@.len() == k,
            forall|m: int| 0 <= m < k ==> out@[m] == byte_span(input@, reports@[m]),
        decreases reports.len() - k,
    {
        let d = reports[k];
        out.push(
            Diagnostic {
                start: position_in_bytes(input, d.start),
                end: position_in_bytes(input, d.end),
                reason: d.reason,
            },
        );
        k = k + 1;
    }
    assert(out@ =~= byte_spans(input@, reports@));
    out
}

} // verus!
