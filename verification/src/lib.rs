//! A parser for plain-text accounting journals: dates, accounts,
//! transactions, postings, commodities, prices, comments and directives.
use crate::component::comment::line_end;
use crate::diagnostic::{
    byte_spans, clip, in_bytes, lemma_byte_spans_within, spans_within, Diagnostic, Reason,
};
use crate::directive::{directives, spec_directives, Directive, DirectiveView, Document};
use crate::state::ParseState;
use crate::text::{byte_offset, chars_of, newline, newline_end, skip_line};
use vstd::prelude::*;

pub mod component;
pub mod diagnostic;
pub mod directive;
pub mod state;
pub mod text;
pub mod utils;

verus! {

/// The report on the place `at` where neither an item nor a line break
/// could be read.
pub open spec fn stuck_at(at: int) -> Diagnostic {
    Diagnostic { start: at as usize, end: (at + 1) as usize, reason: Reason::Unexpected }
}

/// The whole text from `i` on. Items are read as far as line breaks
/// separate them. Where they stop before the end of the text, that place is
/// reported, the rest of its line is left out, and reading goes on behind
/// the next line break, under the state that was reached.
pub open spec fn spec_document(s: Seq<char>, i: int, state: ParseState) -> Document
    decreases s.len() - i,
{
    let run = spec_directives(s, i, state);
    if 0 <= run.end < s.len() {
        match newline_end(s, line_end(s, run.end)) {
            Some(n) => if i < n <= s.len() {
                let rest = spec_document(s, n, run.state);
                Document {
                    directives: run.directives + rest.directives,
                    diagnostics: run.diagnostics.push(stuck_at(run.end)) + rest.diagnostics,
                    state: rest.state,
                    end: rest.end,
                }
            } else {
                Document {
                    directives: run.directives,
                    diagnostics: run.diagnostics.push(stuck_at(run.end)),
                    state: run.state,
                    end: line_end(s, run.end),
                }
            },
            None => Document {
                directives: run.directives,
                diagnostics: run.diagnostics.push(stuck_at(run.end)),
                state: run.state,
                end: line_end(s, run.end),
            },
        }
    } else {
        run
    }
}

/// What parsing the text `s` gives: its directives, read from the start
/// under a fresh state, where there is nothing to report; else the reports,
/// in the order of the text.
pub open spec fn spec_parse(s: Seq<char>) -> Result<Seq<DirectiveView>, Seq<Diagnostic>> {
    let doc = spec_document(s, 0, ParseState::fresh());
    if doc.diagnostics.len() == 0 {
        Ok(doc.directives)
    } else {
        Err(doc.diagnostics)
    }
}

/// The result `r` is what parsing `s` gives.
pub open spec fn is_parse_of(s: Seq<char>, r: Result<Vec<Directive>, Vec<Diagnostic>>) -> bool {
    match r {
        Ok(found) => spec_parse(s) == Ok::<Seq<DirectiveView>, Seq<Diagnostic>>(
            found.deep_view(),
        ),
        Err(reports) => spec_parse(s) == Err::<Seq<DirectiveView>, Seq<Diagnostic>>(reports@),
    }
}

/// Reads the whole text from `start` on and returns its directives. Every
/// place where reading stopped is reported in `diagnostics`, with the
/// reports on dates and times, in the order of the text.
pub fn document(
    input: &[char],
    start: usize,
    state: &mut ParseState,
    diagnostics: &mut Vec<Diagnostic>,
) -> (r: Vec<Directive>)
    ensures
        r.deep_view() == spec_document(input@, start as int, *old(state)).directives,
        *final(state) == spec_document(input@, start as int, *old(state)).state,
        final(diagnostics)@ == old(diagnostics)@ + spec_document(
            input@,
            start as int,
            *old(state),
        ).diagnostics,
        spans_within(old(diagnostics)@, input.len() as int) ==> spans_within(
            final(diagnostics)@,
            input.len() as int,
        ),
{
    let mut out: Vec<Directive> = Vec::new();
    let mut cur: usize = start;
    let ghost whole = spec_document(input@, start as int, *state);
    let ghost reported = diagnostics@;
    assert(out.deep_view() =~= Seq::<DirectiveView>::empty());
    assert(Seq::<DirectiveView>::empty() + whole.directives =~= whole.directives);
    loop
        invariant_except_break
            whole.directives == out.deep_view() + spec_document(
                input@,
                cur as int,
                *state,
            ).directives,
            reported + whole.diagnostics == diagnostics@ + spec_document(
                input@,
                cur as int,
                *state,
            ).diagnostics,
            whole.state == spec_document(input@, cur as int, *state).state,
        invariant
            start <= cur,
            start <= input.len() ==> cur <= input.len(),
            spans_within(reported, input.len() as int) ==> spans_within(
                diagnostics@,
                input.len() as int,
            ),
        ensures
            whole.directives == out.deep_view(),
            reported + whole.diagnostics == diagnostics@,
            whole.state == *state,
        decreases input.len() - cur,
    {
        let ghost before = out.deep_view();
        let ghost told = diagnostics@;
        let ghost st = *state;
        let ghost run = spec_directives(input@, cur as int, st);
        let ghost here = spec_document(input@, cur as int, st);
        let (mut found, end) = directives(input, cur, state, diagnostics);
        let ghost added = found.deep_view();
        out.append(&mut found);
        proof {
            assert(out.deep_view() =~= before + added);
            assert(diagnostics@ =~= told + run.diagnostics);
        }
        if end >= input.len() {
            proof {
                assert(whole.directives =~= out.deep_view());
                assert(reported + whole.diagnostics =~= diagnostics@);
            }
            break ;
        }
        diagnostics.push(Diagnostic { start: end, end: end + 1, reason: Reason::Unexpected });
        proof {
            assert(diagnostics@ =~= told + run.diagnostics.push(stuck_at(end as int)));
        }
        match newline(input, skip_line(input, end)) {
            Some(n) => {
                proof {
                    let rest = spec_document(input@, n as int, *state);
                    assert(here.directives =~= run.directives + rest.directives);
                    assert(whole.directives =~= out.deep_view() + rest.directives);
                    assert(reported + whole.diagnostics =~= diagnostics@ + rest.diagnostics);
                }
                cur = n;
            },
            None => {
                proof {
                    assert(whole.directives =~= out.deep_view());
                    assert(reported + whole.diagnostics =~= diagnostics@);
                }
                break ;
            },
        }
    }
    out
}

/// Parses the characters of a journal. A failed parse reports at least one
/// span; the spans count characters and lie within the text.
pub fn parse_chars(input: &[char]) -> (r: Result<Vec<Directive>, Vec<Diagnostic>>)
    ensures
        is_parse_of(input@, r),
        r matches Err(reports) ==> reports@.len() > 0 && spans_within(
            reports@,
            input.len() as int,
        ),
{
    let mut state = ParseState::new();
    let mut reports: Vec<Diagnostic> = Vec::new();
    let found = document(input, 0, &mut state, &mut reports);
    assert(reports@ =~= spec_document(input@, 0, ParseState::fresh()).diagnostics);
    if reports.len() == 0 {
        Ok(found)
    } else {
        Err(reports)
    }
}

/// What parsing the text `s` gives, with the spans of the reports counted
/// in bytes of UTF-8.
pub open spec fn spec_parse_text(s: Seq<char>) -> Result<Seq<DirectiveView>, Seq<Diagnostic>> {
    match spec_parse(s) {
        Ok(found) => Ok(found),
        Err(reports) => Err(byte_spans(s, reports)),
    }
}

/// The result `r` is what parsing the text `s` gives.
pub open spec fn is_parse_of_text(s: Seq<char>, r: Result<Vec<Directive>, Vec<Diagnostic>>) -> bool {
    match r {
        Ok(found) => spec_parse_text(s) == Ok::<Seq<DirectiveView>, Seq<Diagnostic>>(
            found.deep_view(),
        ),
        Err(reports) => spec_parse_text(s) == Err::<Seq<DirectiveView>, Seq<Diagnostic>>(
            reports@,
        ),
    }
}

/// Parses a journal. A failed parse reports at least one span; the spans
/// count bytes of the text and lie within it.
pub fn parse(contents: &str) -> (r: Result<Vec<Directive>, Vec<Diagnostic>>)
    ensures
        is_parse_of_text(contents@, r),
        r matches Err(reports) ==> reports@.len() > 0 && spans_within(
            reports@,
            clip(byte_offset(contents@, contents@.len() as int)) as int,
        ),
{
    let input = chars_of(contents);
    match parse_chars(input.as_slice()) {
        Ok(found) => Ok(found),
        Err(reports) => {
            proof {
                lemma_byte_spans_within(input@, reports@);
            }
            Err(in_bytes(input.as_slice(), &reports))
        },
    }
}

/// Parsing is a function of the text: two results for the same text, each
/// read from the start under a fresh state, hold the same directives, or
/// the same reports.
pub proof fn lemma_parse_is_a_function(
    s: Seq<char>,
    first: Result<Vec<Directive>, Vec<Diagnostic>>,
    second: Result<Vec<Directive>, Vec<Diagnostic>>,
)
    requires
        is_parse_of_text(s, first),
        is_parse_of_text(s, second),
    ensures
        first is Ok <==> second is Ok,
        first is Ok ==> first->Ok_0.deep_view() == second->Ok_0.deep_view(),
        first is Err ==> first->Err_0@ == second->Err_0@,
{
}

} // verus!
