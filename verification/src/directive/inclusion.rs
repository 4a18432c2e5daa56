//! The directive that names another file to read.
use crate::text::{
    agrees, at, copy_trimmed_end, literal, skip_until, text_end, trimmed_end, word_end,
};
use crate::utils::{end_of_line, eol, keyword, keyword_end};
use vstd::prelude::*;

verus! {

/// The formats that a named file can be declared to have.
#[derive(Clone, Copy, Debug, PartialEq, Eq)]
pub enum Format {
    Journal,
    Timeclock,
    Timedot,
    Csv,
    Ssv,
    Tsv,
    Rules,
}

impl DeepView for Format {
    type V = Format;

    open spec fn deep_view(&self) -> Format {
        *self
    }
}

/// The request to read another file. The path is recorded as written; no
/// file is opened.
#[derive(Clone, Debug, PartialEq, Eq)]
pub struct Include {
    pub format: Option<Format>,
    pub path: String,
}

/// The mathematical value of an [`Include`].
pub struct IncludeView {
    pub format: Option<Format>,
    pub path: Seq<char>,
}

impl DeepView for Include {
    type V = IncludeView;

    open spec fn deep_view(&self) -> IncludeView {
        IncludeView { format: self.format, path: self.path@ }
    }
}

/// The format `f` where its name `word` stands at `i`.
pub open spec fn format_word(s: Seq<char>, i: int, word: Seq<char>, f: Format) -> Option<
    (Format, int),
> {
    match word_end(s, i, word) {
        Some(e) => Some((f, e)),
        None => None,
    }
}

/// Ordered choice between two formats.
pub open spec fn format_or(a: Option<(Format, int)>, b: Option<(Format, int)>) -> Option<
    (Format, int),
> {
    if a is Some {
        a
    } else {
        b
    }
}

/// The format whose name stands at `i`.
#[verifier::opaque]
pub open spec fn spec_format(s: Seq<char>, i: int) -> Option<(Format, int)> {
    format_or(
        format_word(s, i, "journal"@, Format::Journal),
        format_or(
            format_word(s, i, "timeclock"@, Format::Timeclock),
            format_or(
                format_word(s, i, "timedot"@, Format::Timedot),
                format_or(
                    format_word(s, i, "csv"@, Format::Csv),
                    format_or(
                        format_word(s, i, "ssv"@, Format::Ssv),
                        format_or(
                            format_word(s, i, "tsv"@, Format::Tsv),
                            format_word(s, i, "rules"@, Format::Rules),
                        ),
                    ),
                ),
            ),
        ),
    )
}

fn word(input: &[char], start: usize, name: &str, f: Format) -> (r: Option<(Format, usize)>)
    ensures
        agrees(r, format_word(input@, start as int, name@, f)),
        r matches Some(x) ==> start <= x.1 <= input.len(),
{
    match literal(input, start, name) {
        Some(e) => Some((f, e)),
        None => None,
    }
}

/// Parses the name of a format at `start`.
pub fn format(input: &[char], start: usize) -> (r: Option<(Format, usize)>)
    ensures
        agrees(r, spec_format(input@, start as int)),
        r matches Some(x) ==> start <= x.1 <= input.len(),
{
    proof {
        reveal(spec_format);
    }
    if let Some(x) = word(input, start, "journal", Format::Journal) {
        return Some(x);
    }
    if let Some(x) = word(input, start, "timeclock", Format::Timeclock) {
        return Some(x);
    }
    if let Some(x) = word(input, start, "timedot", Format::Timedot) {
        return Some(x);
    }
    if let Some(x) = word(input, start, "csv", Format::Csv) {
        return Some(x);
    }
    if let Some(x) = word(input, start, "ssv", Format::Ssv) {
        return Some(x);
    }
    if let Some(x) = word(input, start, "tsv", Format::Tsv) {
        return Some(x);
    }
    word(input, start, "rules", Format::Rules)
}

/// The format prefix at `j`: the name of a format and a colon.
pub open spec fn format_prefix(s: Seq<char>, j: int) -> (Option<Format>, int) {
    match spec_format(s, j) {
        Some((f, e)) => if at(s, e, ':') {
            (Some(f), e + 1)
        } else {
            (None, j)
        },
        None => (None, j),
    }
}

/// The directive at `i`: the keyword, blanks, an optional format prefix, the
/// path up to `;` or the end of the line, trimmed at its end, and the rest
/// of the line.
pub open spec fn spec_include(s: Seq<char>, i: int) -> Option<(IncludeView, int)> {
    match keyword_end(s, i, "include"@) {
        Some(j) => {
            let f = format_prefix(s, j);
            let e = text_end(s, f.1, seq![';']);
            Some((IncludeView { format: f.0, path: trimmed_end(s, f.1, e) }, eol(s, e)))
        },
        None => None,
    }
}

/// Parses the directive that names another file, at `start`.
pub fn include_directive(input: &[char], start: usize) -> (r: Option<(Include, usize)>)
    ensures
        agrees(r, spec_include(input@, start as int)),
        r matches Some(x) ==> start < x.1 <= input.len(),
{
    match keyword(input, start, "include") {
        Some(j) => {
            let (fmt, from) = match format(input, j) {
                Some((f, e)) => {
                    if e < input.len() && input[e] == ':' {
                        (Some(f), e + 1)
                    } else {
                        (None, j)
                    }
                },
                None => (None, j),
            };
            let to = skip_until(input, from, ';');
            let path = copy_trimmed_end(input, from, to);
            let (_, end) = end_of_line(input, to);
            Some((Include { format: fmt, path }, end))
        },
        None => None,
    }
}

} // verus!
