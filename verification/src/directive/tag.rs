//! The `tag` directive.
use crate::text::{agrees, copy_trimmed_end, skip_text, text_end, trimmed_end};
use crate::utils::{end_of_line, eol, keyword, keyword_end};
use vstd::prelude::*;

verus! {

/// The declaration of a tag.
#[derive(Clone, Debug, PartialEq, Eq)]
pub struct Tag(pub String);

impl DeepView for Tag {
    type V = Seq<char>;

    open spec fn deep_view(&self) -> Seq<char> {
        self.0@
    }
}

/// The characters that end the name of a tag, besides the end of the line.
pub open spec fn tag_stops() -> Seq<char> {
    seq![';', ' ', '\t', '\u{a0}']
}

/// The directive at `i`: `tag`, blanks, a name without blanks that is not
/// empty, and the rest of the line.
pub open spec fn spec_tag(s: Seq<char>, i: int) -> Option<(Seq<char>, int)> {
    match keyword_end(s, i, "tag"@) {
        Some(j) => {
            let e = text_end(s, j, tag_stops());
            if e > j {
                Some((trimmed_end(s, j, e), eol(s, e)))
            } else {
                None
            }
        },
        None => None,
    }
}

/// Parses the `tag` directive that starts at `start`.
pub fn tag(input: &[char], start: usize) -> (r: Option<(Tag, usize)>)
    ensures
        agrees(r, spec_tag(input@, start as int)),
        r matches Some(x) ==> start < x.1 <= input.len(),
{
    match keyword(input, start, "tag") {
        Some(j) => {
            let mut stops: Vec<char> = Vec::new();
            stops.push(';');
            stops.push(' ');
            stops.push('\t');
            stops.push('\u{a0}');
            assert(stops@ =~= tag_stops());
            let e = skip_text(input, j, stops.as_slice());
            if e > j {
                let (_, end) = end_of_line(input, e);
                Some((Tag(copy_trimmed_end(input, j, e)), end))
            } else {
                None
            }
        },
        None => None,
    }
}

} // verus!
