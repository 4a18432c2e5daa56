//! The context that a parse carries from one directive to the next.
use vstd::prelude::*;

verus! {

/// A mark that can separate digit groups or introduce the fraction.
#[derive(Clone, Copy, Debug, PartialEq, Eq)]
pub enum Separator {
    Period,
    Comma,
}

impl Separator {
    /// The character that writes the mark.
    pub open spec fn glyph(self) -> char {
        match self {
            Separator::Period => '.',
            Separator::Comma => ',',
        }
    }

    /// The other mark.
    pub open spec fn other(self) -> Separator {
        match self {
            Separator::Period => Separator::Comma,
            Separator::Comma => Separator::Period,
        }
    }

    /// The character that writes the mark.
    pub fn symbol(&self) -> (c: char)
        ensures
            c == self.glyph(),
    {
        match self {
            Separator::Period => '.',
            Separator::Comma => ',',
        }
    }

    /// The other mark.
    pub fn opposite(&self) -> (m: Separator)
        ensures
            m == self.other(),
    {
        match self {
            Separator::Period => Separator::Comma,
            Separator::Comma => Separator::Period,
        }
    }
}

/// What earlier directives of a document have fixed for the later ones.
#[derive(Clone, Copy, Debug, PartialEq, Eq)]
pub struct ParseState {
    /// The fraction mark, once a directive has fixed it.
    pub decimal_mark: Option<Separator>,
    /// The year of dates that are written without one.
    pub default_year: Option<u16>,
}

impl ParseState {
    /// The state at the start of a document: nothing is fixed.
    pub open spec fn fresh() -> ParseState {
        ParseState { decimal_mark: None, default_year: None }
    }

    /// The state at the start of a document.
    pub fn new() -> (st: ParseState)
        ensures
            st == ParseState::fresh(),
    {
        ParseState { decimal_mark: None, default_year: None }
    }
}

impl Default for ParseState {
    fn default() -> (st: ParseState)
        ensures
            st == ParseState::fresh(),
    {
        ParseState { decimal_mark: None, default_year: None }
    }
}

} // verus!
