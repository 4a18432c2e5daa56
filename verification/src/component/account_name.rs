//! Account names: segments separated by colons.
use crate::text::{agrees, at, copy_trimmed, is_line_break, line_break, trimmed};
use vstd::prelude::*;

pub mod part;

verus! {

/// The segments of an account's name, outermost first.
#[derive(Clone, Debug, PartialEq, Eq)]
pub struct AccountName(pub Vec<String>);

impl DeepView for AccountName {
    type V = Seq<Seq<char>>;

    open spec fn deep_view(&self) -> Seq<Seq<char>> {
        self.0.deep_view()
    }
}

impl AccountName {
    /// The account whose segments are `parts`.
    pub fn from_strs(parts: &[String]) -> (r: AccountName)
        ensures
            r.deep_view() == parts.deep_view(),
    {
        let mut out: Vec<String> = Vec::new();
        let mut k: usize = 0;
        while k < parts.len()
            invariant
                k <= parts.len(),
                out.len() == k,
                forall|m: int| 0 <= m < k ==> out@[m]@ == parts@[m]@,
            decreases parts.len() - k,
        {
            out.push(parts[k].clone());
            k = k + 1;
        }
        assert(out.deep_view() =~= parts.deep_view());
        AccountName(out)
    }

    /// The number of segments.
    pub fn len(&self) -> (n: usize)
        ensures
            n == self.deep_view().len(),
    {
        self.0.len()
    }
}

/// A segment goes on over the character at `i`: it ends before a line
/// break, a colon and two spaces in a row, and inside parentheses before the
/// closing one.
pub open spec fn in_segment(s: Seq<char>, i: int, closed: bool) -> bool {
    0 <= i < s.len() && !is_line_break(s[i]) && s[i] != ':' && !(s[i] == ' ' && at(s, i + 1, ' '))
        && !(closed && s[i] == ')')
}

/// The end of the segment that starts at `i`.
pub open spec fn segment_end(s: Seq<char>, i: int, closed: bool) -> int
    decreases s.len() - i,
{
    if in_segment(s, i, closed) {
        segment_end(s, i + 1, closed)
    } else {
        i
    }
}

/// The trimmed segments from `i` on, and where the last one ends. Behind a
/// colon the name goes on only where the next segment is not empty.
pub open spec fn segments_from(s: Seq<char>, i: int, closed: bool) -> (Seq<Seq<char>>, int)
    decreases s.len() - i,
{
    let e = segment_end(s, i, closed);
    if i <= e && at(s, e, ':') && in_segment(s, e + 1, closed) {
        (
            seq![trimmed(s, i, e)] + segments_from(s, e + 1, closed).0,
            segments_from(s, e + 1, closed).1,
        )
    } else {
        (seq![trimmed(s, i, e)], e)
    }
}

/// The account name at `i`: at least one segment, none of them empty before trimming.
pub open spec fn spec_account_name(s: Seq<char>, i: int, closed: bool) -> Option<
    (Seq<Seq<char>>, int),
> {
    if in_segment(s, i, closed) {
        Some(segments_from(s, i, closed))
    } else {
        None
    }
}

/// A segment ends inside the text, at or behind its start.
pub proof fn lemma_segment_end(s: Seq<char>, i: int, closed: bool)
    requires
        0 <= i <= s.len(),
    ensures
        i <= segment_end(s, i, closed) <= s.len(),
    decreases s.len() - i,
{
    if in_segment(s, i, closed) {
        lemma_segment_end(s, i + 1, closed);
    }
}

fn segment_here(input: &[char], i: usize, closed: bool) -> (r: bool)
    ensures
        r == in_segment(input@, i as int, closed),
        r ==> i < input.len(),
{
    if i >= input.len() {
        return false;
    }
    let c = input[i];
    !line_break(c) && c != ':' && !(c == ' ' && i + 1 < input.len() && input[i + 1] == ' ') && !(
    closed && c == ')')
}

/// Skips the segment that starts at `start`.
pub fn skip_segment(input: &[char], start: usize, closed: bool) -> (end: usize)
    requires
        start <= input.len(),
    ensures
        end == segment_end(input@, start as int, closed),
        start <= end <= input.len(),
{
    let mut j: usize = start;
    while segment_here(input, j, closed)
        invariant
            start <= j <= input.len(),
            segment_end(input@, start as int, closed) == segment_end(input@, j as int, closed),
        decreases input.len() - j,
    {
        j = j + 1;
    }
    j
}

/// Parses the account name that starts at `start`. With `closed`, the name
/// stands in parentheses and its segments end before the closing one.
pub fn account_name(input: &[char], start: usize, closed: bool) -> (r: Option<
    (AccountName, usize),
>)
    ensures
        agrees(r, spec_account_name(input@, start as int, closed)),
        r matches Some(x) ==> start < x.1 <= input.len() && x.0.deep_view().len() > 0,
{
    if !segment_here(input, start, closed) {
        return None;
    }
    let mut parts: Vec<String> = Vec::new();
    let mut cur: usize = start;
    let ghost whole = segments_from(input@, start as int, closed);
    loop
        invariant
            start <= cur < input.len(),
            in_segment(input@, cur as int, closed),
            in_segment(input@, start as int, closed),
            whole.0 == parts.deep_view() + segments_from(input@, cur as int, closed).0,
            whole.1 == segments_from(input@, cur as int, closed).1,
            whole == segments_from(input@, start as int, closed),
        decreases input.len() - cur,
    {
        let e = skip_segment(input, cur, closed);
        proof {
            lemma_segment_end(input@, cur + 1, closed);
        }
        let ghost before = parts.deep_view();
        parts.push(copy_trimmed(input, cur, e));
        proof {
            assert(parts.deep_view() =~= before + seq![trimmed(input@, cur as int, e as int)]);
        }
        if e < input.len() && input[e] == ':' && segment_here(input, e + 1, closed) {
            proof {
                assert(whole.0 =~= parts.deep_view() + segments_from(
                    input@,
                    e + 1,
                    closed,
                ).0);
            }
            cur = e + 1;
        } else {
            proof {
                assert(segments_from(input@, cur as int, closed).0 =~= seq![
                    trimmed(input@, cur as int, e as int),
                ]);
                assert(whole.0 =~= parts.deep_view());
                assert(parts.deep_view().len() > 0);
            }
            return Some((AccountName(parts), e));
        }
    }
}

} // verus!
