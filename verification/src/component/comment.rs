//! Comments: to the end of a line, over several lines, and in blocks.
use crate::component::amount::blanks;
use crate::text::{
    agrees, append_range, at, copy_range, copy_trimmed, has_word_at, is_line_break, line_break,
    literal, newline, newline_end, skip_line, skip_run, text_end, trimmed, word_end, CharClass,
};
use vstd::prelude::*;

verus! {

/// The text of a comment, without the mark that introduces it.
#[derive(Clone, Debug, PartialEq, Eq)]
pub struct Comment(pub String);

impl DeepView for Comment {
    type V = Seq<char>;

    open spec fn deep_view(&self) -> Seq<char> {
        self.0@
    }
}

impl Comment {
    /// The comment with the text `s`.
    pub fn from_str(s: &str) -> (c: Comment)
        ensures
            c.deep_view() == s@,
    {
        Comment(s.to_owned())
    }
}

/// The end of the line that `i` stands in.
pub open spec fn line_end(s: Seq<char>, i: int) -> int {
    text_end(s, i, Seq::empty())
}

/// The line comment at `i`: `#` and the rest of the line.
pub open spec fn spec_line(s: Seq<char>, i: int) -> Option<(Seq<char>, int)> {
    if at(s, i, '#') {
        Some((s.subrange(i + 1, line_end(s, i + 1)), line_end(s, i + 1)))
    } else {
        None
    }
}

/// Parses the line comment that starts at `start`.
pub fn line(input: &[char], start: usize) -> (r: Option<(Comment, usize)>)
    ensures
        agrees(r, spec_line(input@, start as int)),
        r matches Some(x) ==> start < x.1 <= input.len(),
{
    if start < input.len() && input[start] == '#' {
        let e = skip_line(input, start + 1);
        Some((Comment(copy_range(input, start + 1, e)), e))
    } else {
        None
    }
}

/// Where the text of a continuation starts, if the line that ends at `j` is
/// followed by one: a line break, at least one blank, and `;`.
pub open spec fn continuation(s: Seq<char>, j: int) -> Option<int> {
    match newline_end(s, j) {
        Some(n) => if blanks(s, n) > n && at(s, blanks(s, n), ';') {
            Some(blanks(s, n) + 1)
        } else {
            None
        },
        None => None,
    }
}

/// What the continuation lines behind `j` add to a comment, each behind a
/// line feed, and where the last of them ends.
pub open spec fn inline_tail(s: Seq<char>, j: int) -> (Seq<char>, int)
    decreases s.len() - j,
{
    match continuation(s, j) {
        Some(t) => if j < t <= line_end(s, t) <= s.len() {
            (
                seq!['\n'] + s.subrange(t, line_end(s, t)) + inline_tail(s, line_end(s, t)).0,
                inline_tail(s, line_end(s, t)).1,
            )
        } else {
            (Seq::empty(), j)
        },
        None => (Seq::empty(), j),
    }
}

/// The comment at `i`: `;` and the rest of the line, with the continuation
/// lines that follow.
pub open spec fn spec_inline(s: Seq<char>, i: int) -> Option<(Seq<char>, int)> {
    if at(s, i, ';') {
        Some(
            (
                s.subrange(i + 1, line_end(s, i + 1)) + inline_tail(s, line_end(s, i + 1)).0,
                inline_tail(s, line_end(s, i + 1)).1,
            ),
        )
    } else {
        None
    }
}

fn continuation_at(input: &[char], j: usize) -> (r: Option<usize>)
    ensures
        crate::text::same_pos(r, continuation(input@, j as int)),
        r matches Some(t) ==> j < t <= input.len(),
{
    match newline(input, j) {
        Some(n) => {
            let b = skip_run(input, n, CharClass::Blank);
            if b > n && b < input.len() && input[b] == ';' {
                Some(b + 1)
            } else {
                None
            }
        },
        None => None,
    }
}

/// Parses the comment that starts at `start`, over all its continuation lines.
pub fn inline(input: &[char], start: usize) -> (r: Option<(Comment, usize)>)
    ensures
        agrees(r, spec_inline(input@, start as int)),
        r matches Some(x) ==> start < x.1 <= input.len(),
{
    if !(start < input.len() && input[start] == ';') {
        return None;
    }
    let first = skip_line(input, start + 1);
    let mut out = copy_range(input, start + 1, first);
    let mut cur: usize = first;
    let ghost head = out@;
    let ghost whole = inline_tail(input@, first as int);
    loop
        invariant
            start < cur <= input.len(),
            head + whole.0 == out@ + inline_tail(input@, cur as int).0,
            whole.1 == inline_tail(input@, cur as int).1,
        ensures
            head + whole.0 == out@,
            whole.1 == cur,
            start < cur <= input.len(),
        decreases input.len() - cur,
    {
        match continuation_at(input, cur) {
            Some(t) => {
                let e = skip_line(input, t);
                let ghost before = out@;
                out.push('\n');
                append_range(&mut out, input, t, e);
                proof {
                    assert(out@ + inline_tail(input@, e as int).0 =~= before + (seq!['\n']
                        + input@.subrange(t as int, e as int) + inline_tail(input@, e as int).0));
                }
                cur = e;
            },
            None => {
                proof {
                    assert(out@ + Seq::<char>::empty() =~= out@);
                }
                break ;
            },
        }
    }
    Some((Comment(out), cur))
}

/// The line that opens a block comment.
pub open spec fn block_opening() -> Seq<char> {
    "comment\n"@
}

/// The line that closes a block comment.
pub open spec fn block_closing() -> Seq<char> {
    "end comment\n"@
}

/// A line of a block goes on over the character at `i`: it ends before a
/// line break and before the closing line.
pub open spec fn in_block_line(s: Seq<char>, i: int) -> bool {
    0 <= i < s.len() && !is_line_break(s[i]) && !has_word_at(s, i, block_closing())
}

/// The end of the line of a block that starts at `i`.
pub open spec fn block_line_end(s: Seq<char>, i: int) -> int
    decreases s.len() - i,
{
    if in_block_line(s, i) {
        block_line_end(s, i + 1)
    } else {
        i
    }
}

/// The lines of a block from `i` on, joined by line feeds, and where they end.
pub open spec fn block_body(s: Seq<char>, i: int) -> (Seq<char>, int)
    decreases s.len() - i,
{
    let e = block_line_end(s, i);
    match newline_end(s, e) {
        Some(n) => if i <= e < n {
            (s.subrange(i, e) + seq!['\n'] + block_body(s, n).0, block_body(s, n).1)
        } else {
            (s.subrange(i, e), e)
        },
        None => (s.subrange(i, e), e),
    }
}

/// The block comment at `i`: the opening line, the lines of the body, the
/// closing line. Its text is the body, trimmed.
pub open spec fn spec_block(s: Seq<char>, i: int) -> Option<(Seq<char>, int)> {
    match word_end(s, i, block_opening()) {
        Some(b) => {
            let body = block_body(s, b);
            match word_end(s, body.1, block_closing()) {
                Some(e) => Some((trimmed(body.0, 0, body.0.len() as int), e)),
                None => None,
            }
        },
        None => None,
    }
}

fn skip_block_line(input: &[char], start: usize) -> (end: usize)
    requires
        start <= input.len(),
    ensures
        end == block_line_end(input@, start as int),
        start <= end <= input.len(),
{
    let mut j: usize = start;
    while j < input.len() && !line_break(input[j]) && literal(input, j, "end comment\n").is_none()
        invariant
            start <= j <= input.len(),
            block_line_end(input@, start as int) == block_line_end(input@, j as int),
        decreases input.len() - j,
    {
        j = j + 1;
    }
    j
}

fn push_range(out: &mut Vec<char>, input: &[char], from: usize, to: usize)
    requires
        from <= to <= input.len(),
    ensures
        final(out)@ == old(out)@ + input@.subrange(from as int, to as int),
{
    let mut k: usize = from;
    assert(out@ =~= old(out)@ + input@.subrange(from as int, from as int));
    while k < to
        invariant
            from <= k <= to <= input.len(),
            out@ == old(out)@ + input@.subrange(from as int, k as int),
        decreases to - k,
    {
        out.push(input[k]);
        proof {
            assert(out@ =~= old(out)@ + input@.subrange(from as int, k + 1));
        }
        k = k + 1;
    }
}

/// Parses the block comment that starts at `start`.
pub fn block(input: &[char], start: usize) -> (r: Option<(Comment, usize)>)
    ensures
        agrees(r, spec_block(input@, start as int)),
        r matches Some(x) ==> start <= x.1 <= input.len(),
{
    let body_start = match literal(input, start, "comment\n") {
        Some(b) => b,
        None => {
            return None;
        },
    };
    let mut buf: Vec<char> = Vec::new();
    let mut cur: usize = body_start;
    let ghost whole = block_body(input@, body_start as int);
    loop
        invariant_except_break
            whole.0 == buf@ + block_body(input@, cur as int).0,
            whole.1 == block_body(input@, cur as int).1,
        invariant
            start <= body_start <= cur <= input.len(),
        ensures
            whole.0 == buf@,
            whole.1 == cur,
            start <= cur <= input.len(),
        decreases input.len() - cur,
    {
        let e = skip_block_line(input, cur);
        let ghost before = buf@;
        push_range(&mut buf, input, cur, e);
        match newline(input, e) {
            Some(n) => {
                buf.push('\n');
                proof {
                    assert(buf@ + block_body(input@, n as int).0 =~= before + (input@.subrange(
                        cur as int,
                        e as int,
                    ) + seq!['\n'] + block_body(input@, n as int).0));
                }
                cur = n;
            },
            None => {
                proof {
                    assert(buf@ =~= before + block_body(input@, cur as int).0);
                }
                cur = e;
                break ;
            },
        }
    }
    match literal(input, cur, "end comment\n") {
        Some(e) => Some((Comment(copy_trimmed(buf.as_slice(), 0, buf.len())), e)),
        None => None,
    }
}

/// The comment line at `i`: `;`, the rest of the line, and the line break
/// that ends it. Its text is trimmed.
pub open spec fn spec_comment(s: Seq<char>, i: int) -> Option<(Seq<char>, int)> {
    if at(s, i, ';') {
        match newline_end(s, line_end(s, i + 1)) {
            Some(n) => Some((trimmed(s, i + 1, line_end(s, i + 1)), n)),
            None => None,
        }
    } else {
        None
    }
}

/// Parses the comment line that starts at `start`, with its line break.
pub fn comment(input: &[char], start: usize) -> (r: Option<(Comment, usize)>)
    ensures
        agrees(r, spec_comment(input@, start as int)),
        r matches Some(x) ==> start < x.1 <= input.len(),
{
    if start < input.len() && input[start] == ';' {
        let e = skip_line(input, start + 1);
        match newline(input, e) {
            Some(n) => Some((Comment(copy_trimmed(input, start + 1, e)), n)),
            None => None,
        }
    } else {
        None
    }
}

} // verus!
