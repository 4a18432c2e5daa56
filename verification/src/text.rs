//! Lexical primitives: character classes, runs, literals, line breaks and
//! the conversions between text and sequences of characters.
use vstd::prelude::*;
use vstd::std_specs::iter::IteratorSpec;

verus! {

/// Horizontal blank characters: space, tab and the no-break space.
pub open spec fn is_blank(c: char) -> bool {
    c == ' ' || c == '\t' || c == '\u{a0}'
}

/// ASCII decimal digits.
pub open spec fn is_digit(c: char) -> bool {
    '0' <= c && c <= '9'
}

/// Characters that end a line, alone or as the start of a line break.
pub open spec fn is_line_break(c: char) -> bool {
    c == '\n' || c == '\r' || c == '\u{b}' || c == '\u{c}' || c == '\u{85}' || c == '\u{2028}'
        || c == '\u{2029}'
}

/// Characters with the Unicode property `White_Space`.
pub open spec fn is_space(c: char) -> bool {
    ('\u{9}' <= c && c <= '\u{d}') || c == ' ' || c == '\u{85}' || c == '\u{a0}' || c == '\u{1680}'
        || ('\u{2000}' <= c && c <= '\u{200a}') || c == '\u{2028}' || c == '\u{2029}' || c
        == '\u{202f}' || c == '\u{205f}' || c == '\u{3000}'
}

/// Whether `c` has the Unicode property `Alphabetic`, as the standard
/// library's tables decide it.
pub uninterp spec fn alphabetic(c: char) -> bool;

/// `char::is_alphabetic` of the standard library: the answer is the
/// Unicode property `Alphabetic` of `c`, which is named here and not defined.
#[verifier::external_body]
fn letter(c: char) -> (r: bool)
    ensures
        r == alphabetic(c),
{
    c.is_alphabetic()
}

/// `String::push` of the standard library appends one character.
pub assume_specification[ String::push ](s: &mut String, c: char)
    ensures
        final(s)@ == old(s)@.push(c),
;

/// The character classes that the grammar repeats over.
#[derive(Clone, Copy, Debug, PartialEq, Eq)]
pub enum CharClass {
    Blank,
    Digit,
    Space,
    Letter,
}

impl CharClass {
    pub open spec fn holds(self, c: char) -> bool {
        match self {
            CharClass::Blank => is_blank(c),
            CharClass::Digit => is_digit(c),
            CharClass::Space => is_space(c),
            CharClass::Letter => alphabetic(c),
        }
    }

    /// Tells whether `c` belongs to the class.
    pub fn contains(&self, c: char) -> (r: bool)
        ensures
            r == self.holds(c),
    {
        match self {
            CharClass::Blank => c == ' ' || c == '\t' || c == '\u{a0}',
            CharClass::Digit => '0' <= c && c <= '9',
            CharClass::Space => ('\u{9}' <= c && c <= '\u{d}') || c == ' ' || c == '\u{85}' || c
                == '\u{a0}' || c == '\u{1680}' || ('\u{2000}' <= c && c <= '\u{200a}') || c
                == '\u{2028}' || c == '\u{2029}' || c == '\u{202f}' || c == '\u{205f}' || c
                == '\u{3000}',
            CharClass::Letter => letter(c),
        }
    }
}

/// `s` holds the character `c` at position `i`.
pub open spec fn at(s: Seq<char>, i: int, c: char) -> bool {
    0 <= i < s.len() && s[i] == c
}

/// The position after the longest run of characters of `class` that starts at `i`.
pub open spec fn run_end(s: Seq<char>, i: int, class: CharClass) -> int
    decreases s.len() - i,
{
    if 0 <= i < s.len() && class.holds(s[i]) {
        run_end(s, i + 1, class)
    } else {
        i
    }
}

/// A run ends where the input ends or at the first character outside the class.
pub proof fn lemma_run_end(s: Seq<char>, i: int, class: CharClass)
    requires
        0 <= i <= s.len(),
    ensures
        i <= run_end(s, i, class) <= s.len(),
        forall|k: int| i <= k < run_end(s, i, class) ==> class.holds(#[trigger] s[k]),
        run_end(s, i, class) < s.len() ==> !class.holds(s[run_end(s, i, class)]),
    decreases s.len() - i,
{
    if i < s.len() && class.holds(s[i]) {
        lemma_run_end(s, i + 1, class);
    }
}

/// Skips the longest run of characters of `class` from `start` on.
pub fn skip_run(input: &[char], start: usize, class: CharClass) -> (end: usize)
    ensures
        end == run_end(input@, start as int, class),
        start <= end,
        start <= input.len() ==> end <= input.len(),
{
    let mut j: usize = start;
    while j < input.len() && class.contains(input[j])
        invariant
            start <= j,
            start <= input.len() ==> j <= input.len(),
            run_end(input@, start as int, class) == run_end(input@, j as int, class),
        decreases input.len() - j,
    {
        j = j + 1;
    }
    j
}

/// The position after the longest run from `i` on of characters that neither
/// end a line nor occur in `stops`.
pub open spec fn text_end(s: Seq<char>, i: int, stops: Seq<char>) -> int
    decreases s.len() - i,
{
    if 0 <= i < s.len() && !is_line_break(s[i]) && !stops.contains(s[i]) {
        text_end(s, i + 1, stops)
    } else {
        i
    }
}

/// Tells whether `c` ends a line.
pub fn line_break(c: char) -> (r: bool)
    ensures
        r == is_line_break(c),
{
    c == '\n' || c == '\r' || c == '\u{b}' || c == '\u{c}' || c == '\u{85}' || c == '\u{2028}' || c
        == '\u{2029}'
}

/// Tells whether `c` occurs in `set`.
pub fn one_of(c: char, set: &[char]) -> (r: bool)
    ensures
        r == set@.contains(c),
{
    let mut k: usize = 0;
    while k < set.len()
        invariant
            k <= set.len(),
            forall|m: int| 0 <= m < k ==> set@[m] != c,
        decreases set.len() - k,
    {
        if set[k] == c {
            return true;
        }
        k = k + 1;
    }
    false
}

/// Skips text up to the end of the line or the first character of `stops`.
pub fn skip_text(input: &[char], start: usize, stops: &[char]) -> (end: usize)
    ensures
        end == text_end(input@, start as int, stops@),
        start <= end,
        start <= input.len() ==> end <= input.len(),
{
    let mut j: usize = start;
    while j < input.len() && !line_break(input[j]) && !one_of(input[j], stops)
        invariant
            start <= j,
            start <= input.len() ==> j <= input.len(),
            text_end(input@, start as int, stops@) == text_end(input@, j as int, stops@),
        decreases input.len() - j,
    {
        j = j + 1;
    }
    j
}

/// Skips text up to the end of the line.
pub fn skip_line(input: &[char], start: usize) -> (end: usize)
    ensures
        end == text_end(input@, start as int, Seq::empty()),
        start <= end,
        start <= input.len() ==> end <= input.len(),
{
    let stops: Vec<char> = Vec::new();
    skip_text(input, start, stops.as_slice())
}

/// Skips text up to the end of the line or the first `stop`.
pub fn skip_until(input: &[char], start: usize, stop: char) -> (end: usize)
    ensures
        end == text_end(input@, start as int, seq![stop]),
        start <= end,
        start <= input.len() ==> end <= input.len(),
{
    let mut stops: Vec<char> = Vec::new();
    stops.push(stop);
    assert(stops@ =~= seq![stop]);
    skip_text(input, start, stops.as_slice())
}

/// The position after a line break at `i`: a carriage return and a line
/// feed together, or one line-ending character.
pub open spec fn newline_end(s: Seq<char>, i: int) -> Option<int> {
    if at(s, i, '\r') && at(s, i + 1, '\n') {
        Some(i + 2)
    } else if 0 <= i < s.len() && is_line_break(s[i]) {
        Some(i + 1)
    } else {
        None
    }
}

/// An executable position agrees with a position of the model.
pub open spec fn same_pos(r: Option<usize>, e: Option<int>) -> bool {
    match (r, e) {
        (Some(a), Some(b)) => a == b,
        (None, None) => true,
        _ => false,
    }
}

/// An executable parse result agrees with the model's: both fail, or both
/// succeed with the same value and the same end.
pub open spec fn agrees<T: DeepView>(r: Option<(T, usize)>, e: Option<(T::V, int)>) -> bool {
    match (r, e) {
        (Some((v, j)), Some((w, k))) => v.deep_view() == w && j == k,
        (None, None) => true,
        _ => false,
    }
}

/// Recognises one line break at `start`.
pub fn newline(input: &[char], start: usize) -> (r: Option<usize>)
    ensures
        same_pos(r, newline_end(input@, start as int)),
        r matches Some(end) ==> start < end <= input.len(),
{
    if start >= input.len() {
        return None;
    }
    let c = input[start];
    if c == '\r' && start + 1 < input.len() && input[start + 1] == '\n' {
        Some(start + 2)
    } else if line_break(c) {
        Some(start + 1)
    } else {
        None
    }
}

/// `w` stands in `s` at position `i`.
pub open spec fn has_word_at(s: Seq<char>, i: int, w: Seq<char>) -> bool {
    0 <= i && i + w.len() <= s.len() && s.subrange(i, i + w.len()) == w
}

/// The position after the word `w` at `i`, where it stands there.
pub open spec fn word_end(s: Seq<char>, i: int, w: Seq<char>) -> Option<int> {
    if has_word_at(s, i, w) {
        Some(i + w.len())
    } else {
        None
    }
}

/// Recognises the fixed word `word` at `start`.
pub fn literal(input: &[char], start: usize, word: &str) -> (r: Option<usize>)
    ensures
        same_pos(r, word_end(input@, start as int, word@)),
        r matches Some(end) ==> start <= end <= input.len(),
{
    let n = word.unicode_len();
    if start > input.len() || n > input.len() - start {
        return None;
    }
    let mut k: usize = 0;
    while k < n
        invariant
            k <= n,
            n == word@.len(),
            start + n <= input.len(),
            forall|m: int| 0 <= m < k ==> input@[start + m] == word@[m],
        decreases n - k,
    {
        if input[start + k] != word.get_char(k) {
            proof {
                assert(input@.subrange(start as int, start + n)[k as int] == input@[start + k]);
            }
            return None;
        }
        k = k + 1;
    }
    proof {
        assert(input@.subrange(start as int, start + n) =~= word@);
    }
    Some(start + n)
}

/// Appends the characters of `input` from `from` up to `to` to `out`.
pub fn append_range(out: &mut String, input: &[char], from: usize, to: usize)
    requires
        from <= to <= input.len(),
    ensures
        final(out)@ == old(out)@ + input@.subrange(from as int, to as int),
{
    let mut k: usize = from;
    assert(out@ =~= old(out)@ + input@.subrange(from as int, from as int));
    while k < to
        invariant
            from <= k <= to <= input.len(),
            out@ == old(out)@ + input@.subrange(from as int, k as int),
        decreases to - k,
    {
        out.push(input[k]);
        proof {
            assert(input@.subrange(from as int, k + 1) =~= input@.subrange(
                from as int,
                k as int,
            ).push(input@[k as int]));
            assert(out@ =~= old(out)@ + input@.subrange(from as int, k + 1));
        }
        k = k + 1;
    }
}

/// Copies the characters of `input` from `from` up to `to` into a string.
pub fn copy_range(input: &[char], from: usize, to: usize) -> (r: String)
    requires
        from <= to <= input.len(),
    ensures
        r@ == input@.subrange(from as int, to as int),
{
    let mut out = String::new();
    append_range(&mut out, input, from, to);
    assert(out@ =~= input@.subrange(from as int, to as int));
    out
}

/// Where the text between `a` and `b` starts once leading white space is dropped.
pub open spec fn trim_start_at(s: Seq<char>, a: int, b: int) -> int
    decreases b - a,
{
    if 0 <= a < b <= s.len() && is_space(s[a]) {
        trim_start_at(s, a + 1, b)
    } else {
        a
    }
}

/// Where the text between `a` and `b` ends once trailing white space is dropped.
pub open spec fn trim_end_at(s: Seq<char>, a: int, b: int) -> int
    decreases b - a,
{
    if 0 <= a < b <= s.len() && is_space(s[b - 1]) {
        trim_end_at(s, a, b - 1)
    } else {
        b
    }
}

/// The text between `a` and `b` without trailing white space.
pub open spec fn trimmed_end(s: Seq<char>, a: int, b: int) -> Seq<char> {
    s.subrange(a, trim_end_at(s, a, b))
}

/// The text between `a` and `b` without leading and trailing white space.
pub open spec fn trimmed(s: Seq<char>, a: int, b: int) -> Seq<char> {
    trimmed_end(s, trim_start_at(s, a, b), b)
}

/// Finds where the text between `from` and `to` starts without leading white space.
pub fn trim_start(input: &[char], from: usize, to: usize) -> (r: usize)
    requires
        from <= to <= input.len(),
    ensures
        r == trim_start_at(input@, from as int, to as int),
        from <= r <= to,
{
    let mut a: usize = from;
    while a < to && CharClass::Space.contains(input[a])
        invariant
            from <= a <= to <= input.len(),
            trim_start_at(input@, from as int, to as int) == trim_start_at(
                input@,
                a as int,
                to as int,
            ),
        decreases to - a,
    {
        a = a + 1;
    }
    a
}

/// Finds where the text between `from` and `to` ends without trailing white space.
pub fn trim_end(input: &[char], from: usize, to: usize) -> (r: usize)
    requires
        from <= to <= input.len(),
    ensures
        r == trim_end_at(input@, from as int, to as int),
        from <= r <= to,
{
    let mut b: usize = to;
    while from < b && CharClass::Space.contains(input[b - 1])
        invariant
            from <= b <= to <= input.len(),
            trim_end_at(input@, from as int, to as int) == trim_end_at(
                input@,
                from as int,
                b as int,
            ),
        decreases b - from,
    {
        b = b - 1;
    }
    b
}

/// Copies the text between `from` and `to`, trimmed on both sides.
pub fn copy_trimmed(input: &[char], from: usize, to: usize) -> (r: String)
    requires
        from <= to <= input.len(),
    ensures
        r@ == trimmed(input@, from as int, to as int),
{
    let a = trim_start(input, from, to);
    let b = trim_end(input, a, to);
    copy_range(input, a, b)
}

/// Copies the text between `from` and `to`, trimmed at its end.
pub fn copy_trimmed_end(input: &[char], from: usize, to: usize) -> (r: String)
    requires
        from <= to <= input.len(),
    ensures
        r@ == trimmed_end(input@, from as int, to as int),
{
    let b = trim_end(input, from, to);
    copy_range(input, from, b)
}

/// The number that the digits of `t` spell, other characters left out.
pub open spec fn number_value(t: Seq<char>) -> nat
    decreases t.len(),
{
    if t.len() == 0 {
        0
    } else if is_digit(t.last()) {
        (number_value(t.drop_last()) * 10 + (t.last() as int - '0' as int)) as nat
    } else {
        number_value(t.drop_last())
    }
}

/// A longer text spells no smaller number than its beginning.
pub proof fn lemma_number_value_grows(s: Seq<char>, a: int, k: int, b: int)
    requires
        0 <= a <= k <= b <= s.len(),
    ensures
        number_value(s.subrange(a, k)) <= number_value(s.subrange(a, b)),
    decreases b - k,
{
    if k < b {
        lemma_number_value_grows(s, a, k, b - 1);
        assert(s.subrange(a, b).drop_last() =~= s.subrange(a, b - 1));
    }
}

/// Reads the number that the digits between `from` and `to` spell, where
/// it fits in 64 bits.
pub fn read_number(input: &[char], from: usize, to: usize) -> (r: Option<u64>)
    requires
        from <= to <= input.len(),
    ensures
        r matches Some(v) ==> v == number_value(input@.subrange(from as int, to as int)),
        r is None <==> number_value(input@.subrange(from as int, to as int)) > u64::MAX,
{
    let mut acc: u64 = 0;
    let mut k: usize = from;
    while k < to
        invariant
            from <= k <= to <= input.len(),
            acc == number_value(input@.subrange(from as int, k as int)),
        decreases to - k,
    {
        let c = input[k];
        proof {
            assert(input@.subrange(from as int, k + 1).drop_last() =~= input@.subrange(
                from as int,
                k as int,
            ));
            lemma_number_value_grows(input@, from as int, k + 1, to as int);
        }
        if '0' <= c && c <= '9' {
            let d: u64 = (c as u32 - '0' as u32) as u64;
            if acc > (u64::MAX - d) / 10 {
                return None;
            }
            acc = acc * 10 + d;
        }
        k = k + 1;
    }
    Some(acc)
}

/// Ten to the power `n`.
pub open spec fn pow10(n: nat) -> nat
    decreases n,
{
    if n == 0 {
        1
    } else {
        10 * pow10((n - 1) as nat)
    }
}

/// A text of `n` characters spells a number below ten to the power `n`.
pub proof fn lemma_number_value_bound(t: Seq<char>)
    ensures
        number_value(t) < pow10(t.len()),
    decreases t.len(),
{
    if t.len() > 0 {
        lemma_number_value_bound(t.drop_last());
    }
}

/// Reads the number that at most four characters spell.
pub fn read_small(input: &[char], from: usize, to: usize) -> (r: u16)
    requires
        from <= to <= input.len(),
        to - from <= 4,
    ensures
        r == number_value(input@.subrange(from as int, to as int)),
        r <= 9999,
{
    proof {
        let t = input@.subrange(from as int, to as int);
        lemma_number_value_bound(t);
        reveal_with_fuel(pow10, 5);
        assert(pow10(t.len()) <= 10000);
    }
    match read_number(input, from, to) {
        Some(v) => v as u16,
        None => 0,
    }
}

/// The number of bytes that UTF-8 takes for `c`.
pub open spec fn utf8_width(c: char) -> nat {
    if c <= '\u{7f}' {
        1
    } else if c <= '\u{7ff}' {
        2
    } else if c <= '\u{ffff}' {
        3
    } else {
        4
    }
}

/// The number of bytes that UTF-8 takes for the first `i` characters of
/// `s`, or for all of them where `s` has fewer.
pub open spec fn byte_offset(s: Seq<char>, i: int) -> nat
    decreases i,
{
    if i <= 0 {
        0
    } else if i > s.len() {
        byte_offset(s, s.len() as int)
    } else {
        byte_offset(s, i - 1) + utf8_width(s[i - 1])
    }
}

/// More characters take no fewer bytes.
pub proof fn lemma_byte_offset_grows(s: Seq<char>, i: int, j: int)
    requires
        0 <= i <= j <= s.len(),
    ensures
        byte_offset(s, i) <= byte_offset(s, j),
    decreases j - i,
{
    if i < j {
        lemma_byte_offset_grows(s, i, j - 1);
    }
}

/// Turns a position counted in characters into one counted in bytes of
/// UTF-8, where that fits in the machine's word.
pub fn byte_position(input: &[char], index: usize) -> (r: Option<usize>)
    ensures
        r matches Some(b) ==> b == byte_offset(input@, index as int),
        r is None <==> byte_offset(input@, index as int) > usize::MAX,
{
    let stop: usize = if index < input.len() {
        index
    } else {
        input.len()
    };
    let mut acc: usize = 0;
    let mut k: usize = 0;
    while k < stop
        invariant
            k <= stop <= input.len(),
            acc == byte_offset(input@, k as int),
            byte_offset(input@, stop as int) == byte_offset(input@, index as int),
        decreases stop - k,
    {
        let c = input[k];
        let width: usize = if c <= '\u{7f}' {
            1
        } else if c <= '\u{7ff}' {
            2
        } else if c <= '\u{ffff}' {
            3
        } else {
            4
        };
        proof {
            lemma_byte_offset_grows(input@, k + 1, stop as int);
        }
        if acc > usize::MAX - width {
            return None;
        }
        acc = acc + width;
        k = k + 1;
    }
    Some(acc)
}

/// The characters of a text, in order.
pub fn chars_of(text: &str) -> (r: Vec<char>)
    ensures
        r@ == text@,
{
    let mut out: Vec<char> = Vec::new();
    let mut it = text.chars();
    proof {
        broadcast use vstd::string::axiom_spec_iter;

    }
    loop
        invariant
            out@ + it.remaining() == text@,
            it.obeys_prophetic_iter_laws(),
            it.decrease() is Some,
        ensures
            out@ == text@,
        decreases it.decrease()->0,
    {
        proof {
            broadcast use vstd::string::next_postcondition;

        }
        match it.next() {
            Some(c) => {
                out.push(c);
            },
            None => {
                assert(it.remaining().len() == 0);
                break ;
            },
        }
    }
    out
}

} // verus!
