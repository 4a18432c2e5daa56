//! Numbers with grouping and fraction marks.
use crate::state::Separator;
use crate::text::{
    agrees, at, is_digit, lemma_run_end, number_value, read_number, run_end, skip_run, CharClass,
};
use vstd::prelude::*;

verus! {

/// An exact decimal number: `mantissa` divided by ten to the power `places`.
#[derive(Clone, Copy, Default, Debug, PartialEq, Eq)]
pub struct Quantity {
    pub mantissa: u64,
    pub places: u64,
}

impl DeepView for Quantity {
    type V = Quantity;

    open spec fn deep_view(&self) -> Quantity {
        *self
    }
}

impl Quantity {
    /// The whole number `number`.
    pub fn from_u64(number: u64) -> (q: Quantity)
        ensures
            q == (Quantity { mantissa: number, places: 0 }),
    {
        Quantity { mantissa: number, places: 0 }
    }
}

/// A digit stands at position `i`.
pub open spec fn digit_at(s: Seq<char>, i: int) -> bool {
    0 <= i < s.len() && is_digit(s[i])
}

/// The end of the leading group: one to three digits, as many as there are.
pub open spec fn lead_end(s: Seq<char>, i: int) -> Option<int> {
    if !digit_at(s, i) {
        None
    } else if !digit_at(s, i + 1) {
        Some(i + 1)
    } else if !digit_at(s, i + 2) {
        Some(i + 2)
    } else {
        Some(i + 3)
    }
}

/// The end of the groups of a mark and three digits that follow one another from `j` on.
pub open spec fn groups_end(s: Seq<char>, j: int, mark: char) -> int
    decreases s.len() - j,
{
    if at(s, j, mark) && digit_at(s, j + 1) && digit_at(s, j + 2) && digit_at(s, j + 3) {
        groups_end(s, j + 4, mark)
    } else {
        j
    }
}

/// The end of a grouped whole number: a leading group and at least one
/// group of three digits behind `mark`.
pub open spec fn thousands_end(s: Seq<char>, i: int, mark: char) -> Option<int> {
    match lead_end(s, i) {
        Some(j) => if groups_end(s, j, mark) > j {
            Some(groups_end(s, j, mark))
        } else {
            None
        },
        None => None,
    }
}

/// The end of a fraction: `mark` and the digits behind it, if any.
pub open spec fn fraction_end(s: Seq<char>, i: int, mark: char) -> Option<int> {
    if at(s, i, mark) {
        Some(run_end(s, i + 1, CharClass::Digit))
    } else {
        None
    }
}

/// Where a matched number ends and how many of its digits are fractional.
pub struct Shape {
    pub end: int,
    pub places: int,
}

/// Groups behind `group`, then a fraction behind `frac`.
pub open spec fn grouped_decimal(s: Seq<char>, i: int, group: char, frac: char) -> Option<Shape> {
    match thousands_end(s, i, group) {
        Some(t) => match fraction_end(s, t, frac) {
            Some(e) => Some(Shape { end: e, places: e - t - 1 }),
            None => None,
        },
        None => None,
    }
}

/// Groups behind `group` and no fraction. With `tie`, a single group counts
/// as three fractional digits.
pub open spec fn grouped(s: Seq<char>, i: int, group: char, tie: bool) -> Option<Shape> {
    match thousands_end(s, i, group) {
        Some(t) => Some(
            Shape { end: t, places: if tie && Some(t - 4) == lead_end(s, i) {
                3
            } else {
                0
            } },
        ),
        None => None,
    }
}

/// Digits, `frac`, and the digits behind it, if any.
pub open spec fn decimal(s: Seq<char>, i: int, frac: char) -> Option<Shape> {
    if digit_at(s, i) {
        let d = run_end(s, i, CharClass::Digit);
        match fraction_end(s, d, frac) {
            Some(e) => Some(Shape { end: e, places: e - d - 1 }),
            None => None,
        }
    } else {
        None
    }
}

/// `frac` and at least one digit behind it.
pub open spec fn bare_fraction(s: Seq<char>, i: int, frac: char) -> Option<Shape> {
    if at(s, i, frac) && digit_at(s, i + 1) {
        Some(
            Shape {
                end: run_end(s, i + 1, CharClass::Digit),
                places: run_end(s, i + 1, CharClass::Digit) - i - 1,
            },
        )
    } else {
        None
    }
}

/// Digits alone.
pub open spec fn plain(s: Seq<char>, i: int) -> Option<Shape> {
    if digit_at(s, i) {
        Some(Shape { end: run_end(s, i, CharClass::Digit), places: 0 })
    } else {
        None
    }
}

/// Ordered choice: the first alternative where it matched, else the second.
pub open spec fn first_of(a: Option<Shape>, b: Option<Shape>) -> Option<Shape> {
    if a is Some {
        a
    } else {
        b
    }
}

/// The alternatives while either mark may play either role, comma tried first.
#[verifier::opaque]
pub open spec fn free_shape(s: Seq<char>, i: int) -> Option<Shape> {
    first_of(
        first_of(grouped_decimal(s, i, ',', '.'), grouped_decimal(s, i, '.', ',')),
        first_of(
            first_of(grouped(s, i, ',', true), grouped(s, i, '.', true)),
            first_of(
                first_of(decimal(s, i, ','), decimal(s, i, '.')),
                first_of(first_of(bare_fraction(s, i, ','), bare_fraction(s, i, '.')), plain(s, i)),
            ),
        ),
    )
}

/// The alternatives once `frac` is the fraction mark and `group` the grouping mark.
#[verifier::opaque]
pub open spec fn fixed_shape(s: Seq<char>, i: int, group: char, frac: char) -> Option<Shape> {
    first_of(
        grouped_decimal(s, i, group, frac),
        first_of(
            grouped(s, i, group, false),
            first_of(decimal(s, i, frac), first_of(bare_fraction(s, i, frac), plain(s, i))),
        ),
    )
}

/// The shape of the number at `i` under the convention `mark`.
pub open spec fn quantity_shape(s: Seq<char>, i: int, mark: Option<Separator>) -> Option<Shape> {
    match mark {
        None => free_shape(s, i),
        Some(m) => fixed_shape(s, i, m.other().glyph(), m.glyph()),
    }
}

/// The number at `i`: its shape decides the end and the places, its digits
/// spell the mantissa, which must fit in 64 bits.
pub open spec fn spec_quantity(s: Seq<char>, i: int, mark: Option<Separator>) -> Option<
    (Quantity, int),
> {
    match quantity_shape(s, i, mark) {
        Some(shape) => if number_value(s.subrange(i, shape.end)) <= u64::MAX {
            Some(
                (
                    Quantity {
                        mantissa: number_value(s.subrange(i, shape.end)) as u64,
                        places: shape.places as u64,
                    },
                    shape.end,
                ),
            )
        } else {
            None
        },
        None => None,
    }
}

/// An executable shape agrees with the model's.
pub open spec fn same_shape(r: Option<(usize, usize)>, e: Option<Shape>) -> bool {
    match (r, e) {
        (Some((end, places)), Some(shape)) => end == shape.end && places == shape.places,
        (None, None) => true,
        _ => false,
    }
}

/// Tells whether a digit stands at position `i`.
pub fn digit_here(input: &[char], i: usize) -> (r: bool)
    ensures
        r == digit_at(input@, i as int),
        r ==> i < input.len(),
{
    i < input.len() && CharClass::Digit.contains(input[i])
}

fn mark_here(input: &[char], i: usize, mark: char) -> (r: bool)
    ensures
        r == at(input@, i as int, mark),
        r ==> i < input.len(),
{
    i < input.len() && input[i] == mark
}

fn lead(input: &[char], start: usize) -> (r: Option<usize>)
    ensures
        crate::text::same_pos(r, lead_end(input@, start as int)),
        r matches Some(j) ==> start < j <= input.len(),
{
    if !digit_here(input, start) {
        None
    } else if !digit_here(input, start + 1) {
        Some(start + 1)
    } else if !digit_here(input, start + 2) {
        Some(start + 2)
    } else {
        Some(start + 3)
    }
}

fn groups(input: &[char], start: usize, mark: char) -> (end: usize)
    requires
        start <= input.len(),
    ensures
        end == groups_end(input@, start as int, mark),
        start <= end <= input.len(),
{
    let mut j: usize = start;
    while j < input.len() && input.len() - j >= 4 && input[j] == mark && digit_here(input, j + 1)
        && digit_here(input, j + 2) && digit_here(input, j + 3)
        invariant
            start <= j <= input.len(),
            groups_end(input@, start as int, mark) == groups_end(input@, j as int, mark),
        decreases input.len() - j,
    {
        j = j + 4;
    }
    j
}

fn thousands(input: &[char], start: usize, mark: char) -> (r: Option<usize>)
    ensures
        crate::text::same_pos(r, thousands_end(input@, start as int, mark)),
        r matches Some(j) ==> start < j <= input.len(),
{
    match lead(input, start) {
        Some(j) => {
            let e = groups(input, j, mark);
            if e > j {
                Some(e)
            } else {
                None
            }
        },
        None => None,
    }
}

fn fraction(input: &[char], start: usize, mark: char) -> (r: Option<usize>)
    ensures
        crate::text::same_pos(r, fraction_end(input@, start as int, mark)),
        r matches Some(j) ==> start < j <= input.len(),
{
    if mark_here(input, start, mark) {
        Some(skip_run(input, start + 1, CharClass::Digit))
    } else {
        None
    }
}

fn match_grouped_decimal(input: &[char], start: usize, group: char, frac: char) -> (r: Option<
    (usize, usize),
>)
    ensures
        same_shape(r, grouped_decimal(input@, start as int, group, frac)),
        r matches Some(x) ==> start < x.0 <= input.len(),
{
    match thousands(input, start, group) {
        Some(t) => match fraction(input, t, frac) {
            Some(e) => Some((e, e - t - 1)),
            None => None,
        },
        None => None,
    }
}

fn match_grouped(input: &[char], start: usize, group: char, tie: bool) -> (r: Option<
    (usize, usize),
>)
    ensures
        same_shape(r, grouped(input@, start as int, group, tie)),
        r matches Some(x) ==> start < x.0 <= input.len(),
{
    match thousands(input, start, group) {
        Some(t) => {
            let single = match lead(input, start) {
                Some(j) => t - j == 4,
                None => false,
            };
            let places: usize = if tie && single {
                3
            } else {
                0
            };
            Some((t, places))
        },
        None => None,
    }
}

fn match_decimal(input: &[char], start: usize, frac: char) -> (r: Option<(usize, usize)>)
    ensures
        same_shape(r, decimal(input@, start as int, frac)),
        r matches Some(x) ==> start < x.0 <= input.len(),
{
    if digit_here(input, start) {
        let d = skip_run(input, start, CharClass::Digit);
        match fraction(input, d, frac) {
            Some(e) => Some((e, e - d - 1)),
            None => None,
        }
    } else {
        None
    }
}

fn match_bare_fraction(input: &[char], start: usize, frac: char) -> (r: Option<(usize, usize)>)
    ensures
        same_shape(r, bare_fraction(input@, start as int, frac)),
        r matches Some(x) ==> start < x.0 <= input.len(),
{
    if mark_here(input, start, frac) && digit_here(input, start + 1) {
        let e = skip_run(input, start + 1, CharClass::Digit);
        Some((e, e - start - 1))
    } else {
        None
    }
}

fn match_plain(input: &[char], start: usize) -> (r: Option<(usize, usize)>)
    ensures
        same_shape(r, plain(input@, start as int)),
        r matches Some(x) ==> start < x.0 <= input.len(),
{
    if digit_here(input, start) {
        proof {
            lemma_run_end(input@, start as int + 1, CharClass::Digit);
        }
        Some((skip_run(input, start, CharClass::Digit), 0))
    } else {
        None
    }
}

fn match_free(input: &[char], start: usize) -> (r: Option<(usize, usize)>)
    ensures
        same_shape(r, free_shape(input@, start as int)),
        r matches Some(x) ==> start < x.0 <= input.len(),
{
    proof {
        reveal(free_shape);
    }
    if let Some(x) = match_grouped_decimal(input, start, ',', '.') {
        return Some(x);
    }
    if let Some(x) = match_grouped_decimal(input, start, '.', ',') {
        return Some(x);
    }
    if let Some(x) = match_grouped(input, start, ',', true) {
        return Some(x);
    }
    if let Some(x) = match_grouped(input, start, '.', true) {
        return Some(x);
    }
    if let Some(x) = match_decimal(input, start, ',') {
        return Some(x);
    }
    if let Some(x) = match_decimal(input, start, '.') {
        return Some(x);
    }
    if let Some(x) = match_bare_fraction(input, start, ',') {
        return Some(x);
    }
    if let Some(x) = match_bare_fraction(input, start, '.') {
        return Some(x);
    }
    match_plain(input, start)
}

fn match_fixed(input: &[char], start: usize, group: char, frac: char) -> (r: Option<
    (usize, usize),
>)
    ensures
        same_shape(r, fixed_shape(input@, start as int, group, frac)),
        r matches Some(x) ==> start < x.0 <= input.len(),
{
    proof {
        reveal(fixed_shape);
    }
    if let Some(x) = match_grouped_decimal(input, start, group, frac) {
        return Some(x);
    }
    if let Some(x) = match_grouped(input, start, group, false) {
        return Some(x);
    }
    if let Some(x) = match_decimal(input, start, frac) {
        return Some(x);
    }
    if let Some(x) = match_bare_fraction(input, start, frac) {
        return Some(x);
    }
    match_plain(input, start)
}

/// Parses the number that starts at `start`. Without a fixed decimal mark both
/// marks are tried in either role; with one, the other mark only groups.
pub fn quantity(input: &[char], start: usize, mark: Option<Separator>) -> (r: Option<
    (Quantity, usize),
>)
    ensures
        agrees(r, spec_quantity(input@, start as int, mark)),
        r matches Some(x) ==> start < x.1 <= input.len(),
{
    let shape = match mark {
        None => match_free(input, start),
        Some(m) => match_fixed(input, start, m.opposite().symbol(), m.symbol()),
    };
    match shape {
        Some((end, places)) => match read_number(input, start, end) {
            Some(mantissa) => Some((Quantity { mantissa, places: places as u64 }, end)),
            None => None,
        },
        None => None,
    }
}

/// The other mark for a mark, any other character unchanged.
pub open spec fn swap_mark(c: char) -> char {
    if c == '.' {
        ','
    } else if c == ',' {
        '.'
    } else {
        c
    }
}

/// The text `s` with every period written as a comma and every comma as a period.
pub open spec fn swap_marks(s: Seq<char>) -> Seq<char> {
    Seq::new(s.len(), |k: int| swap_mark(s[k]))
}

/// The convention with the roles of the two marks exchanged.
pub open spec fn swap_convention(mark: Option<Separator>) -> Option<Separator> {
    match mark {
        Some(m) => Some(m.other()),
        None => None,
    }
}

proof fn lemma_swap_digits(s: Seq<char>, i: int)
    ensures
        run_end(swap_marks(s), i, CharClass::Digit) == run_end(s, i, CharClass::Digit),
    decreases s.len() - i,
{
    if 0 <= i < s.len() && is_digit(s[i]) {
        lemma_swap_digits(s, i + 1);
    }
}

proof fn lemma_swap_groups(s: Seq<char>, j: int, mark: char)
    requires
        mark == '.' || mark == ',',
    ensures
        groups_end(swap_marks(s), j, swap_mark(mark)) == groups_end(s, j, mark),
    decreases s.len() - j,
{
    if at(s, j, mark) && digit_at(s, j + 1) && digit_at(s, j + 2) && digit_at(s, j + 3) {
        lemma_swap_groups(s, j + 4, mark);
    }
}

proof fn lemma_swap_value(s: Seq<char>, i: int, e: int)
    requires
        0 <= i <= e <= s.len(),
    ensures
        number_value(swap_marks(s).subrange(i, e)) == number_value(s.subrange(i, e)),
    decreases e - i,
{
    if i < e {
        lemma_swap_value(s, i, e - 1);
        assert(swap_marks(s).subrange(i, e).drop_last() =~= swap_marks(s).subrange(i, e - 1));
        assert(s.subrange(i, e).drop_last() =~= s.subrange(i, e - 1));
    }
}

proof fn lemma_swap_alternatives(s: Seq<char>, i: int, group: char, frac: char)
    requires
        group == '.' || group == ',',
        frac == '.' || frac == ',',
    ensures
        grouped_decimal(swap_marks(s), i, swap_mark(group), swap_mark(frac)) == grouped_decimal(
            s,
            i,
            group,
            frac,
        ),
        grouped(swap_marks(s), i, swap_mark(group), true) == grouped(s, i, group, true),
        grouped(swap_marks(s), i, swap_mark(group), false) == grouped(s, i, group, false),
        decimal(swap_marks(s), i, swap_mark(frac)) == decimal(s, i, frac),
        bare_fraction(swap_marks(s), i, swap_mark(frac)) == bare_fraction(s, i, frac),
        plain(swap_marks(s), i) == plain(s, i),
{
    let t = swap_marks(s);
    lemma_swap_digits(s, i);
    lemma_swap_digits(s, i + 1);
    assert(lead_end(t, i) == lead_end(s, i));
    if lead_end(s, i) is Some {
        let j = lead_end(s, i).unwrap();
        lemma_swap_groups(s, j, group);
        lemma_swap_digits(s, groups_end(s, j, group) + 1);
    }
    lemma_swap_digits(s, run_end(s, i, CharClass::Digit) + 1);
}

proof fn lemma_shape_in_bounds(s: Seq<char>, i: int, mark: Option<Separator>)
    ensures
        quantity_shape(s, i, mark) matches Some(shape) ==> 0 <= i < shape.end <= s.len() && 0
            <= shape.places < shape.end - i,
{
    reveal(free_shape);
    reveal(fixed_shape);
    if 0 <= i < s.len() {
        lemma_run_end(s, i, CharClass::Digit);
        lemma_run_end(s, i + 1, CharClass::Digit);
        if lead_end(s, i) is Some {
            let j = lead_end(s, i).unwrap();
            lemma_groups_in_bounds(s, j, ',');
            lemma_groups_in_bounds(s, j, '.');
            if groups_end(s, j, ',') < s.len() {
                lemma_run_end(s, groups_end(s, j, ',') + 1, CharClass::Digit);
            }
            if groups_end(s, j, '.') < s.len() {
                lemma_run_end(s, groups_end(s, j, '.') + 1, CharClass::Digit);
            }
        }
        if run_end(s, i, CharClass::Digit) < s.len() {
            lemma_run_end(s, run_end(s, i, CharClass::Digit) + 1, CharClass::Digit);
        }
    }
}

proof fn lemma_groups_in_bounds(s: Seq<char>, j: int, mark: char)
    requires
        0 <= j <= s.len(),
    ensures
        j <= groups_end(s, j, mark) <= s.len(),
    decreases s.len() - j,
{
    if at(s, j, mark) && digit_at(s, j + 1) && digit_at(s, j + 2) && digit_at(s, j + 3) {
        lemma_groups_in_bounds(s, j + 4, mark);
    }
}

/// Separator-role symmetry: a text in which every period is written as a
/// comma and every comma as a period, read under the convention with the
/// roles exchanged, gives the same quantity and ends at the same place.
pub proof fn lemma_separator_symmetry(s: Seq<char>, i: int, mark: Option<Separator>)
    ensures
        spec_quantity(swap_marks(s), i, swap_convention(mark)) == spec_quantity(s, i, mark),
{
    let t = swap_marks(s);
    reveal(free_shape);
    reveal(fixed_shape);
    lemma_swap_alternatives(s, i, ',', '.');
    lemma_swap_alternatives(s, i, '.', ',');
    assert(quantity_shape(t, i, swap_convention(mark)) == quantity_shape(s, i, mark));
    lemma_shape_in_bounds(s, i, mark);
    if quantity_shape(s, i, mark) is Some {
        lemma_swap_value(s, i, quantity_shape(s, i, mark).unwrap().end);
    }
}

/// Under a fixed convention only its mark introduces a fraction: a
/// quantity with fractional digits has that mark right before them.
pub proof fn lemma_fixed_mark_is_the_fraction_mark(s: Seq<char>, i: int, m: Separator)
    requires
        s.len() <= usize::MAX,
    ensures
        spec_quantity(s, i, Some(m)) matches Some((q, end)) ==> q.places > 0 ==> at(
            s,
            end - q.places - 1,
            m.glyph(),
        ),
{
    reveal(fixed_shape);
    lemma_shape_in_bounds(s, i, Some(m));
    if quantity_shape(s, i, Some(m)) is Some {
        let shape = quantity_shape(s, i, Some(m)).unwrap();
        assert(shape.places as u64 == shape.places);
        if shape.places > 0 {
            assert(at(s, shape.end - shape.places - 1, m.glyph()));
        }
    }
}

/// The places of a quantity count digits that were read behind a mark:
/// the match lies inside the text and is longer than its fractional part;
/// where there are places, a mark stands right before them, and they are
/// digits, all of them.
pub proof fn lemma_places_within_match(s: Seq<char>, i: int, mark: Option<Separator>)
    requires
        s.len() <= usize::MAX,
    ensures
        spec_quantity(s, i, mark) matches Some((q, end)) ==> {
            &&& 0 <= i < end <= s.len()
            &&& q.places < end - i
            &&& q.places > 0 ==> at(s, end - q.places - 1, '.') || at(s, end - q.places - 1, ',')
            &&& forall|k: int| end - q.places <= k < end ==> digit_at(s, k)
        },
{
    reveal(free_shape);
    reveal(fixed_shape);
    lemma_shape_in_bounds(s, i, mark);
    if quantity_shape(s, i, mark) is Some {
        let shape = quantity_shape(s, i, mark).unwrap();
        assert(shape.places as u64 == shape.places);
        let start = shape.end - shape.places;
        if shape.places > 0 {
            if lead_end(s, i) is Some {
                lemma_groups_end_are_digits(s, lead_end(s, i).unwrap(), ',');
                lemma_groups_end_are_digits(s, lead_end(s, i).unwrap(), '.');
            }
            lemma_run_end(s, start, CharClass::Digit);
            assert(forall|k: int| start <= k < shape.end ==> digit_at(s, k));
        }
    }
}

proof fn lemma_groups_end_are_digits(s: Seq<char>, j: int, mark: char)
    requires
        0 <= j <= s.len(),
    ensures
        groups_end(s, j, mark) > j ==> digit_at(s, groups_end(s, j, mark) - 1) && digit_at(
            s,
            groups_end(s, j, mark) - 2,
        ) && digit_at(s, groups_end(s, j, mark) - 3) && at(s, groups_end(s, j, mark) - 4, mark),
    decreases s.len() - j,
{
    if at(s, j, mark) && digit_at(s, j + 1) && digit_at(s, j + 2) && digit_at(s, j + 3) {
        lemma_groups_in_bounds(s, j + 4, mark);
        lemma_groups_end_are_digits(s, j + 4, mark);
    }
}

} // verus!
