//! UTF-16 code-unit accounting over character sequences.
//!
//! A view's text is modelled as a sequence of characters, while the platform
//! addresses it by UTF-16 code-unit offsets. A character occupies one code
//! unit, or two when its code point lies beyond the basic multilingual plane.
//! An offset is a *boundary* when it coincides with the end of a character
//! prefix; offsets that fall between the two units of one character must be
//! rounded outward before use.

use vstd::prelude::*;

verus! {

/// Number of UTF-16 code units one character occupies.
pub open spec fn char_units(c: char) -> int {
    if c as u32 >= 0x10000 {
        2
    } else {
        1
    }
}

/// Total number of UTF-16 code units of a character sequence.
pub open spec fn units_of(s: Seq<char>) -> int
    decreases s.len(),
{
    if s.len() == 0 {
        0
    } else {
        char_units(s[0]) + units_of(s.drop_first())
    }
}

/// Number of whole characters of `s` that fit at or below code-unit offset
/// `off`: the largest character index whose prefix measures at most `off`
/// units. Offsets past the end of the text yield the full character count.
pub open spec fn floor_chars(s: Seq<char>, off: int) -> int
    decreases s.len(),
{
    if s.len() == 0 || off < char_units(s[0]) {
        0
    } else {
        1 + floor_chars(s.drop_first(), off - char_units(s[0]))
    }
}

/// The largest character boundary at or below `off`, clamped into the text.
pub open spec fn snap_down(s: Seq<char>, off: int) -> int {
    units_of(s.take(floor_chars(s, off)))
}

/// Character index whose prefix ends at the smallest boundary at or above
/// `off`, clamped into the text.
pub open spec fn ceil_chars(s: Seq<char>, off: int) -> int {
    let f = floor_chars(s, off);
    if f == s.len() || units_of(s.take(f)) == off {
        f
    } else {
        f + 1
    }
}

/// The smallest character boundary at or above `off`, clamped into the text.
pub open spec fn snap_up(s: Seq<char>, off: int) -> int {
    units_of(s.take(ceil_chars(s, off)))
}

/// `off` lies on a character boundary of `s` (both text ends included).
pub open spec fn is_boundary(s: Seq<char>, off: int) -> bool {
    0 <= off <= units_of(s) && snap_down(s, off) == off
}

/// A sequence measures at least one unit per character and at most two.
pub proof fn lemma_units_bounds(s: Seq<char>)
    ensures
        s.len() <= units_of(s) <= 2 * s.len(),
    decreases s.len(),
{
    if s.len() > 0 {
        lemma_units_bounds(s.drop_first());
    }
}

/// Code-unit counting distributes over concatenation.
pub proof fn lemma_units_concat(a: Seq<char>, b: Seq<char>)
    ensures
        units_of(a + b) == units_of(a) + units_of(b),
    decreases a.len(),
{
    if a.len() == 0 {
        assert(a + b =~= b);
    } else {
        assert((a + b).drop_first() =~= a.drop_first() + b);
        lemma_units_concat(a.drop_first(), b);
    }
}

/// A singleton sequence measures exactly its character's units.
pub proof fn lemma_units_singleton(c: char)
    ensures
        units_of(seq![c]) == char_units(c),
{
    reveal_with_fuel(units_of, 2);
    assert(seq![c].len() == 1);
    assert(seq![c][0] == c);
    assert(seq![c].drop_first() =~= Seq::<char>::empty());
}

/// Extending a prefix by one character adds that character's units.
pub proof fn lemma_units_take_succ(s: Seq<char>, i: int)
    requires
        0 <= i < s.len(),
    ensures
        units_of(s.take(i + 1)) == units_of(s.take(i)) + char_units(s[i]),
{
    assert(s.take(i + 1) =~= s.take(i) + seq![s[i]]);
    lemma_units_concat(s.take(i), seq![s[i]]);
    lemma_units_singleton(s[i]);
}

/// Longer prefixes measure more units, at least one per extra character.
pub proof fn lemma_units_take_mono(s: Seq<char>, i: int, j: int)
    requires
        0 <= i <= j <= s.len(),
    ensures
        units_of(s.take(i)) + (j - i) <= units_of(s.take(j)),
{
    assert(s.take(j) =~= s.take(i) + s.subrange(i, j));
    lemma_units_concat(s.take(i), s.subrange(i, j));
    lemma_units_bounds(s.subrange(i, j));
}

/// A mid-sequence span measures the difference of its two prefixes.
pub proof fn lemma_units_subrange(s: Seq<char>, i: int, j: int)
    requires
        0 <= i <= j <= s.len(),
    ensures
        units_of(s.subrange(i, j)) == units_of(s.take(j)) - units_of(s.take(i)),
{
    assert(s.take(j) =~= s.take(i) + s.subrange(i, j));
    lemma_units_concat(s.take(i), s.subrange(i, j));
}

/// Peeling the first character off a prefix of length `i + 1`.
pub proof fn lemma_take_shift(s: Seq<char>, i: int)
    requires
        0 <= i,
        i + 1 <= s.len(),
    ensures
        units_of(s.take(i + 1)) == char_units(s[0]) + units_of(s.drop_first().take(i)),
{
    assert(s.take(i + 1) =~= seq![s[0]] + s.drop_first().take(i));
    lemma_units_concat(seq![s[0]], s.drop_first().take(i));
    lemma_units_singleton(s[0]);
}

/// The floor character count is within the text, its prefix measures at most
/// `off` units, and the next character (when there is one) ends past `off`.
pub proof fn lemma_floor_props(s: Seq<char>, off: int)
    requires
        0 <= off,
    ensures
        0 <= floor_chars(s, off) <= s.len(),
        units_of(s.take(floor_chars(s, off))) <= off,
        floor_chars(s, off) < s.len() ==> off < units_of(s.take(floor_chars(s, off) + 1)),
    decreases s.len(),
{
    if s.len() == 0 {
        assert(s.take(0) =~= Seq::<char>::empty());
    } else if off < char_units(s[0]) {
        assert(s.take(0) =~= Seq::<char>::empty());
        assert(s.take(1) =~= seq![s[0]]);
        lemma_units_singleton(s[0]);
    } else {
        let cu = char_units(s[0]);
        let f = floor_chars(s.drop_first(), off - cu);
        lemma_floor_props(s.drop_first(), off - cu);
        lemma_take_shift(s, f);
        if f + 1 < s.len() {
            lemma_take_shift(s, f + 1);
        }
    }
}

/// Floors are monotone in the requested offset.
pub proof fn lemma_floor_mono(s: Seq<char>, off1: int, off2: int)
    requires
        0 <= off1 <= off2,
    ensures
        floor_chars(s, off1) <= floor_chars(s, off2),
    decreases s.len(),
{
    lemma_floor_props(s, off2);
    if s.len() > 0 && off1 >= char_units(s[0]) {
        lemma_floor_mono(s.drop_first(), off1 - char_units(s[0]), off2 - char_units(s[0]));
    }
}

/// The floor of a prefix's own measure is exactly that prefix's length.
pub proof fn lemma_floor_at_boundary(s: Seq<char>, i: int)
    requires
        0 <= i <= s.len(),
    ensures
        floor_chars(s, units_of(s.take(i))) == i,
    decreases i,
{
    if i == 0 {
        assert(s.take(0) =~= Seq::<char>::empty());
        if s.len() > 0 {
            assert(char_units(s[0]) >= 1);
        }
    } else {
        let u = units_of(s.take(i));
        let cu = char_units(s[0]);
        lemma_take_shift(s, i - 1);
        assert(u == cu + units_of(s.drop_first().take(i - 1)));
        lemma_units_bounds(s.drop_first().take(i - 1));
        lemma_floor_at_boundary(s.drop_first(), i - 1);
    }
}

/// Every prefix's measure is a boundary.
pub proof fn lemma_prefix_units_is_boundary(s: Seq<char>, i: int)
    requires
        0 <= i <= s.len(),
    ensures
        is_boundary(s, units_of(s.take(i))),
        floor_chars(s, units_of(s.take(i))) == i,
{
    lemma_floor_at_boundary(s, i);
    lemma_units_bounds(s.take(i));
    lemma_units_take_mono(s, i, s.len() as int);
    assert(s.take(s.len() as int) =~= s);
}

/// Snapping a well-formed request rounds the start down and the end up, to
/// boundaries, clamped into the text, keeping the two ends ordered.
pub proof fn lemma_snap_range(s: Seq<char>, start: int, end: int)
    requires
        0 <= start <= end,
    ensures
        is_boundary(s, snap_down(s, start)),
        is_boundary(s, snap_up(s, end)),
        snap_down(s, start) <= start,
        snap_down(s, start) <= snap_up(s, end),
        end <= units_of(s) ==> end <= snap_up(s, end),
        snap_up(s, end) <= units_of(s),
        0 <= floor_chars(s, start) <= ceil_chars(s, end) <= s.len(),
        is_boundary(s, start) ==> snap_down(s, start) == start,
        is_boundary(s, end) ==> snap_up(s, end) == end && ceil_chars(s, end) == floor_chars(
            s,
            end,
        ),
{
    let fs = floor_chars(s, start);
    let fe = floor_chars(s, end);
    let ce = ceil_chars(s, end);
    lemma_floor_props(s, start);
    lemma_floor_props(s, end);
    lemma_floor_mono(s, start, end);
    lemma_prefix_units_is_boundary(s, fs);
    lemma_prefix_units_is_boundary(s, ce);
    lemma_units_take_mono(s, fs, ce);
    lemma_units_take_mono(s, ce, s.len() as int);
    assert(s.take(s.len() as int) =~= s);
    if ce == fe + 1 {
        lemma_units_take_mono(s, fe, ce);
    }
}

/// Number of UTF-16 code units of one character, computed.
pub fn char_utf16_len(c: char) -> (n: usize)
    ensures
        n == char_units(c),
{
    if c as u32 >= 0x10000 {
        2
    } else {
        1
    }
}

/// Total number of UTF-16 code units of a string's characters.
pub fn str_utf16_len(s: &str) -> (n: usize)
    requires
        units_of(s@) <= usize::MAX,
    ensures
        n == units_of(s@),
{
    let chars = s.unicode_len();
    let mut i: usize = 0;
    let mut units: usize = 0;
    while i < chars
        invariant
            0 <= i <= chars,
            chars == s@.len(),
            units == units_of(s@.take(i as int)),
            units_of(s@) <= usize::MAX,
        decreases chars - i,
    {
        let cu = char_utf16_len(s.get_char(i));
        proof {
            lemma_units_take_succ(s@, i as int);
            lemma_units_take_mono(s@, i as int + 1, s@.len() as int);
            assert(s@.take(s@.len() as int) =~= s@);
        }
        units = units + cu;
        i = i + 1;
    }
    proof {
        assert(s@.take(chars as int) =~= s@);
    }
    units
}

/// Finds the floor boundary for `off`: the index of the first character that
/// ends past `off` (or the character count when none does), together with the
/// measure of the prefix before it.
pub fn floor_boundary(s: &str, off: usize) -> (r: (usize, usize))
    ensures
        r.0 == floor_chars(s@, off as int),
        r.1 == units_of(s@.take(r.0 as int)),
        r.1 <= off,
{
    let chars = s.unicode_len();
    let mut i: usize = 0;
    let mut units: usize = 0;
    proof {
        assert(s@.skip(0) =~= s@);
    }
    while i < chars
        invariant
            0 <= i <= chars,
            chars == s@.len(),
            units == units_of(s@.take(i as int)),
            units <= off,
            floor_chars(s@, off as int) == i + floor_chars(s@.skip(i as int), off - units),
        decreases chars - i,
    {
        let c = s.get_char(i);
        let cu = char_utf16_len(c);
        proof {
            assert(s@.skip(i as int)[0] == s@[i as int]);
        }
        if cu > off - units {
            proof {
                assert(floor_chars(s@.skip(i as int), off - units) == 0);
            }
            return (i, units);
        }
        proof {
            assert(s@.skip(i as int).drop_first() =~= s@.skip(i as int + 1));
            assert(floor_chars(s@.skip(i as int), off - units) == 1 + floor_chars(
                s@.skip(i as int + 1),
                off - units - cu,
            ));
            lemma_units_take_succ(s@, i as int);
        }
        units = units + cu;
        i = i + 1;
    }
    proof {
        assert(s@.skip(chars as int) =~= Seq::<char>::empty());
        assert(s@.take(chars as int) =~= s@);
    }
    (i, units)
}

/// Finds the ceiling boundary for `off`: the character index whose prefix
/// ends at the smallest boundary at or above `off` (clamped into the text),
/// together with that boundary.
pub fn ceil_boundary(s: &str, off: usize) -> (r: (usize, usize))
    requires
        units_of(s@) <= usize::MAX,
    ensures
        r.0 == ceil_chars(s@, off as int),
        r.1 == units_of(s@.take(r.0 as int)),
        r.1 == snap_up(s@, off as int),
{
    let chars = s.unicode_len();
    let (f, u) = floor_boundary(s, off);
    if f == chars || u == off {
        (f, u)
    } else {
        proof {
            lemma_floor_props(s@, off as int);
        }
        let cu = char_utf16_len(s.get_char(f));
        proof {
            lemma_units_take_succ(s@, f as int);
            lemma_units_take_mono(s@, f as int + 1, s@.len() as int);
            assert(s@.take(s@.len() as int) =~= s@);
        }
        (f + 1, u + cu)
    }
}

} // verus!
