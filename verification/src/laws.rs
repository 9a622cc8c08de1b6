//! Laws of the two directions: what holds of every numeral and of every
//! value, proved from the definitions of the reading rule and of the
//! canonical text.

use crate::format::{block_text, greatest_block, is_block, roman_text};
use crate::parse::{all_letters, contribution, numeral_value, partial_value};
use crate::symbol::{ascii_lower, is_numeral_letter, magnitude};
use vstd::prelude::*;

verus! {

// ---------------------------------------------------------------------------
// The reading rule
// ---------------------------------------------------------------------------

/// The case of a letter does not matter to the symbol table.
pub proof fn lemma_magnitude_ignores_case(c: char)
    ensures
        magnitude(ascii_lower(c)) == magnitude(c),
{
}

/// A single character has the value that the symbol table gives it, and is
/// a numeral exactly where it is a numeral letter.
pub proof fn lemma_single_letter(c: char)
    ensures
        numeral_value(seq![c]) == magnitude(c),
        all_letters(seq![c]) <==> is_numeral_letter(c),
{
    reveal_with_fuel(partial_value, 2);
    let s = seq![c];
    assert(s[0] == c);
}

/// A letter repeated counts each time: no position of a run of equal
/// letters is taken away.
pub proof fn lemma_repeated_letter(c: char, n: nat)
    ensures
        numeral_value(Seq::new(n, |i: int| c)) == n * magnitude(c),
{
    let s = Seq::new(n, |i: int| c);
    lemma_constant_partial_value(s, c, n as int);
}

proof fn lemma_constant_partial_value(s: Seq<char>, c: char, k: int)
    requires
        0 <= k <= s.len(),
        forall|i: int| 0 <= i < s.len() ==> s[i] == c,
    ensures
        partial_value(s, k) == k * magnitude(c),
    decreases k,
{
    if k > 0 {
        lemma_constant_partial_value(s, c, k - 1);
        assert(contribution(s, k - 1) == magnitude(c));
        assert(k * magnitude(c) == (k - 1) * magnitude(c) + magnitude(c)) by (nonlinear_arith);
    }
}

/// Two numerals that differ only in the case of their letters are both
/// made of numeral letters or both not, and have the same value.
pub proof fn lemma_case_insensitive(s: Seq<char>, t: Seq<char>)
    requires
        s.len() == t.len(),
        forall|i: int| 0 <= i < s.len() ==> ascii_lower(s[i]) == ascii_lower(t[i]),
    ensures
        all_letters(s) <==> all_letters(t),
        numeral_value(s) == numeral_value(t),
{
    assert forall|i: int| 0 <= i < s.len() implies magnitude(#[trigger] s[i]) == magnitude(
        t[i],
    ) by {
        lemma_magnitude_ignores_case(s[i]);
        lemma_magnitude_ignores_case(t[i]);
    }
    if all_letters(s) {
        assert forall|i: int| 0 <= i < t.len() implies is_numeral_letter(#[trigger] t[i]) by {
            assert(is_numeral_letter(s[i]));
        }
    }
    if all_letters(t) {
        assert forall|i: int| 0 <= i < s.len() implies is_numeral_letter(#[trigger] s[i]) by {
            assert(is_numeral_letter(t[i]));
        }
    }
    lemma_same_magnitudes_same_value(s, t, s.len() as int);
}

proof fn lemma_same_magnitudes_same_value(s: Seq<char>, t: Seq<char>, k: int)
    requires
        s.len() == t.len(),
        0 <= k <= s.len(),
        forall|i: int| 0 <= i < s.len() ==> magnitude(#[trigger] s[i]) == magnitude(t[i]),
    ensures
        partial_value(s, k) == partial_value(t, k),
    decreases k,
{
    if k > 0 {
        lemma_same_magnitudes_same_value(s, t, k - 1);
        assert(magnitude(s[k - 1]) == magnitude(t[k - 1]));
        if k < s.len() {
            assert(magnitude(s[k]) == magnitude(t[k]));
        }
    }
}

/// No letter counts for more than 1000, in either direction: the value of a
/// numeral of `n` characters lies between `-1000 * n` and `1000 * n`. A
/// string of at most `i64::MAX / 1000` characters therefore has a value
/// that an `i64` holds.
pub proof fn lemma_value_bounds(s: Seq<char>)
    ensures
        -1000 * s.len() <= numeral_value(s) <= 1000 * s.len(),
{
    lemma_partial_value_bounds(s, s.len() as int);
}

proof fn lemma_partial_value_bounds(s: Seq<char>, n: int)
    requires
        0 <= n,
    ensures
        -1000 * n <= partial_value(s, n) <= 1000 * n,
    decreases n,
{
    if n > 0 {
        lemma_partial_value_bounds(s, n - 1);
    }
}

/// The contributions of the first `n + 1` positions are that of the first
/// position and those of the first `n` positions of the rest.
proof fn lemma_partial_value_front(s: Seq<char>, n: int)
    requires
        0 <= n < s.len(),
    ensures
        partial_value(s, n + 1) == contribution(s, 0) + partial_value(s.drop_first(), n),
    decreases n,
{
    if n > 0 {
        lemma_partial_value_front(s, n - 1);
        let rest = s.drop_first();
        assert(rest[n - 1] == s[n]);
        if n < rest.len() {
            assert(rest[n] == s[n + 1]);
        }
        assert(contribution(rest, n - 1) == contribution(s, n));
    } else {
        assert(partial_value(s, 0) == 0);
    }
}

/// A numeral made of numeral letters is worth at least its first letter,
/// and so at least 1: where a letter is taken away, the letter that follows
/// it is at least twice as great.
pub proof fn lemma_value_at_least_first(s: Seq<char>)
    requires
        s.len() > 0,
        all_letters(s),
    ensures
        numeral_value(s) >= magnitude(s[0]),
        numeral_value(s) >= 1,
    decreases s.len(),
{
    let rest = s.drop_first();
    lemma_partial_value_front(s, s.len() - 1);
    assert(is_numeral_letter(s[0]));
    if rest.len() > 0 {
        assert forall|i: int| 0 <= i < rest.len() implies is_numeral_letter(#[trigger] rest[i]) by {
            assert(rest[i] == s[i + 1]);
        }
        assert(rest[0] == s[1]);
        lemma_value_at_least_first(rest);
    }
}

/// The first `n` positions of `a` contribute the same whatever follows `a`,
/// as long as the last position of `a` is not among them.
proof fn lemma_partial_value_prefix(a: Seq<char>, b: Seq<char>, n: int)
    requires
        0 <= n < a.len(),
    ensures
        partial_value(a + b, n) == partial_value(a, n),
    decreases n,
{
    if n > 0 {
        lemma_partial_value_prefix(a, b, n - 1);
        assert((a + b)[n - 1] == a[n - 1]);
        assert((a + b)[n] == a[n]);
    }
}

/// Behind `a`, the positions of `b` contribute as they do in `b` alone.
proof fn lemma_partial_value_suffix(a: Seq<char>, b: Seq<char>, n: int)
    requires
        0 <= n <= b.len(),
    ensures
        partial_value(a + b, a.len() + n) == partial_value(a + b, a.len() as int) + partial_value(
            b,
            n,
        ),
    decreases n,
{
    if n > 0 {
        lemma_partial_value_suffix(a, b, n - 1);
        assert((a + b)[a.len() + n - 1] == b[n - 1]);
        if n < b.len() {
            assert((a + b)[a.len() + n] == b[n]);
        }
    }
}

/// Where the last letter of `a` is of no smaller magnitude than the first
/// letter of `b`, the value of `a` followed by `b` is the sum of the two
/// values.
pub proof fn lemma_value_of_concatenation(a: Seq<char>, b: Seq<char>)
    requires
        a.len() > 0 && b.len() > 0 ==> magnitude(a.last()) >= magnitude(b[0]),
    ensures
        numeral_value(a + b) == numeral_value(a) + numeral_value(b),
{
    if a.len() == 0 {
        assert(a + b =~= b);
    } else if b.len() == 0 {
        assert(a + b =~= a);
    } else {
        let m = a.len() - 1;
        lemma_partial_value_prefix(a, b, m);
        assert((a + b)[m] == a[m]);
        assert((a + b)[m + 1] == b[0]);
        assert(contribution(a + b, m) == contribution(a, m));
        lemma_partial_value_suffix(a, b, b.len() as int);
    }
}

// ---------------------------------------------------------------------------
// The building blocks and the canonical text
// ---------------------------------------------------------------------------

/// From 1 on, `greatest_block` names a block that the value holds, and no
/// block that the value holds is greater.
pub proof fn lemma_greatest_block_is_greatest(v: int, m: int)
    requires
        v >= 1,
    ensures
        is_block(greatest_block(v)),
        greatest_block(v) <= v,
        is_block(m) && m <= v ==> m <= greatest_block(v),
{
}

/// The letters of a block, read as a numeral, have the block's magnitude.
pub proof fn lemma_block_value(m: int)
    requires
        is_block(m),
    ensures
        block_text(m).len() > 0,
        all_letters(block_text(m)),
        numeral_value(block_text(m)) == m,
{
    reveal_with_fuel(partial_value, 3);
}

/// The canonical text of a value below 1 is empty; that of any other value
/// is its greatest block followed by the canonical text of the rest.
proof fn lemma_text_unfolds(v: int)
    ensures
        v <= 0 ==> roman_text(v).len() == 0,
        v >= 1 ==> roman_text(v) == block_text(greatest_block(v)) + roman_text(
            v - greatest_block(v),
        ),
{
}

/// Reading gives back what was written: the canonical text of a value of at
/// least 1 is not empty, holds numeral letters only, and has that value.
pub proof fn lemma_round_trip(v: int)
    requires
        v >= 1,
    ensures
        roman_text(v).len() > 0,
        all_letters(roman_text(v)),
        numeral_value(roman_text(v)) == v,
{
    lemma_text_unfolds(v);
    lemma_text_reads_back(v);
}

/// The induction behind `lemma_round_trip`: behind each block stands the
/// text of a rest that is too small to begin with a greater letter than the
/// block ends with, so that the values add up.
proof fn lemma_text_reads_back(v: int)
    ensures
        all_letters(roman_text(v)),
        v >= 0 ==> numeral_value(roman_text(v)) == v,
    decreases v,
{
    if v >= 1 {
        let g = greatest_block(v);
        let head = block_text(g);
        let rest = roman_text(v - g);
        lemma_text_reads_back(v - g);
        lemma_text_unfolds(v - g);
        lemma_block_value(g);
        lemma_value_of_concatenation(head, rest);
        assert forall|i: int| 0 <= i < (head + rest).len() implies is_numeral_letter(
            #[trigger] (head + rest)[i],
        ) by {
            if i >= head.len() {
                assert((head + rest)[i] == rest[i - head.len()]);
            }
        }
    }
}

/// Whether four equal letters other than `M` stand in a row in `t`, from
/// position `i` on.
pub open spec fn four_in_a_row(t: Seq<char>, i: int) -> bool {
    &&& 0 <= i
    &&& i + 3 < t.len()
    &&& t[i] != 'M'
    &&& t[i] == t[i + 1]
    &&& t[i] == t[i + 2]
    &&& t[i] == t[i + 3]
}

/// A canonical text never repeats a letter four times in a row, `M` apart:
/// where a fourth `I`, `X` or `C` would stand, the block that subtracts
/// stands in its place, and `V`, `L` and `D` are never doubled. Only `M`,
/// above which there is no block, repeats without bound.
pub proof fn lemma_no_four_in_a_row(v: int)
    ensures
        forall|i: int| !#[trigger] four_in_a_row(roman_text(v), i),
{
    assert forall|i: int| !#[trigger] four_in_a_row(roman_text(v), i) by {
        lemma_no_four_from(v, i);
    }
}

/// The induction behind `lemma_no_four_in_a_row`: a row that begins behind
/// the first block lies in the text of the rest; one that begins in the
/// first block would need the next three blocks to repeat it.
proof fn lemma_no_four_from(v: int, i: int)
    ensures
        !four_in_a_row(roman_text(v), i),
    decreases v,
{
    let t = roman_text(v);
    if v >= 1 && 0 <= i && i + 3 < t.len() {
        let head = block_text(greatest_block(v));
        let r1 = v - greatest_block(v);
        let r2 = r1 - greatest_block(r1);
        let r3 = r2 - greatest_block(r2);
        lemma_text_unfolds(v);
        if i >= head.len() {
            lemma_no_four_from(r1, i - head.len());
        } else {
            lemma_text_unfolds(r1);
            lemma_text_unfolds(r2);
            lemma_text_unfolds(r3);
        }
    }
}

} // verus!
