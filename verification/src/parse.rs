//! The reading rule: the value that a sequence of numeral letters stands for.

use crate::symbol::{is_numeral_letter, magnitude};
use itertools::Itertools;
use vstd::prelude::*;

verus! {

/// What the letter at position `i` of `s` adds to the value of `s`: its
/// magnitude, taken negative where the letter that follows it is of greater
/// magnitude. The last letter has no successor and always counts positive.
pub open spec fn contribution(s: Seq<char>, i: int) -> int {
    if i + 1 < s.len() && magnitude(s[i]) < magnitude(s[i + 1]) {
        -magnitude(s[i])
    } else {
        magnitude(s[i])
    }
}

/// The sum of the contributions of the first `n` positions of `s`.
pub open spec fn partial_value(s: Seq<char>, n: int) -> int
    decreases n,
{
    if n <= 0 {
        0
    } else {
        partial_value(s, n - 1) + contribution(s, n - 1)
    }
}

/// The value of the numeral `s`: the sum of the contributions of all its
/// positions.
pub open spec fn numeral_value(s: Seq<char>) -> int {
    partial_value(s, s.len() as int)
}

/// Whether every character of `s` is a numeral letter.
pub open spec fn all_letters(s: Seq<char>) -> bool {
    forall|i: int| 0 <= i < s.len() ==> is_numeral_letter(#[trigger] s[i])
}

/// Whether position `i` holds the first character of `s` that is no numeral
/// letter.
pub open spec fn is_first_invalid(s: Seq<char>, i: int) -> bool {
    &&& 0 <= i < s.len()
    &&& !is_numeral_letter(s[i])
    &&& forall|j: int| 0 <= j < i ==> is_numeral_letter(#[trigger] s[j])
}

/// Each character of `s` but the last, paired with its successor, in order.
pub open spec fn adjacent_pairs(s: Seq<char>) -> Seq<(char, char)> {
    Seq::new(
        if s.len() == 0 {
            0
        } else {
            (s.len() - 1) as nat
        },
        |i: int| (s[i], s[i + 1]),
    )
}

/// The windows of two that `Itertools::tuple_windows` yields over the
/// characters of `s`, gathered in the order in which they come. Trusted:
/// the adaptor yields one window for each pair of neighbours, first to last,
/// and none where `s` has fewer than two characters.
#[verifier::external_body]
pub(crate) fn char_pairs(s: &str) -> (pairs: Vec<(char, char)>)
    ensures
        pairs@ == adjacent_pairs(s@),
{
    s.chars().tuple_windows().collect()
}

} // verus!
