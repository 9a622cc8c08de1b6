//! The numeral as a value: an integer that can be read from and written as
//! Roman numeral text.

use crate::error::RomanNumeralError;
use crate::format::{block_text, greatest_str_leq_than_n, roman_text};
use crate::laws::lemma_value_at_least_first;
use crate::parse::{
    adjacent_pairs, all_letters, char_pairs, is_first_invalid, numeral_value, partial_value,
};
use crate::symbol::{char_to_value, is_numeral_letter};
use vstd::prelude::*;
use vstd::string::{StrSliceExecFns, StringExecFns};

verus! {

/// An integer held as a Roman numeral.
#[derive(Debug)]
pub struct RomanNumeral {
    value: i64,
}

impl View for RomanNumeral {
    type V = int;

    /// The integer that the numeral stands for.
    closed spec fn view(&self) -> int {
        self.value as int
    }
}

impl Default for RomanNumeral {
    /// The numeral of value 0.
    fn default() -> (r: Self)
        ensures
            r@ == 0,
    {
        RomanNumeral { value: 0 }
    }
}

impl RomanNumeral {
    /// The numeral of value 0, whose text is empty.
    pub fn new() -> (r: RomanNumeral)
        ensures
            r@ == 0,
    {
        RomanNumeral::default()
    }

    /// The numeral of value `v`.
    pub fn with_value(v: i64) -> (r: RomanNumeral)
        ensures
            r@ == v,
    {
        RomanNumeral { value: v }
    }

    /// The value of the numeral.
    pub fn to_int(&self) -> (v: i64)
        ensures
            v == self@,
    {
        self.value
    }

    /// Reads a numeral. Each letter adds its magnitude, or takes it away
    /// where the next letter is of greater magnitude; neither the order nor
    /// the number of the letters is restricted otherwise, so `IIII` is 4
    /// and `IC` is 99. A string with a character that is no numeral letter
    /// is refused with the first such character, and an empty string with
    /// the reason `empty string`.
    ///
    /// The value has to fit an `i64`. By `lemma_value_bounds` it does for
    /// every string of at most `i64::MAX / 1000` characters.
    pub fn from_str(s: &str) -> (r: Result<RomanNumeral, RomanNumeralError>)
        requires
            all_letters(s@) ==> numeral_value(s@) <= i64::MAX,
        ensures
            match r {
                Ok(n) => s@.len() > 0 && all_letters(s@) && n@ == numeral_value(s@) && n@ >= 1,
                Err(RomanNumeralError::InvalidChar(c)) => exists|i: int|
                    is_first_invalid(s@, i) && c == s@[i],
                Err(RomanNumeralError::MiscError(reason)) => s@.len() == 0 && reason@
                    == "empty string"@,
            },
    {
        let pairs = char_pairs(s);
        let mut res: i128 = 0;
        let mut i: usize = 0;

        while i < pairs.len()
            invariant
                i <= pairs.len(),
                pairs@ == adjacent_pairs(s@),
                forall|j: int| 0 <= j < i ==> is_numeral_letter(#[trigger] s@[j]),
                res == partial_value(s@, i as int),
                -1000 * i <= res <= 1000 * i,
            decreases pairs.len() - i,
        {
            let (current, next) = pairs[i];
            let current: i64 = char_to_value(current)?;
            let next: i64 = char_to_value(next)?;
            res += if current < next {
                // a letter before a greater one is taken away
                -current
            } else {
                current
            } as i128;
            i += 1;
        }

        let len: usize = s.unicode_len();
        if len == 0 {
            return Err(RomanNumeralError::from("empty string"));
        }
        // the last letter has no successor and always adds its magnitude
        let last: i64 = char_to_value(s.get_char(len - 1))?;
        proof {
            lemma_value_at_least_first(s@);
        }
        Ok(RomanNumeral::with_value((res + last as i128) as i64))
    }

    /// The canonical text of the numeral: block after block, each the
    /// greatest that the rest of the value still holds. The text of 0 is
    /// empty; a negative value has no text and is not accepted.
    pub fn to_string(&self) -> (text: String)
        requires
            self@ >= 0,
        ensures
            text@ == roman_text(self@),
    {
        let mut result = String::new();
        let mut val: i64 = self.value;

        while val > 0
            invariant
                0 <= val <= self.value,
                result@ + roman_text(val as int) == roman_text(self.value as int),
            decreases val,
        {
            let (s, v) = greatest_str_leq_than_n(val);
            assert(roman_text(val as int) == block_text(v as int) + roman_text(val - v));
            val -= v;
            result.append(s);
        }

        result
    }
}

} // verus!
