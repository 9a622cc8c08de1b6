//! The symbol table: the seven numeral letters and their magnitudes.

use crate::error::RomanNumeralError;
use vstd::prelude::*;

verus! {

/// The magnitude of a numeral letter, in either case; 0 for any other
/// character.
pub open spec fn magnitude(c: char) -> int {
    if c == 'I' || c == 'i' {
        1
    } else if c == 'V' || c == 'v' {
        5
    } else if c == 'X' || c == 'x' {
        10
    } else if c == 'L' || c == 'l' {
        50
    } else if c == 'C' || c == 'c' {
        100
    } else if c == 'D' || c == 'd' {
        500
    } else if c == 'M' || c == 'm' {
        1000
    } else {
        0
    }
}

/// Whether `c` is one of the seven numeral letters, in either case.
pub open spec fn is_numeral_letter(c: char) -> bool {
    magnitude(c) > 0
}

/// The lower-case form of an ASCII capital letter; any other character as
/// it is.
pub open spec fn ascii_lower(c: char) -> char {
    if 'A' <= c && c <= 'Z' {
        ((c as u32) + 32) as char
    } else {
        c
    }
}

/// Looks a character up in the symbol table.
pub fn char_to_value(c: char) -> (r: Result<i64, RomanNumeralError>)
    ensures
        is_numeral_letter(c) ==> r == Ok::<i64, RomanNumeralError>(magnitude(c) as i64),
        !is_numeral_letter(c) ==> r == Err::<i64, RomanNumeralError>(
            RomanNumeralError::InvalidChar(c),
        ),
{
    match c {
        'm' | 'M' => Ok(1000),
        'd' | 'D' => Ok(500),
        'c' | 'C' => Ok(100),
        'l' | 'L' => Ok(50),
        'x' | 'X' => Ok(10),
        'v' | 'V' => Ok(5),
        'i' | 'I' => Ok(1),
        _ => Err(RomanNumeralError::InvalidChar(c)),
    }
}

} // verus!
