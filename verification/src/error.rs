//! The reasons for which a string is refused as a numeral.

use vstd::prelude::*;
use vstd::std_specs::convert::FromSpecImpl;

verus! {

/// Why a string could not be read as a Roman numeral.
#[derive(Debug)]
pub enum RomanNumeralError {
    /// A character that is none of the seven numeral letters; it is kept as
    /// it was written.
    InvalidChar(char),
    /// Any other defect of the input, with a description of it.
    MiscError(String),
}

/// A contract can speak of the characters that a `String` holds, not of the
/// `String` itself, so no spec function gives the result of the conversion:
/// what it is stands in the `ensures` of `from`.
impl FromSpecImpl<&str> for RomanNumeralError {
    open spec fn obeys_from_spec() -> bool {
        false
    }

    open spec fn from_spec(s: &str) -> Self {
        arbitrary()
    }
}

impl From<&str> for RomanNumeralError {
    /// A description becomes a `MiscError` that carries it.
    fn from(s: &str) -> (e: Self)
        ensures
            e matches RomanNumeralError::MiscError(reason) && reason@ == s@,
    {
        RomanNumeralError::MiscError(s.to_owned())
    }
}

} // verus!
