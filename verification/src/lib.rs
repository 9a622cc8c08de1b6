//! Roman numerals: reading a numeral into an integer and writing an integer
//! as its canonical numeral, with the laws that connect the two directions.
//!
//! Reading is permissive: any sequence of the seven letters, in either
//! case, has a value. Writing is canonical: it only ever produces the text
//! that takes the greatest block at each step.

pub mod error;
pub mod format;
pub mod laws;
pub mod numeral;
pub mod parse;
pub mod symbol;

pub use error::RomanNumeralError;
pub use format::greatest_str_leq_than_n;
pub use numeral::RomanNumeral;
pub use symbol::char_to_value;
