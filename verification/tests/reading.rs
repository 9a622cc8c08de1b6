use roman_numeral::{char_to_value, RomanNumeral, RomanNumeralError};

fn value_of(text: &str) -> i64 {
    RomanNumeral::from_str(text).unwrap().to_int()
}

#[test]
fn each_letter_has_its_magnitude() {
    let table = [
        ('i', 1),
        ('v', 5),
        ('x', 10),
        ('l', 50),
        ('c', 100),
        ('d', 500),
        ('m', 1000),
    ];
    for (letter, magnitude) in table {
        let upper = letter.to_ascii_uppercase();
        assert_eq!(char_to_value(letter).unwrap(), magnitude);
        assert_eq!(char_to_value(upper).unwrap(), magnitude);
        assert_eq!(value_of(&format!("{letter}")), magnitude);
        assert_eq!(value_of(&format!("{upper}")), magnitude);
    }
}

#[test]
fn lookup_keeps_the_character_it_refuses() {
    for chr in "abefghjknopqrstuwyzABEFGHJKNOPQRSTUWYZ:.,;?! \t\n\r0159".chars() {
        match char_to_value(chr) {
            Err(RomanNumeralError::InvalidChar(c)) => assert_eq!(c, chr),
            other => panic!("{chr:?} gave {other:?}"),
        }
    }
}

#[test]
fn lookup_refuses_letters_outside_ascii() {
    // U+2160 is the one-character form of the numeral one; U+217F a small
    // one-character thousand; U+0131 and U+212A fold to ASCII in other
    // case mappings, not in this one.
    for chr in ['\u{2160}', '\u{217F}', '\u{0131}', '\u{212A}', 'é'] {
        assert!(matches!(
            char_to_value(chr),
            Err(RomanNumeralError::InvalidChar(c)) if c == chr
        ));
    }
}

#[test]
fn single_invalid_character_is_reported() {
    for chr in "abefghjknopqrstuwyz:.,;?! \t\n\r".chars() {
        match RomanNumeral::from_str(&format!("{chr}")) {
            Err(RomanNumeralError::InvalidChar(c)) => assert_eq!(c, chr),
            other => panic!("{chr:?} gave {other:?}"),
        }
    }
}

#[test]
fn empty_input_is_a_misc_error() {
    match RomanNumeral::from_str("") {
        Err(RomanNumeralError::MiscError(reason)) => assert_eq!(reason, "empty string"),
        other => panic!("{other:?}"),
    }
}

#[test]
fn first_invalid_character_wins() {
    let cases = [
        ("aIb", 'a'),
        ("Ia", 'a'),
        ("IaQ", 'a'),
        ("MXQ", 'Q'),
        ("MqX?", 'q'),
        ("XI V", ' '),
        ("?", '?'),
        ("MMXXIII\n", '\n'),
        ("zy", 'z'),
        ("Iy", 'y'),
    ];
    for (text, expected) in cases {
        match RomanNumeral::from_str(text) {
            Err(RomanNumeralError::InvalidChar(c)) => assert_eq!(c, expected, "{text:?}"),
            other => panic!("{text:?} gave {other:?}"),
        }
    }
}

#[test]
fn case_does_not_matter() {
    assert_eq!(value_of("mmxxiii"), 2023);
    assert_eq!(value_of("MMXXIII"), 2023);
    assert_eq!(value_of("mMxXiIi"), 2023);
    assert_eq!(value_of("mcmlxxxiv"), value_of("MCMLXXXIV"));
    assert_eq!(value_of("iv"), 4);
    assert_eq!(value_of("Ix"), 9);
}

#[test]
fn known_literals() {
    assert_eq!(value_of("MMXXIII"), 2023);
    assert_eq!(value_of("MDCLXVI"), 1666);
    assert_eq!(value_of("IV"), 4);
    assert_eq!(value_of("IX"), 9);
    assert_eq!(value_of("MCMLXXXIV"), 1984);
    assert_eq!(value_of("MCCXCIII"), 1293);
}

#[test]
fn repeated_letters_add_up() {
    assert_eq!(value_of("III"), 3);
    assert_eq!(value_of("IIII"), 4);
    assert_eq!(value_of("MMMM"), 4000);
    assert_eq!(value_of("VV"), 10);
    assert_eq!(value_of(&"M".repeat(50)), 50_000);
    assert_eq!(value_of(&"c".repeat(7)), 700);
}

#[test]
fn a_rise_takes_away_only_the_letter_before_it() {
    // (X, I) adds 10, (I, X) takes 1 away, the last X adds 10.
    assert_eq!(value_of("XIX"), 19);
    // (I, I) adds 1, (I, X) takes 1 away, the last X adds 10.
    assert_eq!(value_of("IIX"), 10);
    assert_eq!(value_of("XXIX"), 29);
    assert_eq!(value_of("MCMXCIX"), 1999);
    assert_eq!(value_of("CDXLIV"), 444);
}

#[test]
fn unusual_pairs_are_read_all_the_same() {
    assert_eq!(value_of("IC"), 99);
    assert_eq!(value_of("VX"), 5);
    assert_eq!(value_of("IM"), 999);
    assert_eq!(value_of("LC"), 50);
    assert_eq!(value_of("IVX"), 4);
    assert_eq!(value_of("VIIII"), 9);
    assert_eq!(value_of("IVIV"), 8);
}

#[test]
fn neighbours_are_compared_in_order() {
    // Swapping the two letters of a pair changes the sign of the first.
    assert_eq!(value_of("VI"), 6);
    assert_eq!(value_of("IV"), 4);
    assert_eq!(value_of("XC"), 90);
    assert_eq!(value_of("CX"), 110);
    // Only neighbours are compared: the I before VX is followed by V.
    assert_eq!(value_of("IVX"), -1 - 5 + 10);
    // Three letters, two windows.
    assert_eq!(value_of("IXC"), -1 - 10 + 100);
}

#[test]
fn value_stays_within_a_thousand_per_letter() {
    for text in ["I", "MMM", "IVXLCDM", "MDCLXVI", "IIIIIIII", "MCMXCIX"] {
        let bound = 1000 * text.chars().count() as i64;
        let v = value_of(text);
        assert!(-bound <= v && v <= bound, "{text:?}");
    }
    assert_eq!(value_of("MMM"), 3000);
    assert_eq!(value_of("IVXLCDM"), 334);
}

#[test]
fn description_becomes_a_misc_error() {
    match RomanNumeralError::from("empty string") {
        RomanNumeralError::MiscError(reason) => assert_eq!(reason, "empty string"),
        other => panic!("{other:?}"),
    }
    match RomanNumeralError::from("") {
        RomanNumeralError::MiscError(reason) => assert_eq!(reason, ""),
        other => panic!("{other:?}"),
    }
}

#[test]
fn errors_are_rendered_with_what_they_carry() {
    assert_eq!(
        format!("{:?}", RomanNumeral::from_str("q").unwrap_err()),
        "InvalidChar('q')"
    );
    assert_eq!(
        format!("{:?}", RomanNumeral::from_str("").unwrap_err()),
        "MiscError(\"empty string\")"
    );
}
