//! The building blocks of canonical numerals and the text they spell.

use vstd::prelude::*;

verus! {

/// The magnitude of the greatest building block that does not exceed `v`,
/// and 0 where `v` is below 1.
pub open spec fn greatest_block(v: int) -> int {
    if v >= 1000 {
        1000
    } else if v >= 900 {
        900
    } else if v >= 500 {
        500
    } else if v >= 400 {
        400
    } else if v >= 100 {
        100
    } else if v >= 90 {
        90
    } else if v >= 50 {
        50
    } else if v >= 40 {
        40
    } else if v >= 10 {
        10
    } else if v >= 9 {
        9
    } else if v >= 5 {
        5
    } else if v >= 4 {
        4
    } else if v >= 1 {
        1
    } else {
        0
    }
}

/// Whether `m` is the magnitude of a building block: of one of the seven
/// letters, or of one of the six pairs in which a letter is taken from the
/// next greater or the one after.
pub open spec fn is_block(m: int) -> bool {
    m == 1000 || m == 900 || m == 500 || m == 400 || m == 100 || m == 90 || m == 50 || m == 40
        || m == 10 || m == 9 || m == 5 || m == 4 || m == 1
}

/// The letters of the building block of magnitude `m`; empty where `m` is
/// the magnitude of no block.
pub open spec fn block_text(m: int) -> Seq<char> {
    if m == 1000 {
        seq!['M']
    } else if m == 900 {
        seq!['C', 'M']
    } else if m == 500 {
        seq!['D']
    } else if m == 400 {
        seq!['C', 'D']
    } else if m == 100 {
        seq!['C']
    } else if m == 90 {
        seq!['X', 'C']
    } else if m == 50 {
        seq!['L']
    } else if m == 40 {
        seq!['X', 'L']
    } else if m == 10 {
        seq!['X']
    } else if m == 9 {
        seq!['I', 'X']
    } else if m == 5 {
        seq!['V']
    } else if m == 4 {
        seq!['I', 'V']
    } else if m == 1 {
        seq!['I']
    } else {
        Seq::empty()
    }
}

/// The canonical text of `v`: the letters of the greatest block that `v`
/// holds, followed by the canonical text of what is left. Empty where `v` is
/// below 1.
pub open spec fn roman_text(v: int) -> Seq<char>
    decreases v,
{
    if v <= 0 {
        Seq::empty()
    } else {
        block_text(greatest_block(v)) + roman_text(v - greatest_block(v))
    }
}

/// The greatest building block that does not exceed `v`: its letters and its
/// magnitude. Below 1 there is no such block, and the result is the empty
/// text with magnitude 0.
pub fn greatest_str_leq_than_n(v: i64) -> (r: (&'static str, i64))
    ensures
        r.1 == greatest_block(v as int),
        r.0@ == block_text(r.1 as int),
        v >= 1 ==> is_block(r.1 as int) && r.1 <= v,
        forall|m: int| is_block(m) && m <= v ==> m <= r.1,
{
    match v {
        1000.. => {
            proof {
                reveal_strlit("M");
            }
            ("M", 1000)
        },
        900.. => {
            proof {
                reveal_strlit("CM");
            }
            ("CM", 900)
        },
        500.. => {
            proof {
                reveal_strlit("D");
            }
            ("D", 500)
        },
        400.. => {
            proof {
                reveal_strlit("CD");
            }
            ("CD", 400)
        },
        100.. => {
            proof {
                reveal_strlit("C");
            }
            ("C", 100)
        },
        90.. => {
            proof {
                reveal_strlit("XC");
            }
            ("XC", 90)
        },
        50.. => {
            proof {
                reveal_strlit("L");
            }
            ("L", 50)
        },
        40.. => {
            proof {
                reveal_strlit("XL");
            }
            ("XL", 40)
        },
        10.. => {
            proof {
                reveal_strlit("X");
            }
            ("X", 10)
        },
        9.. => {
            proof {
                reveal_strlit("IX");
            }
            ("IX", 9)
        },
        5.. => {
            proof {
                reveal_strlit("V");
            }
            ("V", 5)
        },
        4.. => {
            proof {
                reveal_strlit("IV");
            }
            ("IV", 4)
        },
        1.. => {
            proof {
                reveal_strlit("I");
            }
            ("I", 1)
        },
        _ => {
            proof {
                reveal_strlit("");
            }
            ("", 0)
        },
    }
}

} // verus!
