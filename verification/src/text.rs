//! Decimal rendering of integers.
//!
//! The crate renders integers itself wherever a contract pins the exact
//! text: synthetic variable names and the textual form of a weight matrix.

use vstd::prelude::*;

verus! {

use vstd::string::StringExecFns;

/// The decimal digit character for `d`.
pub open spec fn digit_char(d: nat) -> char {
    if d == 0 {
        '0'
    } else if d == 1 {
        '1'
    } else if d == 2 {
        '2'
    } else if d == 3 {
        '3'
    } else if d == 4 {
        '4'
    } else if d == 5 {
        '5'
    } else if d == 6 {
        '6'
    } else if d == 7 {
        '7'
    } else if d == 8 {
        '8'
    } else {
        '9'
    }
}

/// The decimal digits of `n`, most significant first.
pub open spec fn spec_digits(n: nat) -> Seq<char>
    decreases n,
{
    if n < 10 {
        seq![digit_char(n)]
    } else {
        spec_digits(n / 10) + seq![digit_char(n % 10)]
    }
}

/// The decimal text of an integer: the digits of its magnitude, preceded
/// by a minus sign when it is negative.
pub open spec fn spec_int_text(v: int) -> Seq<char> {
    if v < 0 {
        seq!['-'] + spec_digits((-v) as nat)
    } else {
        spec_digits(v as nat)
    }
}

/// The digit character for `d`, as a one-character string slice.
pub fn digit_str(d: u64) -> (r: &'static str)
    requires
        d < 10,
    ensures
        r@ == seq![digit_char(d as nat)],
{
    proof {
        reveal_strlit("0");
        reveal_strlit("1");
        reveal_strlit("2");
        reveal_strlit("3");
        reveal_strlit("4");
        reveal_strlit("5");
        reveal_strlit("6");
        reveal_strlit("7");
        reveal_strlit("8");
        reveal_strlit("9");
    }
    let r = match d {
        0 => "0",
        1 => "1",
        2 => "2",
        3 => "3",
        4 => "4",
        5 => "5",
        6 => "6",
        7 => "7",
        8 => "8",
        _ => "9",
    };
    proof {
        assert(r@ =~= seq![digit_char(d as nat)]);
    }
    r
}

/// The decimal rendering of `i`.
pub fn digits_string(i: u64) -> (r: String)
    ensures
        r@ == spec_digits(i as nat),
    decreases i,
{
    if i < 10 {
        let r = String::from_str(digit_str(i));
        proof {
            assert(r@ =~= spec_digits(i as nat));
        }
        r
    } else {
        let mut s = digits_string(i / 10);
        s.append(digit_str(i % 10));
        proof {
            assert(s@ =~= spec_digits(i as nat));
        }
        s
    }
}

/// The decimal rendering of a signed integer.
pub fn int_string(v: i64) -> (r: String)
    ensures
        r@ == spec_int_text(v as int),
{
    if v < 0 {
        proof {
            reveal_strlit("-");
            assert("-"@ =~= seq!['-']);
        }
        let mut s = String::from_str("-");
        let magnitude_value: u64 = if v == i64::MIN {
            9223372036854775808u64
        } else {
            (-v) as u64
        };
        proof {
            assert(magnitude_value == -(v as int));
        }
        let magnitude = digits_string(magnitude_value);
        s.append(magnitude.as_str());
        proof {
            assert(s@ =~= spec_int_text(v as int));
        }
        s
    } else {
        let r = digits_string(v as u64);
        proof {
            assert(r@ =~= spec_int_text(v as int));
        }
        r
    }
}

} // verus!
