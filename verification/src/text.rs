//! Decimal and hexadecimal rendering of integers as text, with exact
//! character-level specifications.

use vstd::prelude::*;

verus! {

use vstd::string::StringExecFns;

/// The character for one decimal digit.
pub open spec fn dec_digit(d: nat) -> char
    recommends
        d < 10,
{
    if d == 0 {
        '0'
    } else if d == 1 {
        '1'
    } else if d == 2 {
        '2'
    } else if d == 3 {
        '3'
    } else if d == 4 {
        '4'
    } else if d == 5 {
        '5'
    } else if d == 6 {
        '6'
    } else if d == 7 {
        '7'
    } else if d == 8 {
        '8'
    } else {
        '9'
    }
}

/// The usual decimal rendering of a natural number, most significant digit
/// first, with no leading zeros (a lone `0` for zero).
pub open spec fn dec_nat(n: nat) -> Seq<char>
    decreases n,
{
    if n < 10 {
        seq![dec_digit(n)]
    } else {
        dec_nat(n / 10) + seq![dec_digit(n % 10)]
    }
}

/// The decimal rendering of an integer: a minus sign before the digits when
/// it is negative.
pub open spec fn dec_int(i: int) -> Seq<char> {
    if i < 0 {
        seq!['-'] + dec_nat((-i) as nat)
    } else {
        dec_nat(i as nat)
    }
}

/// The character for one hexadecimal digit, lower case.
pub open spec fn hex_digit(d: nat) -> char
    recommends
        d < 16,
{
    if d < 10 {
        dec_digit(d)
    } else if d == 10 {
        'a'
    } else if d == 11 {
        'b'
    } else if d == 12 {
        'c'
    } else if d == 13 {
        'd'
    } else if d == 14 {
        'e'
    } else {
        'f'
    }
}

fn dec_digit_str(d: u64) -> (r: &'static str)
    requires
        d < 10,
    ensures
        r@ == seq![dec_digit(d as nat)],
{
    proof {
        reveal_strlit("0");
        reveal_strlit("1");
        reveal_strlit("2");
        reveal_strlit("3");
        reveal_strlit("4");
        reveal_strlit("5");
        reveal_strlit("6");
        reveal_strlit("7");
        reveal_strlit("8");
        reveal_strlit("9");
    }
    if d == 0 {
        proof { assert("0"@ =~= seq![dec_digit(d as nat)]); }
        "0"
    } else if d == 1 {
        proof { assert("1"@ =~= seq![dec_digit(d as nat)]); }
        "1"
    } else if d == 2 {
        proof { assert("2"@ =~= seq![dec_digit(d as nat)]); }
        "2"
    } else if d == 3 {
        proof { assert("3"@ =~= seq![dec_digit(d as nat)]); }
        "3"
    } else if d == 4 {
        proof { assert("4"@ =~= seq![dec_digit(d as nat)]); }
        "4"
    } else if d == 5 {
        proof { assert("5"@ =~= seq![dec_digit(d as nat)]); }
        "5"
    } else if d == 6 {
        proof { assert("6"@ =~= seq![dec_digit(d as nat)]); }
        "6"
    } else if d == 7 {
        proof { assert("7"@ =~= seq![dec_digit(d as nat)]); }
        "7"
    } else if d == 8 {
        proof { assert("8"@ =~= seq![dec_digit(d as nat)]); }
        "8"
    } else {
        proof { assert("9"@ =~= seq![dec_digit(d as nat)]); }
        "9"
    }
}

/// Renders a hexadecimal digit as one character of text.
pub fn hex_digit_str(d: u64) -> (r: &'static str)
    requires
        d < 16,
    ensures
        r@ == seq![hex_digit(d as nat)],
{
    if d < 10 {
        dec_digit_str(d)
    } else {
        proof {
            reveal_strlit("a");
            reveal_strlit("b");
            reveal_strlit("c");
            reveal_strlit("d");
            reveal_strlit("e");
            reveal_strlit("f");
        }
        if d == 10 {
            proof { assert("a"@ =~= seq![hex_digit(d as nat)]); }
            "a"
        } else if d == 11 {
            proof { assert("b"@ =~= seq![hex_digit(d as nat)]); }
            "b"
        } else if d == 12 {
            proof { assert("c"@ =~= seq![hex_digit(d as nat)]); }
            "c"
        } else if d == 13 {
            proof { assert("d"@ =~= seq![hex_digit(d as nat)]); }
            "d"
        } else if d == 14 {
            proof { assert("e"@ =~= seq![hex_digit(d as nat)]); }
            "e"
        } else {
            proof { assert("f"@ =~= seq![hex_digit(d as nat)]); }
            "f"
        }
    }
}

/// Renders a natural number in decimal.
pub fn u64_to_string(n: u64) -> (r: String)
    ensures
        r@ == dec_nat(n as nat),
    decreases n,
{
    if n < 10 {
        String::from_str(dec_digit_str(n))
    } else {
        let mut s = u64_to_string(n / 10);
        s.append(dec_digit_str(n % 10));
        s
    }
}

/// Renders a signed integer in decimal, with a leading minus sign when it is
/// negative.
pub fn i32_to_string(i: i32) -> (r: String)
    ensures
        r@ == dec_int(i as int),
{
    if i < 0 {
        let magnitude: u64 = (-(i as i64)) as u64;
        proof {
            reveal_strlit("-");
            assert("-"@ =~= seq!['-']);
        }
        let mut s = String::from_str("-");
        s.append(u64_to_string(magnitude).as_str());
        s
    } else {
        u64_to_string(i as u64)
    }
}

} // verus!
