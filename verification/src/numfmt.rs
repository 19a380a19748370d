//! Decimal rendering of 32-bit integers, used for `PRINT` lines and for the
//! final result of a program.
use vstd::prelude::*;
use vstd::string::StringExecFns;

verus! {

/// The character for one decimal digit.
pub open spec fn digit_char(d: nat) -> char {
    if d == 0 {
        '0'
    } else if d == 1 {
        '1'
    } else if d == 2 {
        '2'
    } else if d == 3 {
        '3'
    } else if d == 4 {
        '4'
    } else if d == 5 {
        '5'
    } else if d == 6 {
        '6'
    } else if d == 7 {
        '7'
    } else if d == 8 {
        '8'
    } else {
        '9'
    }
}

/// The decimal digits of a natural number, most significant first, with no
/// leading zeros (a single `'0'` for zero).
pub open spec fn dec_str_nat(n: nat) -> Seq<char>
    decreases n,
{
    if n < 10 {
        seq![digit_char(n)]
    } else {
        dec_str_nat(n / 10) + seq![digit_char(n % 10)]
    }
}

/// The decimal representation of a 32-bit integer: a leading `'-'` for
/// negative values, then the digits of its magnitude.
pub open spec fn dec_str_i32(v: i32) -> Seq<char> {
    if v < 0 {
        seq!['-'] + dec_str_nat((-(v as int)) as nat)
    } else {
        dec_str_nat(v as nat)
    }
}

/// One decimal digit as a string slice.
fn digit_str(d: u32) -> (r: &'static str)
    requires
        d < 10,
    ensures
        r@ == seq![digit_char(d as nat)],
{
    proof {
        reveal_strlit("0");
        reveal_strlit("1");
        reveal_strlit("2");
        reveal_strlit("3");
        reveal_strlit("4");
        reveal_strlit("5");
        reveal_strlit("6");
        reveal_strlit("7");
        reveal_strlit("8");
        reveal_strlit("9");
    }
    let r: &'static str = if d == 0 {
        "0"
    } else if d == 1 {
        "1"
    } else if d == 2 {
        "2"
    } else if d == 3 {
        "3"
    } else if d == 4 {
        "4"
    } else if d == 5 {
        "5"
    } else if d == 6 {
        "6"
    } else if d == 7 {
        "7"
    } else if d == 8 {
        "8"
    } else {
        "9"
    };
    proof {
        assert(r@ =~= seq![digit_char(d as nat)]);
    }
    r
}

/// Renders the decimal digits of `n`.
fn u32_dec_string(n: u32) -> (s: String)
    ensures
        s@ == dec_str_nat(n as nat),
    decreases n,
{
    if n < 10 {
        String::from_str(digit_str(n))
    } else {
        let mut s = u32_dec_string(n / 10);
        s.append(digit_str(n % 10));
        proof {
            assert(s@ =~= dec_str_nat(n as nat));
        }
        s
    }
}

/// Renders a 32-bit integer in decimal, as its contract's `dec_str_i32` says.
pub fn i32_to_string(v: i32) -> (s: String)
    ensures
        s@ == dec_str_i32(v),
{
    if v >= 0 {
        u32_dec_string(v as u32)
    } else {
        let mag: u32 = (-(v as i64)) as u32;
        proof {
            assert(mag as nat == (-(v as int)) as nat);
        }
        let mut s = String::from_str("-");
        proof {
            reveal_strlit("-");
        }
        s.append(u32_dec_string(mag).as_str());
        proof {
            assert(s@ =~= dec_str_i32(v));
        }
        s
    }
}

} // verus!
