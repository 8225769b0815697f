//! Decimal rendering of integers, used for numeric token text and for the
//! immediate operands of emitted assembly lines.

use vstd::prelude::*;

verus! {

/// The decimal digit character for `d`, where `d < 10`.
pub open spec fn digit_char(d: nat) -> char {
    if d == 0 {
        '0'
    } else if d == 1 {
        '1'
    } else if d == 2 {
        '2'
    } else if d == 3 {
        '3'
    } else if d == 4 {
        '4'
    } else if d == 5 {
        '5'
    } else if d == 6 {
        '6'
    } else if d == 7 {
        '7'
    } else if d == 8 {
        '8'
    } else {
        '9'
    }
}

/// The decimal digits of `n`, most significant first, with no leading zeros
/// (except for `n == 0`, which is the single digit `0`).
pub open spec fn dec_digits(n: nat) -> Seq<char>
    decreases n,
{
    if n < 10 {
        seq![digit_char(n)]
    } else {
        dec_digits(n / 10).push(digit_char(n % 10))
    }
}

/// The decimal text of a signed value: a minus sign before the digits of the
/// magnitude when negative.
pub open spec fn dec_str(v: int) -> Seq<char> {
    if v < 0 {
        seq!['-'] + dec_digits((-v) as nat)
    } else {
        dec_digits(v as nat)
    }
}

/// The one-character string for the digit `d`.
fn digit_str(d: u64) -> (r: &'static str)
    requires
        d < 10,
    ensures
        r@ == seq![digit_char(d as nat)],
{
    if d == 0 {
        proof {
            reveal_strlit("0");
            assert("0"@ =~= seq![digit_char(0)]);
        }
        "0"
    } else if d == 1 {
        proof {
            reveal_strlit("1");
            assert("1"@ =~= seq![digit_char(1)]);
        }
        "1"
    } else if d == 2 {
        proof {
            reveal_strlit("2");
            assert("2"@ =~= seq![digit_char(2)]);
        }
        "2"
    } else if d == 3 {
        proof {
            reveal_strlit("3");
            assert("3"@ =~= seq![digit_char(3)]);
        }
        "3"
    } else if d == 4 {
        proof {
            reveal_strlit("4");
            assert("4"@ =~= seq![digit_char(4)]);
        }
        "4"
    } else if d == 5 {
        proof {
            reveal_strlit("5");
            assert("5"@ =~= seq![digit_char(5)]);
        }
        "5"
    } else if d == 6 {
        proof {
            reveal_strlit("6");
            assert("6"@ =~= seq![digit_char(6)]);
        }
        "6"
    } else if d == 7 {
        proof {
            reveal_strlit("7");
            assert("7"@ =~= seq![digit_char(7)]);
        }
        "7"
    } else if d == 8 {
        proof {
            reveal_strlit("8");
            assert("8"@ =~= seq![digit_char(8)]);
        }
        "8"
    } else {
        proof {
            reveal_strlit("9");
            assert("9"@ =~= seq![digit_char(9)]);
        }
        "9"
    }
}

/// Renders `n` in decimal.
pub fn u64_dec(n: u64) -> (r: String)
    ensures
        r@ == dec_digits(n as nat),
{
    if n < 10 {
        return String::from_str(digit_str(n));
    }
    let mut x: u64 = n;
    let mut s: String = String::new();
    proof {
        assert(dec_digits(n as nat) =~= dec_digits(n as nat) + s@);
    }
    while x >= 10
        invariant
            1 <= x,
            dec_digits(n as nat) == dec_digits(x as nat) + s@,
        decreases x,
    {
        let d = x % 10;
        let ghost x0 = x as nat;
        x = x / 10;
        let mut t = String::from_str(digit_str(d));
        t.append(s.as_str());
        proof {
            assert(dec_digits(x0) == dec_digits(x0 / 10).push(digit_char(x0 % 10)));
            assert(dec_digits(x0 / 10).push(digit_char(x0 % 10)) =~= dec_digits(
                x0 / 10,
            ) + seq![digit_char(x0 % 10)]);
            assert(dec_digits(x as nat) + t@ =~= (dec_digits(x as nat) + seq![digit_char(
                d as nat,
            )]) + s@);
        }
        s = t;
    }
    let mut t = String::from_str(digit_str(x));
    t.append(s.as_str());
    proof {
        assert(dec_digits(x as nat) =~= seq![digit_char(x as nat)]);
        assert(t@ =~= dec_digits(x as nat) + s@);
    }
    t
}

/// Renders `v` in decimal, with a leading minus sign when negative.
pub fn i64_dec(v: i64) -> (r: String)
    ensures
        r@ == dec_str(v as int),
{
    if v >= 0 {
        u64_dec(v as u64)
    } else {
        let wide: i128 = v as i128;
        let m: u64 = (-wide) as u64;
        let mut s = String::from_str("-");
        proof {
            reveal_strlit("-");
            assert("-"@ =~= seq!['-']);
        }
        let digits = u64_dec(m);
        s.append(digits.as_str());
        proof {
            assert(s@ =~= seq!['-'] + dec_digits((-(v as int)) as nat));
        }
        s
    }
}

/// Renders `v` in decimal, with a leading minus sign when negative.
pub fn i32_dec(v: i32) -> (r: String)
    ensures
        r@ == dec_str(v as int),
{
    i64_dec(v as i64)
}

} // verus!
