//! Decimal rendering of integers and the millisecond-to-second floor,
//! as the canonical fingerprint text needs them.
use vstd::prelude::*;
use vstd::arithmetic::div_mod::lemma_fundamental_div_mod_converse;
use vstd::string::StringExecFns;

verus! {

/// The decimal digit character for `n` in 0..10.
pub open spec fn dec_digit(n: int) -> char {
    if n == 0 {
        '0'
    } else if n == 1 {
        '1'
    } else if n == 2 {
        '2'
    } else if n == 3 {
        '3'
    } else if n == 4 {
        '4'
    } else if n == 5 {
        '5'
    } else if n == 6 {
        '6'
    } else if n == 7 {
        '7'
    } else if n == 8 {
        '8'
    } else {
        '9'
    }
}

/// Decimal text of a non-negative integer, without sign or padding.
pub open spec fn dec_str_nat(n: int) -> Seq<char>
    decreases n,
{
    if n < 10 {
        seq![dec_digit(n)]
    } else {
        dec_str_nat(n / 10).push(dec_digit(n % 10))
    }
}

/// Decimal text of an integer: a minus sign before the magnitude for
/// negative values.
pub open spec fn dec_str_int(n: int) -> Seq<char> {
    if n < 0 {
        seq!['-'] + dec_str_nat(-n)
    } else {
        dec_str_nat(n)
    }
}

/// The one-character text of a decimal digit.
fn dec_digit_str(d: u64) -> (r: &'static str)
    requires
        d < 10,
    ensures
        r@ == seq![dec_digit(d as int)],
{
    let r: &'static str = if d == 0 {
        "0"
    } else if d == 1 {
        "1"
    } else if d == 2 {
        "2"
    } else if d == 3 {
        "3"
    } else if d == 4 {
        "4"
    } else if d == 5 {
        "5"
    } else if d == 6 {
        "6"
    } else if d == 7 {
        "7"
    } else if d == 8 {
        "8"
    } else {
        "9"
    };
    proof {
        reveal_strlit("0");
        reveal_strlit("1");
        reveal_strlit("2");
        reveal_strlit("3");
        reveal_strlit("4");
        reveal_strlit("5");
        reveal_strlit("6");
        reveal_strlit("7");
        reveal_strlit("8");
        reveal_strlit("9");
        assert(r@ =~= seq![dec_digit(d as int)]);
    }
    r
}

/// Decimal text of an unsigned value.
pub fn u64_dec_str(n: u64) -> (r: String)
    ensures
        r@ == dec_str_nat(n as int),
    decreases n,
{
    if n < 10 {
        String::from_str(dec_digit_str(n))
    } else {
        let mut s = u64_dec_str(n / 10);
        s.append(dec_digit_str(n % 10));
        proof {
            assert(s@ =~= dec_str_nat(n as int));
        }
        s
    }
}

/// Decimal text of a signed value.
pub fn i64_dec_str(n: i64) -> (r: String)
    ensures
        r@ == dec_str_int(n as int),
{
    if n >= 0 {
        u64_dec_str(n as u64)
    } else {
        let m: u64 = ((-(n + 1)) as u64) + 1;
        proof {
            assert(m as int == -(n as int));
        }
        let mut s = String::from_str("-");
        let digits = u64_dec_str(m);
        s.append(digits.as_str());
        proof {
            reveal_strlit("-");
            assert(s@ =~= seq!['-'] + dec_str_nat(m as int));
        }
        s
    }
}

/// Milliseconds to whole seconds, rounding toward minus infinity, the
/// way a calendar timestamp truncates.
pub fn ms_to_seconds_floor(t: i64) -> (r: i64)
    ensures
        r as int == (t as int) / 1000,
{
    if t >= 0 {
        let q = (t as u64) / 1000;
        q as i64
    } else {
        let m: u64 = ((-(t + 1)) as u64) + 1;
        proof {
            assert(m as int == -(t as int));
        }
        let q = m / 1000;
        let rem = m % 1000;
        if rem == 0 {
            proof {
                lemma_fundamental_div_mod_converse(t as int, 1000, -(q as int), 0);
            }
            -(q as i64)
        } else {
            proof {
                lemma_fundamental_div_mod_converse(
                    t as int,
                    1000,
                    -(q as int) - 1,
                    1000 - (rem as int),
                );
            }
            -(q as i64) - 1
        }
    }
}

} // verus!
