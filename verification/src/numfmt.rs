//! Decimal formatting.
//!
//! Tokens handed to the vendor process are decimal text. Integers render
//! in the usual way; fixed-point values render canonically: no decimal
//! point when the value is whole, otherwise the fractional digits with
//! trailing zeros removed.

use vstd::prelude::*;

use crate::fixed::{iabs, Fix, SCALE};

verus! {

/// The character for one decimal digit.
pub open spec fn dec_digit(d: int) -> char {
    if d == 0 {
        '0'
    } else if d == 1 {
        '1'
    } else if d == 2 {
        '2'
    } else if d == 3 {
        '3'
    } else if d == 4 {
        '4'
    } else if d == 5 {
        '5'
    } else if d == 6 {
        '6'
    } else if d == 7 {
        '7'
    } else if d == 8 {
        '8'
    } else {
        '9'
    }
}

/// Decimal digits of a nonnegative integer, most significant first.
pub open spec fn dec_str_nat(n: int) -> Seq<char>
    decreases n,
{
    if n < 10 {
        seq![dec_digit(n)]
    } else {
        dec_str_nat(n / 10) + seq![dec_digit(n % 10)]
    }
}

/// Decimal digits of a signed integer.
pub open spec fn dec_str_i64(n: int) -> Seq<char> {
    if n < 0 {
        seq!['-'] + dec_str_nat(-n)
    } else {
        dec_str_nat(n)
    }
}

/// `n` written with exactly `k` digits, zero-padded on the left.
pub open spec fn pad_str(n: int, k: nat) -> Seq<char>
    decreases k,
{
    if k == 0 {
        Seq::empty()
    } else {
        pad_str(n / 10, (k - 1) as nat) + seq![dec_digit(n % 10)]
    }
}

/// Remove trailing `'0'` characters.
pub open spec fn trim_zeros(s: Seq<char>) -> Seq<char>
    decreases s.len(),
{
    if s.len() > 0 && s.last() == '0' {
        trim_zeros(s.drop_last())
    } else {
        s
    }
}

/// Canonical text of a fixed-point value in `units` of `1 / SCALE`.
pub open spec fn fix_str(units: int) -> Seq<char> {
    let sign: Seq<char> = if units < 0 {
        seq!['-']
    } else {
        Seq::empty()
    };
    let m = iabs(units);
    let q = m / (SCALE as int);
    let r = m % (SCALE as int);
    if r == 0 {
        sign + dec_str_nat(q)
    } else {
        sign + dec_str_nat(q) + seq!['.'] + trim_zeros(pad_str(r, 12))
    }
}

/// One decimal digit as text.
fn digit_str(d: u64) -> (r: &'static str)
    requires
        d < 10,
    ensures
        r@ == seq![dec_digit(d as int)],
{
    if d == 0 {
        proof {
            reveal_strlit("0");
        }
        "0"
    } else if d == 1 {
        proof {
            reveal_strlit("1");
        }
        "1"
    } else if d == 2 {
        proof {
            reveal_strlit("2");
        }
        "2"
    } else if d == 3 {
        proof {
            reveal_strlit("3");
        }
        "3"
    } else if d == 4 {
        proof {
            reveal_strlit("4");
        }
        "4"
    } else if d == 5 {
        proof {
            reveal_strlit("5");
        }
        "5"
    } else if d == 6 {
        proof {
            reveal_strlit("6");
        }
        "6"
    } else if d == 7 {
        proof {
            reveal_strlit("7");
        }
        "7"
    } else if d == 8 {
        proof {
            reveal_strlit("8");
        }
        "8"
    } else {
        proof {
            reveal_strlit("9");
        }
        "9"
    }
}

/// Decimal text of an unsigned integer.
pub fn u64_to_string(n: u64) -> (r: String)
    ensures
        r@ == dec_str_nat(n as int),
    decreases n,
{
    if n < 10 {
        String::from_str(digit_str(n))
    } else {
        let high = u64_to_string(n / 10);
        high.concat(digit_str(n % 10))
    }
}

/// Decimal text of a signed integer.
pub fn i64_to_string(n: i64) -> (r: String)
    ensures
        r@ == dec_str_i64(n as int),
{
    if n >= 0 {
        u64_to_string(n as u64)
    } else {
        let m = crate::fixed::abs_units(n);
        proof {
            reveal_strlit("-");
        }
        let s = String::from_str("-");
        s.concat(u64_to_string(m).as_str())
    }
}

/// `n` written with exactly `k` digits, zero-padded on the left.
fn pad_string(n: u64, k: usize) -> (r: String)
    requires
        k <= 12,
    ensures
        r@ == pad_str(n as int, k as nat),
    decreases k,
{
    if k == 0 {
        String::new()
    } else {
        let high = pad_string(n / 10, k - 1);
        high.concat(digit_str(n % 10))
    }
}

/// Dividing out one trailing zero drops one `'0'` from the padded text.
proof fn lemma_trim_pad_step(n: int, k: nat)
    requires
        k >= 1,
        n >= 0,
        n % 10 == 0,
    ensures
        trim_zeros(pad_str(n, k)) == trim_zeros(pad_str(n / 10, (k - 1) as nat)),
{
    assert(pad_str(n, k).drop_last() =~= pad_str(n / 10, (k - 1) as nat));
}

/// When the last digit is not zero, trimming changes nothing.
proof fn lemma_trim_pad_done(n: int, k: nat)
    requires
        k >= 1,
        n >= 0,
        n % 10 != 0,
    ensures
        trim_zeros(pad_str(n, k)) == pad_str(n, k),
{
    assert(pad_str(n, k).last() == dec_digit(n % 10));
}

/// Canonical text of a fixed-point value.
pub fn fix_to_string(f: Fix) -> (r: String)
    ensures
        r@ == fix_str(f.units as int),
{
    let m = crate::fixed::abs_units(f.units);
    let q = m / (SCALE as u64);
    let whole = m % (SCALE as u64) == 0;
    let sign = if f.units < 0 {
        proof {
            reveal_strlit("-");
        }
        String::from_str("-")
    } else {
        String::new()
    };
    let qs = u64_to_string(q);
    if whole {
        sign.concat(qs.as_str())
    } else {
        // strip trailing zeros from the fractional digits numerically
        let mut frac = m % (SCALE as u64);
        let mut k: usize = 12;
        proof {
            assert(SCALE as int == 1000000000000int);
            crate::numparse::lemma_pow10_table();
        }
        while frac % 10 == 0
            invariant
                1 <= k <= 12,
                0 < (frac as int) && (frac as int) < crate::numparse::pow10(k as nat),
            trim_zeros(pad_str((m as int) % (SCALE as int), 12)) == trim_zeros(
                pad_str(frac as int, k as nat),
            ),
            decreases k,
        {
            proof {
                lemma_trim_pad_step(frac as int, k as nat);
                crate::numparse::lemma_pow10_pos((k - 1) as nat);
                assert(((frac as int) / 10) < crate::numparse::pow10((k - 1) as nat)) by {
                    assert((frac as int) < crate::numparse::pow10(k as nat));
                    assert(crate::numparse::pow10(k as nat) == 10 * crate::numparse::pow10(
                    (k - 1) as nat));
                };
                assert((frac as int) / 10 > 0);
            }
            frac = frac / 10;
            k = k - 1;
        }
        proof {
            lemma_trim_pad_done(frac as int, k as nat);
        }
        let fs = pad_string(frac, k);
        proof {
            reveal_strlit(".");
        }
        sign.concat(qs.as_str()).concat(".").concat(fs.as_str())
    }
}

} // verus!
