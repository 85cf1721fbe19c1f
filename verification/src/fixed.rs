//! Fixed-point decimal numbers.
//!
//! The vendor process prints plain decimal text and all downstream geometry
//! (matrix validation, quaternion extraction, millimeter-to-meter
//! conversion) is carried out on those values. The library represents such
//! a value exactly as a signed count of `1 / SCALE` steps, so every
//! operation is integer arithmetic with a precise contract. Multiplication
//! and division truncate toward zero, as the corresponding integer
//! operations do; the square root is the integer square root of the scaled
//! argument.

use vstd::prelude::*;

verus! {

/// Number of fixed-point units in 1.0 (a resolution of `10^-12`).
pub const SCALE: i64 = 1_000_000_000_000;

/// Largest magnitude (in units) accepted by `mul`: the product of two such
/// magnitudes, divided by `SCALE`, still fits in `i64`.
pub const MUL_IN_MAX: i64 = 3_000_000_000_000_000;

/// A fixed-point decimal number; `units` counts steps of `1 / SCALE`.
#[derive(Clone, Copy, PartialEq, Eq, Structural, Debug)]
pub struct Fix {
    pub units: i64,
}

/// Absolute value on `int`.
pub open spec fn iabs(a: int) -> int {
    if a < 0 {
        -a
    } else {
        a
    }
}

/// Division truncating toward zero, for positive divisors.
pub open spec fn trunc_div(a: int, b: int) -> int {
    if a >= 0 {
        a / b
    } else {
        -((-a) / b)
    }
}

/// `r` is the integer square root of `x`.
pub open spec fn is_sqrt(x: int, r: int) -> bool {
    0 <= r && r * r <= x && x < (r + 1) * (r + 1)
}

/// The integer square root of a nonnegative `x`.
pub closed spec fn sqrt_of(x: int) -> int {
    choose|r: int| #[trigger] is_sqrt(x, r)
}

/// Units of the product of two fixed-point values.
pub open spec fn mul_units(a: int, b: int) -> int {
    trunc_div(a * b, SCALE as int)
}

/// Units of the quotient of two fixed-point values.
pub open spec fn div_units(a: int, b: int) -> int {
    if (a >= 0) == (b >= 0) {
        (iabs(a) * SCALE) / iabs(b)
    } else {
        -((iabs(a) * SCALE) / iabs(b))
    }
}

/// Units of the square root of a nonnegative fixed-point value.
pub open spec fn sqrt_units(a: int) -> int {
    sqrt_of(a * SCALE)
}

impl Fix {
    /// The value as a mathematical multiple of `1 / SCALE`.
    pub open spec fn v(self) -> int {
        self.units as int
    }

    pub open spec fn spec_new(units: int) -> Fix {
        Fix { units: units as i64 }
    }
}

/// Every nonnegative integer has an integer square root.
pub proof fn lemma_sqrt_exists(x: int)
    requires
        0 <= x,
    ensures
        is_sqrt(x, sqrt_of(x)),
    decreases x,
{
    if x == 0 {
        assert(is_sqrt(0, 0));
    } else {
        lemma_sqrt_exists(x - 1);
        let r = sqrt_of(x - 1);
        if x < (r + 1) * (r + 1) {
            assert(is_sqrt(x, r));
        } else {
            assert(x == (r + 1) * (r + 1));
            assert((r + 1) * (r + 1) < (r + 2) * (r + 2)) by (nonlinear_arith)
                requires 0 <= r;
            assert(is_sqrt(x, r + 1));
        }
    }
}

/// The integer square root is unique.
pub proof fn lemma_sqrt_unique(x: int, r: int)
    requires
        is_sqrt(x, r),
    ensures
        r == sqrt_of(x),
{
    lemma_sqrt_exists(x);
    let s = sqrt_of(x);
    if r < s {
        assert((r + 1) * (r + 1) <= s * s) by (nonlinear_arith)
            requires 0 <= r, 0 <= s, r + 1 <= s;
        assert(false);
    }
    if s < r {
        assert((s + 1) * (s + 1) <= r * r) by (nonlinear_arith)
            requires 0 <= r, 0 <= s, s + 1 <= r;
        assert(false);
    }
}

/// Magnitude of an `i64` as a `u64`.
pub fn abs_units(a: i64) -> (r: u64)
    ensures
        r as int == iabs(a as int),
{
    if a >= 0 {
        a as u64
    } else if a == i64::MIN {
        9223372036854775808u64
    } else {
        (-a) as u64
    }
}

/// Integer square root of a `u128`.
pub fn isqrt_u128(x: u128) -> (r: u64)
    ensures
        is_sqrt(x as int, r as int),
{
    let mut lo: u128 = 0;
    let mut hi: u128 = 18446744073709551616u128;  // 2^64
    proof {
        assert((18446744073709551616 as int) * (18446744073709551616 as int) > u128::MAX as int);
    }
    while hi - lo > 1
        invariant
            0 <= lo < hi <= 18446744073709551616u128,
            (lo as int) * (lo as int) <= x as int,
            (x as int) < (hi as int) * (hi as int),
        decreases hi - lo,
    {
        let mid = lo + (hi - lo) / 2;
        proof {
            assert(lo < mid < hi);
            assert((mid as int) * (mid as int) <= (18446744073709551615 as int) * (
            18446744073709551615 as int)) by (nonlinear_arith)
                requires 0 <= mid as int <= 18446744073709551615int;
            assert((18446744073709551615 as int) * (18446744073709551615 as int) <= u128::MAX as int);
        }
        if mid * mid <= x {
            lo = mid;
        } else {
            hi = mid;
        }
    }
    proof {
        assert(lo * lo <= x as int);
        assert(hi == lo + 1);
        assert(lo <= 18446744073709551615u128);
    }
    lo as u64
}

/// Addition; the caller shows the sum fits.
pub fn fix_add(a: Fix, b: Fix) -> (r: Fix)
    requires
        i64::MIN <= a.units as int + b.units as int <= i64::MAX,
    ensures
        r.units as int == a.units as int + b.units as int,
{
    Fix { units: a.units + b.units }
}

/// Subtraction; the caller shows the difference fits.
pub fn fix_sub(a: Fix, b: Fix) -> (r: Fix)
    requires
        i64::MIN <= a.units as int - b.units as int <= i64::MAX,
    ensures
        r.units as int == a.units as int - b.units as int,
{
    Fix { units: a.units - b.units }
}

/// Multiplication, truncating toward zero.
pub fn fix_mul(a: Fix, b: Fix) -> (r: Fix)
    requires
        iabs(a.units as int) <= MUL_IN_MAX as int,
        iabs(b.units as int) <= MUL_IN_MAX as int,
    ensures
        r.units as int == mul_units(a.units as int, b.units as int),
{
    let ma = abs_units(a.units) as u128;
    let mb = abs_units(b.units) as u128;
    proof {
        assert(ma * mb <= (MUL_IN_MAX as int) * (MUL_IN_MAX as int)) by (nonlinear_arith)
            requires
                0 <= ma as int <= MUL_IN_MAX as int,
                0 <= mb as int <= MUL_IN_MAX as int,
        ;
        assert((MUL_IN_MAX as int) * (MUL_IN_MAX as int) / (SCALE as int) <= i64::MAX as int);
        lemma_abs_mul(a.units as int, b.units as int);
    }
    let p = ma * mb;
    let q = p / (SCALE as u128);
    proof {
        vstd::arithmetic::div_mod::lemma_div_is_ordered(
            p as int,
            (MUL_IN_MAX as int) * (MUL_IN_MAX as int),
            SCALE as int,
        );
    }
    let neg = (a.units < 0) != (b.units < 0);
    if neg {
        proof {
            lemma_trunc_div_neg(a.units as int * b.units as int, SCALE as int);
        }
        Fix { units: -(q as i64) }
    } else {
        Fix { units: q as i64 }
    }
}

/// `|a * b| == |a| * |b|`, and the sign of a product.
pub proof fn lemma_abs_mul(a: int, b: int)
    ensures
        iabs(a * b) == iabs(a) * iabs(b),
        ((a >= 0) == (b >= 0)) ==> a * b == iabs(a) * iabs(b),
        ((a >= 0) != (b >= 0)) ==> a * b == -(iabs(a) * iabs(b)),
{
    assert(iabs(a * b) == iabs(a) * iabs(b) && (((a >= 0) == (b >= 0)) ==> a * b == iabs(a) * iabs(
    b)) && (((a >= 0) != (b >= 0)) ==> a * b == -(iabs(a) * iabs(b)))) by (nonlinear_arith);
}

/// Truncating division of a negative dividend, written over the magnitude.
proof fn lemma_trunc_div_neg(a: int, b: int)
    requires
        b > 0,
    ensures
        a <= 0 ==> trunc_div(a, b) == -((-a) / b),
        a >= 0 ==> trunc_div(a, b) == a / b,
{
    if a == 0 {
        assert(0int / b == 0) by (nonlinear_arith)
            requires b > 0;
    }
}

/// Division, truncating toward zero; the caller shows the quotient fits.
pub fn fix_div(a: Fix, b: Fix) -> (r: Fix)
    requires
        b.units != 0,
        iabs(a.units as int) * SCALE as int <= i64::MAX as int * iabs(b.units as int),
    ensures
        r.units as int == div_units(a.units as int, b.units as int),
{
    let ma = abs_units(a.units) as u128;
    let mb = abs_units(b.units) as u128;
    proof {
        assert(ma * (SCALE as int) <= (u64::MAX as int) * (SCALE as int)) by (nonlinear_arith)
            requires 0 <= ma as int <= u64::MAX as int;
        assert((u64::MAX as int) * (SCALE as int) <= u128::MAX as int);
    }
    let p = ma * (SCALE as u128);
    let q = p / mb;
    proof {
        assert(mb >= 1);
        lemma_div_le_of_mul_le(p as int, i64::MAX as int, mb as int);
    }
    if (a.units >= 0) == (b.units >= 0) {
        Fix { units: q as i64 }
    } else {
        Fix { units: -(q as i64) }
    }
}

/// If `p <= c * m` with `m > 0` then `p / m <= c`.
proof fn lemma_div_le_of_mul_le(p: int, c: int, m: int)
    requires
        m > 0,
        0 <= p,
        0 <= c,
        p <= c * m,
    ensures
        p / m <= c,
{
    assert(p / m <= c) by (nonlinear_arith)
        requires m > 0, 0 <= p, 0 <= c, p <= c * m;
}

/// Square root of a nonnegative value.
pub fn fix_sqrt(a: Fix) -> (r: Fix)
    requires
        0 <= a.units,
    ensures
        r.units as int == sqrt_units(a.units as int),
        0 <= r.units,
{
    let x = (a.units as u128) * (SCALE as u128);
    proof {
        assert((a.units as int) * (SCALE as int) <= (i64::MAX as int) * (SCALE as int))
            by (nonlinear_arith)
            requires 0 <= a.units as int <= i64::MAX as int;
        assert((i64::MAX as int) * (SCALE as int) <= u128::MAX as int);
    }
    let r = isqrt_u128(x);
    proof {
        lemma_sqrt_unique(x as int, r as int);
        // the root of a value bounded by i64::MAX * SCALE fits in i64
        assert((3037000499999999 as int) * (3037000499999999 as int) >= (i64::MAX as int) * (
        SCALE as int));
        if r as int > 3037000499999999int {
            assert((r as int) * (r as int) >= (3037000500000000 as int) * (3037000500000000 as int))
                by (nonlinear_arith)
                requires r as int >= 3037000500000000int;
            assert((3037000500000000 as int) * (3037000500000000 as int) > (i64::MAX as int) * (
            SCALE as int));
        }
    }
    Fix { units: r as i64 }
}

/// An upper bound on the root from an upper bound on the square.
pub proof fn lemma_sqrt_le(x: int, b: int)
    requires
        0 <= x,
        0 <= b,
        x < (b + 1) * (b + 1),
    ensures
        sqrt_of(x) <= b,
{
    lemma_sqrt_exists(x);
    let r = sqrt_of(x);
    if r > b {
        assert((b + 1) * (b + 1) <= r * r) by (nonlinear_arith)
            requires 0 <= b, b + 1 <= r;
        assert(false);
    }
}

/// A lower bound on the root from a lower bound on the square.
pub proof fn lemma_sqrt_ge(x: int, b: int)
    requires
        0 <= b,
        b * b <= x,
    ensures
        sqrt_of(x) >= b,
{
    lemma_sqrt_exists(x);
    let r = sqrt_of(x);
    if r < b {
        assert((r + 1) * (r + 1) <= b * b) by (nonlinear_arith)
            requires 0 <= r, r + 1 <= b;
        assert(false);
    }
}

/// Bound on the magnitude of a fixed-point product.
pub proof fn lemma_mul_units_bound(a: int, b: int, c: int)
    requires
        iabs(a) * iabs(b) <= c,
        0 <= c,
    ensures
        iabs(mul_units(a, b)) <= c / (SCALE as int),
{
    lemma_abs_mul(a, b);
    let p = a * b;
    if p >= 0 {
        vstd::arithmetic::div_mod::lemma_div_is_ordered(p, c, SCALE as int);
        assert(p / (SCALE as int) >= 0) by (nonlinear_arith)
            requires p >= 0;
    } else {
        vstd::arithmetic::div_mod::lemma_div_is_ordered(-p, c, SCALE as int);
        assert((-p) / (SCALE as int) >= 0) by (nonlinear_arith)
            requires -p >= 0;
    }
}

/// Bound on the magnitude of a fixed-point quotient.
pub proof fn lemma_div_units_bound(a: int, b: int, na: int, nb: int)
    requires
        iabs(a) <= na,
        0 < nb <= iabs(b),
    ensures
        iabs(div_units(a, b)) <= (na * SCALE) / nb,
{
    let m = (iabs(a) * SCALE) / iabs(b);
    assert(iabs(a) * SCALE >= 0) by (nonlinear_arith)
        requires iabs(a) >= 0, SCALE > 0;
    assert(m >= 0) by {
        vstd::arithmetic::div_mod::lemma_div_is_ordered(0, iabs(a) * SCALE, iabs(b));
    }
    assert(iabs(a) * SCALE <= na * SCALE) by (nonlinear_arith)
        requires iabs(a) <= na, SCALE > 0;
    vstd::arithmetic::div_mod::lemma_div_is_ordered(iabs(a) * SCALE, na * SCALE, iabs(b));
    vstd::arithmetic::div_mod::lemma_div_is_ordered_by_denominator(na * SCALE, nb, iabs(b));
    assert(na * SCALE >= 0) by (nonlinear_arith)
        requires na >= 0, SCALE > 0;
}

} // verus!
