//! Homogeneous 4x4 transform matrices.
//!
//! The upper-left 3x3 block must be a rotation: each row of unit length,
//! rows pairwise orthogonal, determinant +1, all within a fixed tolerance.
//! A matrix whose block fails the check stands for corrupted vendor output
//! and is rejected rather than coerced. The last column of the first three
//! rows is a translation in millimeters; the bottom row is [0, 0, 0, 1] by
//! construction.

use vstd::prelude::*;

use crate::fixed::{fix_add, fix_mul, fix_sub, iabs, lemma_mul_units_bound, mul_units, Fix, SCALE};

verus! {

/// Tolerance, in units, for the rotation-block checks (10^-3).
pub const ROT_TOL: i64 = 1_000_000_000;

/// Largest accepted magnitude, in units, of a rotation-block entry.
pub const ROT_ENTRY_MAX: i64 = 2_000_000_000_000;

/// A 4x4 homogeneous transform, row by row.
#[derive(Clone, Copy, PartialEq, Eq, Structural, Debug)]
pub struct Mat4 {
    pub m00: Fix,
    pub m01: Fix,
    pub m02: Fix,
    pub m03: Fix,
    pub m10: Fix,
    pub m11: Fix,
    pub m12: Fix,
    pub m13: Fix,
    pub m20: Fix,
    pub m21: Fix,
    pub m22: Fix,
    pub m23: Fix,
    pub m30: Fix,
    pub m31: Fix,
    pub m32: Fix,
    pub m33: Fix,
}

/// `x` is within the rotation tolerance of `c`.
pub open spec fn near(x: int, c: int) -> bool {
    c - ROT_TOL <= x <= c + ROT_TOL
}

/// Fixed-point dot product of two three-entry rows, given in units.
pub open spec fn dot_units(a0: int, a1: int, a2: int, b0: int, b1: int, b2: int) -> int {
    mul_units(a0, b0) + mul_units(a1, b1) + mul_units(a2, b2)
}

/// Every rotation-block entry has a small magnitude.
pub open spec fn rot_entries_bounded(m: Mat4) -> bool {
    &&& iabs(m.m00.units as int) <= ROT_ENTRY_MAX
    &&& iabs(m.m01.units as int) <= ROT_ENTRY_MAX
    &&& iabs(m.m02.units as int) <= ROT_ENTRY_MAX
    &&& iabs(m.m10.units as int) <= ROT_ENTRY_MAX
    &&& iabs(m.m11.units as int) <= ROT_ENTRY_MAX
    &&& iabs(m.m12.units as int) <= ROT_ENTRY_MAX
    &&& iabs(m.m20.units as int) <= ROT_ENTRY_MAX
    &&& iabs(m.m21.units as int) <= ROT_ENTRY_MAX
    &&& iabs(m.m22.units as int) <= ROT_ENTRY_MAX
}

/// Fixed-point determinant of the rotation block, in units.
pub open spec fn det_units(m: Mat4) -> int {
    let a = m.m00.units as int;
    let b = m.m01.units as int;
    let c = m.m02.units as int;
    let d = m.m10.units as int;
    let e = m.m11.units as int;
    let f = m.m12.units as int;
    let g = m.m20.units as int;
    let h = m.m21.units as int;
    let i = m.m22.units as int;
    mul_units(a, mul_units(e, i) - mul_units(f, h)) - mul_units(b, mul_units(d, i) - mul_units(
        f,
        g,
    )) + mul_units(c, mul_units(d, h) - mul_units(e, g))
}

/// The rotation block is orthonormal with determinant +1, within tolerance.
pub open spec fn rot_valid(m: Mat4) -> bool {
    let a = m.m00.units as int;
    let b = m.m01.units as int;
    let c = m.m02.units as int;
    let d = m.m10.units as int;
    let e = m.m11.units as int;
    let f = m.m12.units as int;
    let g = m.m20.units as int;
    let h = m.m21.units as int;
    let i = m.m22.units as int;
    &&& rot_entries_bounded(m)
    &&& near(dot_units(a, b, c, a, b, c), SCALE as int)
    &&& near(dot_units(d, e, f, d, e, f), SCALE as int)
    &&& near(dot_units(g, h, i, g, h, i), SCALE as int)
    &&& near(dot_units(a, b, c, d, e, f), 0)
    &&& near(dot_units(a, b, c, g, h, i), 0)
    &&& near(dot_units(d, e, f, g, h, i), 0)
    &&& near(det_units(m), SCALE as int)
}

/// The magnitude bound that row products obey.
pub proof fn lemma_rot_product_bound(a: int, b: int)
    requires
        iabs(a) <= ROT_ENTRY_MAX as int,
        iabs(b) <= ROT_ENTRY_MAX as int,
    ensures
        iabs(mul_units(a, b)) <= 4_000_000_000_000int,
{
    assert(iabs(a) * iabs(b) <= 4_000_000_000_000_000_000_000_000int) by (nonlinear_arith)
        requires
            0 <= iabs(a) <= 2_000_000_000_000int,
            0 <= iabs(b) <= 2_000_000_000_000int,
    ;
    lemma_mul_units_bound(a, b, 4_000_000_000_000_000_000_000_000int);
    assert(4_000_000_000_000_000_000_000_000int / (SCALE as int) == 4_000_000_000_000int);
}

/// Fixed-point dot product of two rows.
fn dot_rows(a0: Fix, a1: Fix, a2: Fix, b0: Fix, b1: Fix, b2: Fix) -> (r: Fix)
    requires
        iabs(a0.units as int) <= ROT_ENTRY_MAX as int,
        iabs(a1.units as int) <= ROT_ENTRY_MAX as int,
        iabs(a2.units as int) <= ROT_ENTRY_MAX as int,
        iabs(b0.units as int) <= ROT_ENTRY_MAX as int,
        iabs(b1.units as int) <= ROT_ENTRY_MAX as int,
        iabs(b2.units as int) <= ROT_ENTRY_MAX as int,
    ensures
        r.units as int == dot_units(
            a0.units as int,
            a1.units as int,
            a2.units as int,
            b0.units as int,
            b1.units as int,
            b2.units as int,
        ),
{
    proof {
        lemma_rot_product_bound(a0.units as int, b0.units as int);
        lemma_rot_product_bound(a1.units as int, b1.units as int);
        lemma_rot_product_bound(a2.units as int, b2.units as int);
    }
    let p0 = fix_mul(a0, b0);
    let p1 = fix_mul(a1, b1);
    let p2 = fix_mul(a2, b2);
    fix_add(fix_add(p0, p1), p2)
}

/// Whether the rotation block of `m` passes the orthonormality check.
pub fn rot_check(m: &Mat4) -> (r: bool)
    ensures
        r == rot_valid(*m),
{
    let bound_ok = entry_ok(m.m00) && entry_ok(m.m01) && entry_ok(m.m02) && entry_ok(m.m10)
        && entry_ok(m.m11) && entry_ok(m.m12) && entry_ok(m.m20) && entry_ok(m.m21) && entry_ok(
        m.m22,
    );
    if !bound_ok {
        return false;
    }
    let r0 = dot_rows(m.m00, m.m01, m.m02, m.m00, m.m01, m.m02);
    let r1 = dot_rows(m.m10, m.m11, m.m12, m.m10, m.m11, m.m12);
    let r2 = dot_rows(m.m20, m.m21, m.m22, m.m20, m.m21, m.m22);
    let o01 = dot_rows(m.m00, m.m01, m.m02, m.m10, m.m11, m.m12);
    let o02 = dot_rows(m.m00, m.m01, m.m02, m.m20, m.m21, m.m22);
    let o12 = dot_rows(m.m10, m.m11, m.m12, m.m20, m.m21, m.m22);
    let d = det3(m);
    near_check(r0, SCALE) && near_check(r1, SCALE) && near_check(r2, SCALE) && near_check(o01, 0)
        && near_check(o02, 0) && near_check(o12, 0) && near_check(d, SCALE)
}

/// One entry of the rotation block is within the accepted magnitude.
fn entry_ok(e: Fix) -> (r: bool)
    ensures
        r == (iabs(e.units as int) <= ROT_ENTRY_MAX as int),
{
    -ROT_ENTRY_MAX <= e.units && e.units <= ROT_ENTRY_MAX
}

/// `x` is within the rotation tolerance of `c`.
fn near_check(x: Fix, c: i64) -> (r: bool)
    requires
        0 <= c,
        c + ROT_TOL <= i64::MAX,
        c - ROT_TOL >= i64::MIN,
    ensures
        r == near(x.units as int, c as int),
{
    c - ROT_TOL <= x.units && x.units <= c + ROT_TOL
}

/// Fixed-point determinant of the rotation block.
fn det3(m: &Mat4) -> (r: Fix)
    requires
        rot_entries_bounded(*m),
    ensures
        r.units as int == det_units(*m),
{
    proof {
        lemma_rot_product_bound(m.m11.units as int, m.m22.units as int);
        lemma_rot_product_bound(m.m12.units as int, m.m21.units as int);
        lemma_rot_product_bound(m.m10.units as int, m.m22.units as int);
        lemma_rot_product_bound(m.m12.units as int, m.m20.units as int);
        lemma_rot_product_bound(m.m10.units as int, m.m21.units as int);
        lemma_rot_product_bound(m.m11.units as int, m.m20.units as int);
    }
    let c00 = fix_sub(fix_mul(m.m11, m.m22), fix_mul(m.m12, m.m21));
    let c01 = fix_sub(fix_mul(m.m10, m.m22), fix_mul(m.m12, m.m20));
    let c02 = fix_sub(fix_mul(m.m10, m.m21), fix_mul(m.m11, m.m20));
    proof {
        lemma_cofactor_bound(m.m00.units as int, c00.units as int);
        lemma_cofactor_bound(m.m01.units as int, c01.units as int);
        lemma_cofactor_bound(m.m02.units as int, c02.units as int);
    }
    let t0 = fix_mul(m.m00, c00);
    let t1 = fix_mul(m.m01, c01);
    let t2 = fix_mul(m.m02, c02);
    fix_add(fix_sub(t0, t1), t2)
}

/// A rotation entry times a cofactor stays small.
proof fn lemma_cofactor_bound(a: int, c: int)
    requires
        iabs(a) <= ROT_ENTRY_MAX as int,
        iabs(c) <= 8_000_000_000_000int,
    ensures
        iabs(mul_units(a, c)) <= 16_000_000_000_000int,
{
    assert(iabs(a) * iabs(c) <= 16_000_000_000_000_000_000_000_000int) by (nonlinear_arith)
        requires
            0 <= iabs(a) <= 2_000_000_000_000int,
            0 <= iabs(c) <= 8_000_000_000_000int,
    ;
    lemma_mul_units_bound(a, c, 16_000_000_000_000_000_000_000_000int);
    assert(16_000_000_000_000_000_000_000_000int / (SCALE as int) == 16_000_000_000_000int);
}

} // verus!
