//! Rotation quaternions.
//!
//! A rotation block is converted to a unit quaternion with the trace-based
//! case split, computed in fixed-point arithmetic; the component order is
//! (x, y, z, w) and the scalar part is normalized to be nonnegative. The
//! inverse direction rebuilds the rotation block from a quaternion.

use vstd::prelude::*;

use crate::fixed::{
    div_units, fix_add, fix_div, fix_mul, fix_sqrt, fix_sub, iabs, lemma_div_units_bound,
    lemma_sqrt_ge, lemma_sqrt_le, mul_units, sqrt_units, Fix, SCALE,
};
use crate::matrix::{lemma_rot_product_bound, rot_valid, Mat4, ROT_ENTRY_MAX};

verus! {

/// A quaternion in (x, y, z, w) component order.
#[derive(Clone, Copy, PartialEq, Eq, Structural, Debug)]
pub struct Quat {
    pub x: Fix,
    pub y: Fix,
    pub z: Fix,
    pub w: Fix,
}

/// The quaternion read off the rotation block, before sign normalization.
pub open spec fn quat_raw_from(m: Mat4) -> Quat {
    let a = m.m00.units as int;
    let b = m.m01.units as int;
    let c = m.m02.units as int;
    let d = m.m10.units as int;
    let e = m.m11.units as int;
    let f = m.m12.units as int;
    let g = m.m20.units as int;
    let h = m.m21.units as int;
    let i = m.m22.units as int;
    let t = a + e + i;
    if t > 0 {
        let s2 = sqrt_units(SCALE + t);
        let s = 2 * s2;
        Quat {
            x: Fix::spec_new(div_units(h - f, s)),
            y: Fix::spec_new(div_units(c - g, s)),
            z: Fix::spec_new(div_units(d - b, s)),
            w: Fix::spec_new(s2 / 2),
        }
    } else if a >= e && a >= i {
        let s2 = sqrt_units(SCALE + a - e - i);
        let s = 2 * s2;
        Quat {
            x: Fix::spec_new(s2 / 2),
            y: Fix::spec_new(div_units(b + d, s)),
            z: Fix::spec_new(div_units(c + g, s)),
            w: Fix::spec_new(div_units(h - f, s)),
        }
    } else if e >= i {
        let s2 = sqrt_units(SCALE + e - a - i);
        let s = 2 * s2;
        Quat {
            x: Fix::spec_new(div_units(b + d, s)),
            y: Fix::spec_new(s2 / 2),
            z: Fix::spec_new(div_units(f + h, s)),
            w: Fix::spec_new(div_units(c - g, s)),
        }
    } else {
        let s2 = sqrt_units(SCALE + i - a - e);
        let s = 2 * s2;
        Quat {
            x: Fix::spec_new(div_units(c + g, s)),
            y: Fix::spec_new(div_units(f + h, s)),
            z: Fix::spec_new(s2 / 2),
            w: Fix::spec_new(div_units(d - b, s)),
        }
    }
}

/// The canonical quaternion of a rotation block: scalar part nonnegative.
pub open spec fn quat_from(m: Mat4) -> Quat {
    let q = quat_raw_from(m);
    if q.w.units < 0 {
        Quat {
            x: Fix::spec_new(-(q.x.units as int)),
            y: Fix::spec_new(-(q.y.units as int)),
            z: Fix::spec_new(-(q.z.units as int)),
            w: Fix::spec_new(-(q.w.units as int)),
        }
    } else {
        q
    }
}

/// All four components have a small magnitude.
pub open spec fn quat_bounded(q: Quat) -> bool {
    &&& iabs(q.x.units as int) <= ROT_ENTRY_MAX as int
    &&& iabs(q.y.units as int) <= ROT_ENTRY_MAX as int
    &&& iabs(q.z.units as int) <= ROT_ENTRY_MAX as int
    &&& iabs(q.w.units as int) <= ROT_ENTRY_MAX as int
}

/// Half of a nonnegative value.
fn half_nonneg(a: Fix) -> (r: Fix)
    requires
        0 <= a.units,
    ensures
        r.units as int == (a.units as int) / 2,
{
    Fix { units: ((a.units as u64) / 2) as i64 }
}

/// The square-root scale factor of one branch: its argument is between one
/// and seven, so the root is between one and three.
fn branch_scale(expr: Fix) -> (r: (Fix, Fix))
    requires
        SCALE as int <= expr.units as int <= 7_000_000_000_000int,
    ensures
        r.0.units as int == sqrt_units(expr.units as int),
        r.1.units as int == 2 * sqrt_units(expr.units as int),
        1_000_000_000_000int <= r.0.units as int <= 3_000_000_000_000int,
{
    let s2 = fix_sqrt(expr);
    proof {
        let x = (expr.units as int) * (SCALE as int);
        assert(x <= 7_000_000_000_000_000_000_000_000int) by (nonlinear_arith)
            requires
                x == (expr.units as int) * (SCALE as int),
                (expr.units as int) <= 7_000_000_000_000int,
                SCALE as int == 1_000_000_000_000int,
        ;
        assert(x >= 1_000_000_000_000_000_000_000_000int) by (nonlinear_arith)
            requires
                x == (expr.units as int) * (SCALE as int),
                (expr.units as int) >= 1_000_000_000_000int,
                SCALE as int == 1_000_000_000_000int,
        ;
        assert((3_000_000_000_001int) * (3_000_000_000_001int) > 7_000_000_000_000_000_000_000_000int)
            by (nonlinear_arith);
        lemma_sqrt_le(x, 3_000_000_000_000int);
        assert((1_000_000_000_000int) * (1_000_000_000_000int) <= x);
        lemma_sqrt_ge(x, 1_000_000_000_000int);
    }
    let s = Fix { units: 2 * s2.units };
    (s2, s)
}

/// Quotient of a row combination by the branch scale factor.
fn branch_div(num: Fix, s: Fix) -> (r: Fix)
    requires
        iabs(num.units as int) <= 4_000_000_000_000int,
        2_000_000_000_000int <= s.units as int <= 6_000_000_000_000int,
    ensures
        r.units as int == div_units(num.units as int, s.units as int),
        iabs(r.units as int) <= ROT_ENTRY_MAX as int,
{
    proof {
        assert(iabs(num.units as int) * (SCALE as int) <= 4_000_000_000_000_000_000_000_000int)
            by (nonlinear_arith)
            requires iabs(num.units as int) <= 4_000_000_000_000int, SCALE as int == 1_000_000_000_000int;
        assert((i64::MAX as int) * iabs(s.units as int) >= (i64::MAX as int)
            * 2_000_000_000_000int) by (nonlinear_arith)
            requires iabs(s.units as int) >= 2_000_000_000_000int;
        lemma_div_units_bound(num.units as int, s.units as int, 4_000_000_000_000int,
            2_000_000_000_000int);
        assert((4_000_000_000_000int * (SCALE as int)) / 2_000_000_000_000int
            == 2_000_000_000_000int);
    }
    fix_div(num, s)
}

/// Extract the canonical unit quaternion of a valid rotation block,
/// by the trace-based case split.
pub fn quaternion_from_matrix(m: &Mat4) -> (q: Quat)
    requires
        rot_valid(*m),
    ensures
        q == quat_from(*m),
        quat_bounded(q),
        q.w.units >= 0,
{
    let t = fix_add(fix_add(m.m00, m.m11), m.m22);
    let one = Fix { units: SCALE };
    let raw: Quat = if t.units > 0 {
        let expr = fix_add(t, one);
        let (s2, s) = branch_scale(expr);
        let qx = branch_div(fix_sub(m.m21, m.m12), s);
        let qy = branch_div(fix_sub(m.m02, m.m20), s);
        let qz = branch_div(fix_sub(m.m10, m.m01), s);
        let qw = half_nonneg(s2);
        Quat { x: qx, y: qy, z: qz, w: qw }
    } else if m.m00.units >= m.m11.units && m.m00.units >= m.m22.units {
        let expr = fix_sub(fix_sub(fix_add(one, m.m00), m.m11), m.m22);
        let (s2, s) = branch_scale(expr);
        let qx = half_nonneg(s2);
        let qy = branch_div(fix_add(m.m01, m.m10), s);
        let qz = branch_div(fix_add(m.m02, m.m20), s);
        let qw = branch_div(fix_sub(m.m21, m.m12), s);
        Quat { x: qx, y: qy, z: qz, w: qw }
    } else if m.m11.units >= m.m22.units {
        let expr = fix_sub(fix_sub(fix_add(one, m.m11), m.m00), m.m22);
        let (s2, s) = branch_scale(expr);
        let qx = branch_div(fix_add(m.m01, m.m10), s);
        let qy = half_nonneg(s2);
        let qz = branch_div(fix_add(m.m12, m.m21), s);
        let qw = branch_div(fix_sub(m.m02, m.m20), s);
        Quat { x: qx, y: qy, z: qz, w: qw }
    } else {
        let expr = fix_sub(fix_sub(fix_add(one, m.m22), m.m00), m.m11);
        let (s2, s) = branch_scale(expr);
        let qx = branch_div(fix_add(m.m02, m.m20), s);
        let qy = branch_div(fix_add(m.m12, m.m21), s);
        let qz = half_nonneg(s2);
        let qw = branch_div(fix_sub(m.m10, m.m01), s);
        Quat { x: qx, y: qy, z: qz, w: qw }
    };
    proof {
        assert(raw == quat_raw_from(*m));
    }
    if raw.w.units < 0 {
        Quat {
            x: Fix { units: -raw.x.units },
            y: Fix { units: -raw.y.units },
            z: Fix { units: -raw.z.units },
            w: Fix { units: -raw.w.units },
        }
    } else {
        raw
    }
}

/// The rotation block denoted by a quaternion, as a homogeneous matrix
/// with zero translation.
pub open spec fn rot_of(q: Quat) -> Mat4 {
    let x = q.x.units as int;
    let y = q.y.units as int;
    let z = q.z.units as int;
    let w = q.w.units as int;
    Mat4 {
        m00: Fix::spec_new(SCALE as int - 2 * (mul_units(y, y) + mul_units(z, z))),
        m01: Fix::spec_new(2 * (mul_units(x, y) - mul_units(z, w))),
        m02: Fix::spec_new(2 * (mul_units(x, z) + mul_units(y, w))),
        m03: Fix::spec_new(0),
        m10: Fix::spec_new(2 * (mul_units(x, y) + mul_units(z, w))),
        m11: Fix::spec_new(SCALE as int - 2 * (mul_units(x, x) + mul_units(z, z))),
        m12: Fix::spec_new(2 * (mul_units(y, z) - mul_units(x, w))),
        m13: Fix::spec_new(0),
        m20: Fix::spec_new(2 * (mul_units(x, z) - mul_units(y, w))),
        m21: Fix::spec_new(2 * (mul_units(y, z) + mul_units(x, w))),
        m22: Fix::spec_new(SCALE as int - 2 * (mul_units(x, x) + mul_units(y, y))),
        m23: Fix::spec_new(0),
        m30: Fix::spec_new(0),
        m31: Fix::spec_new(0),
        m32: Fix::spec_new(0),
        m33: Fix::spec_new(SCALE as int),
    }
}

/// One off-diagonal rotation entry: twice a sum or difference of products.
fn rot_entry(p: Fix, n: Fix, sub: bool) -> (r: Fix)
    requires
        iabs(p.units as int) <= 4_000_000_000_000int,
        iabs(n.units as int) <= 4_000_000_000_000int,
    ensures
        sub ==> r.units as int == 2 * (p.units as int - n.units as int),
        !sub ==> r.units as int == 2 * (p.units as int + n.units as int),
{
    if sub {
        Fix { units: 2 * (p.units - n.units) }
    } else {
        Fix { units: 2 * (p.units + n.units) }
    }
}

/// Rebuild the rotation block from a quaternion.
pub fn rotation_of_quaternion(q: &Quat) -> (m: Mat4)
    requires
        quat_bounded(*q),
    ensures
        m == rot_of(*q),
{
    proof {
        lemma_rot_product_bound(q.x.units as int, q.x.units as int);
        lemma_rot_product_bound(q.x.units as int, q.y.units as int);
        lemma_rot_product_bound(q.x.units as int, q.z.units as int);
        lemma_rot_product_bound(q.x.units as int, q.w.units as int);
        lemma_rot_product_bound(q.y.units as int, q.y.units as int);
        lemma_rot_product_bound(q.y.units as int, q.z.units as int);
        lemma_rot_product_bound(q.y.units as int, q.w.units as int);
        lemma_rot_product_bound(q.z.units as int, q.z.units as int);
        lemma_rot_product_bound(q.z.units as int, q.w.units as int);
    }
    let xx = fix_mul(q.x, q.x);
    let xy = fix_mul(q.x, q.y);
    let xz = fix_mul(q.x, q.z);
    let xw = fix_mul(q.x, q.w);
    let yy = fix_mul(q.y, q.y);
    let yz = fix_mul(q.y, q.z);
    let yw = fix_mul(q.y, q.w);
    let zz = fix_mul(q.z, q.z);
    let zw = fix_mul(q.z, q.w);
    let zero = Fix { units: 0 };
    Mat4 {
        m00: Fix { units: SCALE - 2 * (yy.units + zz.units) },
        m01: rot_entry(xy, zw, true),
        m02: rot_entry(xz, yw, false),
        m03: zero,
        m10: rot_entry(xy, zw, false),
        m11: Fix { units: SCALE - 2 * (xx.units + zz.units) },
        m12: rot_entry(yz, xw, true),
        m13: zero,
        m20: rot_entry(xz, yw, true),
        m21: rot_entry(yz, xw, false),
        m22: Fix { units: SCALE - 2 * (xx.units + yy.units) },
        m23: zero,
        m30: zero,
        m31: zero,
        m32: zero,
        m33: Fix { units: SCALE },
    }
}

} // verus!
