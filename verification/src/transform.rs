//! Stamped spatial transforms.
//!
//! Each accepted detection becomes one stamped transform: the rotation
//! block, validated as orthonormal, is converted to a canonical unit
//! quaternion; the translation column is converted from millimeters to
//! meters; the child frame gets a fresh unique name built from the
//! detection's label and a short random suffix.

use vstd::prelude::*;

use crate::fixed::{trunc_div, Fix};
use crate::matrix::rot_valid;
use crate::parse::Detection;
use crate::quat::quat_from;

verus! {

/// A translation in meters.
#[derive(Clone, Copy, PartialEq, Eq, Structural, Debug)]
pub struct SPTranslation {
    pub x: Fix,
    pub y: Fix,
    pub z: Fix,
}

/// A rotation as a quaternion in (x, y, z, w) component order.
#[derive(Clone, Copy, PartialEq, Eq, Structural, Debug)]
pub struct SPRotation {
    pub x: Fix,
    pub y: Fix,
    pub z: Fix,
    pub w: Fix,
}

/// A rigid-body pose.
#[derive(Clone, Copy, PartialEq, Eq, Structural, Debug)]
pub struct SPTransform {
    pub translation: SPTranslation,
    pub rotation: SPRotation,
}

/// A pose attached to a parent/child frame pair, with a capture
/// timestamp in milliseconds.
#[derive(Debug)]
pub struct SPTransformStamped {
    pub active_transform: bool,
    pub enable_transform: bool,
    pub time_stamp: u64,
    pub parent_frame_id: String,
    pub child_frame_id: String,
    pub transform: SPTransform,
}

/// Millimeter units to meter units: division by 1000, toward zero.
pub open spec fn mm_to_m_units(u: int) -> int {
    trunc_div(u, 1000)
}

/// Convert one translation component from millimeters to meters.
pub fn mm_to_m(t: Fix) -> (r: Fix)
    ensures
        r.units as int == mm_to_m_units(t.units as int),
{
    let mag = crate::fixed::abs_units(t.units);
    let q = mag / 1000;
    if t.units < 0 {
        Fix { units: -(q as i64) }
    } else {
        Fix { units: q as i64 }
    }
}

/// Converting a whole number of thousandths is exact: multiplying the
/// meter value back by 1000 returns the original millimeter value. This
/// holds of every representable multiple of 1000, so translations such as
/// whole millimeters convert without rounding.
pub proof fn lemma_translation_exact(u: int)
    requires
        u % 1000 == 0,
    ensures
        1000 * mm_to_m_units(u) == u,
{
    if u >= 0 {
        vstd::arithmetic::div_mod::lemma_fundamental_div_mod(u, 1000);
    } else {
        vstd::arithmetic::div_mod::lemma_fundamental_div_mod(u, 1000);
        assert(u == 1000 * (u / 1000));
        assert(-u == (-(u / 1000)) * 1000 + 0) by (nonlinear_arith)
            requires u == 1000 * (u / 1000);
        vstd::arithmetic::div_mod::lemma_fundamental_div_mod_converse(-u, 1000, -(u / 1000), 0);
    }
}

/// The detections whose rotation block passes the orthonormality check.
pub open spec fn valid_dets(dets: Seq<Detection>) -> Seq<Detection>
    decreases dets.len(),
{
    if dets.len() == 0 {
        Seq::empty()
    } else {
        let rest = valid_dets(dets.drop_first());
        if rot_valid(dets.first().matrix) {
            seq![dets.first()] + rest
        } else {
            rest
        }
    }
}

/// The deterministic parts of the transform made from one detection.
pub open spec fn transform_matches(
    t: SPTransformStamped,
    d: Detection,
    frame: Seq<char>,
    stamp: u64,
) -> bool {
    &&& t.active_transform
    &&& t.enable_transform
    &&& t.time_stamp == stamp
    &&& t.parent_frame_id@ == frame
    &&& (exists|sfx: Seq<char>|
        sfx.len() == 6 && t.child_frame_id@ == d.label@ + "_instance_"@ + sfx)
    &&& t.transform.translation.x.units as int == mm_to_m_units(d.matrix.m03.units as int)
    &&& t.transform.translation.y.units as int == mm_to_m_units(d.matrix.m13.units as int)
    &&& t.transform.translation.z.units as int == mm_to_m_units(d.matrix.m23.units as int)
    &&& ({
        let q = quat_from(d.matrix);
        t.transform.rotation == SPRotation { x: q.x, y: q.y, z: q.z, w: q.w }
    })
}

/// Relies on nanoid's `format` with its default generator and URL-safe
/// alphabet: the result has exactly the requested number of symbols, all
/// from that ASCII alphabet.
#[verifier::external_body]
fn fresh_suffix() -> (r: String)
    ensures
        r@.len() == 6,
{
    nanoid::format(nanoid::rngs::default, &nanoid::alphabet::SAFE, 6)
}

/// The fresh child frame name: label, a fixed separator, a random suffix.
fn child_frame_name(label: &String) -> (r: String)
    ensures
        exists|sfx: Seq<char>| sfx.len() == 6 && r@ == label@ + "_instance_"@ + sfx,
{
    let sfx = fresh_suffix();
    let r = label.clone().concat("_instance_").concat(sfx.as_str());
    proof {
        assert(sfx@.len() == 6 && r@ == label@ + "_instance_"@ + sfx@);
    }
    r
}

/// Turn each detection whose matrix passes the rotation check into a
/// stamped transform; corrupt matrices are dropped, not coerced.
pub fn make_transforms(matrices: &Vec<Detection>, scanning_frame: &str, time_stamp: u64) -> (r:
    Vec<SPTransformStamped>)
    ensures
        r@.len() == valid_dets(matrices@).len(),
        forall|k: int|
            0 <= k < r@.len() ==> transform_matches(
                #[trigger] r@[k],
                valid_dets(matrices@)[k],
                scanning_frame@,
                time_stamp,
            ),
{
    let n = matrices.len();
    let mut out: Vec<SPTransformStamped> = Vec::new();
    let ghost mut vd: Seq<Detection> = Seq::empty();
    let mut i: usize = 0;
    proof {
        assert(matrices@.skip(0) =~= matrices@);
        assert(vd + valid_dets(matrices@.skip(0)) =~= valid_dets(matrices@));
    }
    while i < n
        invariant
            i <= n,
            n == matrices@.len(),
            valid_dets(matrices@) == vd + valid_dets(matrices@.skip(i as int)),
            out@.len() == vd.len(),
            forall|k: int|
                0 <= k < out@.len() ==> transform_matches(
                    #[trigger] out@[k],
                    vd[k],
                    scanning_frame@,
                    time_stamp,
                ),
        decreases n - i,
    {
        let d = &matrices[i];
        proof {
            assert(matrices@.skip(i as int).first() == matrices@[i as int]);
            assert(matrices@.skip(i as int).drop_first() =~= matrices@.skip(i as int + 1));
        }
        if crate::matrix::rot_check(&d.matrix) {
            let q = crate::quat::quaternion_from_matrix(&d.matrix);
            let t = SPTransformStamped {
                active_transform: true,
                enable_transform: true,
                time_stamp,
                parent_frame_id: scanning_frame.to_owned(),
                child_frame_id: child_frame_name(&d.label),
                transform: SPTransform {
                    translation: SPTranslation {
                        x: mm_to_m(d.matrix.m03),
                        y: mm_to_m(d.matrix.m13),
                        z: mm_to_m(d.matrix.m23),
                    },
                    rotation: SPRotation { x: q.x, y: q.y, z: q.z, w: q.w },
                },
            };
            out.push(t);
            proof {
                vd = vd + seq![matrices@[i as int]];
                assert(valid_dets(matrices@) =~= vd + valid_dets(matrices@.skip(i as int + 1)));
            }
        } else {
            proof {
                assert(valid_dets(matrices@.skip(i as int)) == valid_dets(
                    matrices@.skip(i as int + 1),
                ));
            }
        }
        i = i + 1;
    }
    proof {
        assert(valid_dets(matrices@.skip(n as int)) =~= Seq::<Detection>::empty());
        assert(vd =~= valid_dets(matrices@));
    }
    out
}

} // verus!
