use phoxi_interface::fixed::{Fix, SCALE};
use phoxi_interface::matrix::{rot_check, Mat4};
use phoxi_interface::parse::{parse_result, Detection, ParsedResult};
use phoxi_interface::quat::{quaternion_from_matrix, rotation_of_quaternion, Quat};
use phoxi_interface::request::LocalizeRequest;
use phoxi_interface::transform::make_transforms;

fn request(stop_at_number: i64) -> LocalizeRequest {
    LocalizeRequest {
        scene_name: "scene".to_string(),
        target_name: "part".to_string(),
        source_format: "praw".to_string(),
        stop_at_timeout: 7000,
        stop_at_number,
        praw_dir: "/scans/praw".to_string(),
        ply_dir: "/scans/ply".to_string(),
        plcf_dir: "/plcfs".to_string(),
        settings: "default".to_string(),
    }
}

fn lines(texts: &[&str]) -> Vec<Vec<u8>> {
    texts.iter().map(|t| t.as_bytes().to_vec()).collect()
}

fn mat(rows: [[i64; 4]; 4]) -> Mat4 {
    Mat4 {
        m00: Fix { units: rows[0][0] },
        m01: Fix { units: rows[0][1] },
        m02: Fix { units: rows[0][2] },
        m03: Fix { units: rows[0][3] },
        m10: Fix { units: rows[1][0] },
        m11: Fix { units: rows[1][1] },
        m12: Fix { units: rows[1][2] },
        m13: Fix { units: rows[1][3] },
        m20: Fix { units: rows[2][0] },
        m21: Fix { units: rows[2][1] },
        m22: Fix { units: rows[2][2] },
        m23: Fix { units: rows[2][3] },
        m30: Fix { units: rows[3][0] },
        m31: Fix { units: rows[3][1] },
        m32: Fix { units: rows[3][2] },
        m33: Fix { units: rows[3][3] },
    }
}

fn identity_with_translation(x_mm: i64, y_mm: i64, z_mm: i64) -> Mat4 {
    mat([
        [SCALE, 0, 0, x_mm * SCALE],
        [0, SCALE, 0, y_mm * SCALE],
        [0, 0, SCALE, z_mm * SCALE],
        [0, 0, 0, SCALE],
    ])
}

#[test]
fn extraction_scenario_single_marker() {
    // a marker line followed by three rows of an identity transform with a
    // translation of (10, 20, 30) millimeters
    let data = lines(&[
        "foo",
        "RESULT",
        "1.0 0.0 0.0 10.0",
        "0.0 1.0 0.0 20.0",
        "0.0 0.0 1.0 30.0",
    ]);
    let r = parse_result(&request(1), &data);
    assert_eq!(r.count, 1);
    assert!(r.success);
    assert!(r.stop_criteria_met);
    assert_eq!(r.results.len(), 1);
    assert_eq!(r.results[0].label, "part");
    let m = &r.results[0].matrix;
    assert_eq!(m.m00.units, SCALE);
    assert_eq!(m.m03.units, 10 * SCALE);
    assert_eq!(m.m13.units, 20 * SCALE);
    assert_eq!(m.m23.units, 30 * SCALE);
    assert_eq!(m.m33.units, SCALE);

    let tfs = make_transforms(&r.results, "scanning_frame", 17);
    assert_eq!(tfs.len(), 1);
    let t = &tfs[0];
    // translation in meters: (0.01, 0.02, 0.03)
    assert_eq!(t.transform.translation.x.units, 10_000_000_000);
    assert_eq!(t.transform.translation.y.units, 20_000_000_000);
    assert_eq!(t.transform.translation.z.units, 30_000_000_000);
    // identity rotation: quaternion (0, 0, 0, 1) in (x, y, z, w) order
    assert_eq!(t.transform.rotation.x.units, 0);
    assert_eq!(t.transform.rotation.y.units, 0);
    assert_eq!(t.transform.rotation.z.units, 0);
    assert_eq!(t.transform.rotation.w.units, SCALE);
    assert_eq!(t.parent_frame_id, "scanning_frame");
    assert_eq!(t.time_stamp, 17);
    assert!(t.active_transform);
    assert!(t.enable_transform);
}

#[test]
fn extraction_rejects_bad_rows() {
    // the second row has five numeric tokens: the whole triple is skipped
    let data = lines(&[
        "RESULT",
        "1.0 0.0 0.0 10.0",
        "0.0 1.0 0.0 20.0 5.0",
        "0.0 0.0 1.0 30.0",
    ]);
    let r = parse_result(&request(1), &data);
    assert_eq!(r.count, 0);
    assert!(!r.success);
    assert!(!r.stop_criteria_met);
}

#[test]
fn extraction_marker_near_end_is_skipped() {
    let data = lines(&["RESULT", "1.0 0.0 0.0 10.0"]);
    let r = parse_result(&request(1), &data);
    assert_eq!(r.count, 0);
}

#[test]
fn extraction_marker_must_be_a_token() {
    // RESULTS is not the marker token; RESULT inside a longer run of
    // characters does not count
    let data = lines(&[
        "RESULTS",
        "1.0 0.0 0.0 10.0",
        "0.0 1.0 0.0 20.0",
        "0.0 0.0 1.0 30.0",
    ]);
    let r = parse_result(&request(1), &data);
    assert_eq!(r.count, 0);
    let data2 = lines(&[
        "status RESULT ok",
        "1.0 0.0 0.0 10.0",
        "0.0 1.0 0.0 20.0",
        "0.0 0.0 1.0 30.0",
    ]);
    let r2 = parse_result(&request(1), &data2);
    assert_eq!(r2.count, 1);
}

#[test]
fn zero_count_is_failure_for_any_stop_number() {
    for stop in [-5i64, 0, 1, 10] {
        let r = parse_result(&request(stop), &lines(&["no", "markers", "here"]));
        assert_eq!(r.count, 0);
        assert!(!r.success);
        assert!(!r.stop_criteria_met);
    }
}

#[test]
fn stop_criterion_against_count() {
    let mut texts: Vec<&str> = Vec::new();
    for _ in 0..5 {
        texts.push("RESULT");
        texts.push("1.0 0.0 0.0 10.0");
        texts.push("0.0 1.0 0.0 20.0");
        texts.push("0.0 0.0 1.0 30.0");
    }
    let data: Vec<Vec<u8>> = texts.iter().map(|t| t.as_bytes().to_vec()).collect();
    let partial = parse_result(&request(10), &data);
    assert_eq!(partial.count, 5);
    assert!(partial.success);
    assert!(!partial.stop_criteria_met);
    let met = parse_result(&request(3), &data);
    assert_eq!(met.count, 5);
    assert!(met.success);
    assert!(met.stop_criteria_met);
}

#[test]
fn quaternion_of_identity() {
    let m = identity_with_translation(0, 0, 0);
    assert!(rot_check(&m));
    let q = quaternion_from_matrix(&m);
    assert_eq!((q.x.units, q.y.units, q.z.units, q.w.units), (0, 0, 0, SCALE));
}

#[test]
fn quaternion_of_z_rotation() {
    // a 90-degree rotation about z
    let m = mat([
        [0, -SCALE, 0, 0],
        [SCALE, 0, 0, 0],
        [0, 0, SCALE, 0],
        [0, 0, 0, SCALE],
    ]);
    assert!(rot_check(&m));
    let q = quaternion_from_matrix(&m);
    assert_eq!(q.x.units, 0);
    assert_eq!(q.y.units, 0);
    assert_eq!(q.z.units, 707_106_781_186);
    assert_eq!(q.w.units, 707_106_781_186);
}

#[test]
fn quaternion_round_trip_exact_case() {
    // (0.5, 0.5, 0.5, 0.5) denotes a 120-degree rotation about (1,1,1);
    // every intermediate value is representable, so the round trip is exact
    let q = Quat {
        x: Fix { units: SCALE / 2 },
        y: Fix { units: SCALE / 2 },
        z: Fix { units: SCALE / 2 },
        w: Fix { units: SCALE / 2 },
    };
    let m = rotation_of_quaternion(&q);
    assert!(rot_check(&m));
    let back = quaternion_from_matrix(&m);
    assert_eq!(back, q);
}

#[test]
fn quaternion_round_trip_within_tolerance() {
    // round trips reproduce the quaternion up to sign within 1e-9
    let cases = [
        (0i64, 0, 707_106_781_186, 707_106_781_186),
        (707_106_781_186, 0, 0, 707_106_781_186),
        (0, 707_106_781_186, 0, 707_106_781_186),
        (0, 0, 0, SCALE),
    ];
    for (x, y, z, w) in cases {
        let q = Quat {
            x: Fix { units: x },
            y: Fix { units: y },
            z: Fix { units: z },
            w: Fix { units: w },
        };
        let m = rotation_of_quaternion(&q);
        assert!(rot_check(&m));
        let back = quaternion_from_matrix(&m);
        let tol = 1000i64;  // 1e-9 in units of 1e-12
        assert!((back.x.units - x).abs() <= tol);
        assert!((back.y.units - y).abs() <= tol);
        assert!((back.z.units - z).abs() <= tol);
        assert!((back.w.units - w).abs() <= tol);
    }
}

#[test]
fn translation_conversion_is_exact_on_whole_millimeters() {
    let m = identity_with_translation(1000, 2000, -3000);
    let dets = vec![Detection { matrix: m, label: "part".to_string() }];
    let tfs = make_transforms(&dets, "frame", 0);
    assert_eq!(tfs.len(), 1);
    assert_eq!(tfs[0].transform.translation.x.units, SCALE);
    assert_eq!(tfs[0].transform.translation.y.units, 2 * SCALE);
    assert_eq!(tfs[0].transform.translation.z.units, -3 * SCALE);
}

#[test]
fn corrupt_rotation_is_rejected() {
    // a scaled block is not orthonormal: the detection is dropped
    let bad = mat([
        [2 * SCALE, 0, 0, 0],
        [0, 2 * SCALE, 0, 0],
        [0, 0, 2 * SCALE, 0],
        [0, 0, 0, SCALE],
    ]);
    assert!(!rot_check(&bad));
    let dets = vec![
        Detection { matrix: bad, label: "bad".to_string() },
        Detection { matrix: identity_with_translation(0, 0, 0), label: "good".to_string() },
    ];
    let tfs = make_transforms(&dets, "frame", 0);
    assert_eq!(tfs.len(), 1);
    assert!(tfs[0].child_frame_id.starts_with("good_instance_"));
}

#[test]
fn child_frame_names_are_fresh() {
    let dets = vec![
        Detection { matrix: identity_with_translation(0, 0, 0), label: "part".to_string() },
        Detection { matrix: identity_with_translation(0, 0, 0), label: "part".to_string() },
    ];
    let tfs = make_transforms(&dets, "frame", 0);
    assert_eq!(tfs.len(), 2);
    for t in &tfs {
        assert!(t.child_frame_id.starts_with("part_instance_"));
        assert_eq!(t.child_frame_id.chars().count(), "part_instance_".len() + 6);
    }
    assert_ne!(tfs[0].child_frame_id, tfs[1].child_frame_id);
}

#[test]
fn empty_parsed_result() {
    let r = ParsedResult::new();
    assert!(!r.success);
    assert!(!r.stop_criteria_met);
    assert_eq!(r.count, 0);
    assert!(r.results.is_empty());
}
