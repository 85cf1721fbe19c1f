use phoxi_interface::driver::{
    finish_localization_tick, finish_scan_tick, generate_photoneo_interface_state,
    generate_photoneo_localization_interface_state, key_of, localization_keys,
    plan_localization_tick, plan_scan_tick, scan_keys,
};
use phoxi_interface::exec::{exec_deadline_ms, ExecError, GRACE_PERIOD_MS};
use phoxi_interface::fixed::Fix;
use phoxi_interface::parse::ParsedResult;
use phoxi_interface::state::{sp_value_eq, SPValue, State};
use phoxi_interface::transform::{SPRotation, SPTransform, SPTransformStamped, SPTranslation};

fn entry(key: &str, v: SPValue) -> (String, SPValue) {
    (key.to_string(), v)
}

fn triggered_snapshot(state_text: &str) -> State {
    State {
        entries: vec![
            entry("cam_localization_request_trigger", SPValue::Bool(Some(true))),
            entry("cam_localization_request_state", SPValue::Text(Some(state_text.to_string()))),
            entry("cam_localization_scene_name", SPValue::Text(Some("bin".to_string()))),
            entry("cam_localization_target_name", SPValue::Text(Some("widget".to_string()))),
            entry("cam_localization_source_format", SPValue::Text(Some("praw".to_string()))),
            entry("cam_localization_stop_at_timeout", SPValue::Int64(Some(7000))),
            entry("cam_localization_stop_at_number", SPValue::Int64(Some(2))),
            entry("cam_localization_settings", SPValue::Text(Some("default".to_string()))),
        ],
    }
}

#[test]
fn key_lists() {
    let lk = localization_keys("cam");
    assert_eq!(lk.len(), 13);
    assert_eq!(lk[0], "cam_localization_request_trigger");
    assert_eq!(lk[8], "cam_localization_scanning_frame");
    assert_eq!(lk[12], "cam_localization_transforms");
    let sk = scan_keys("cam");
    assert_eq!(sk.len(), 12);
    assert_eq!(sk[0], "cam_request_trigger");
    assert_eq!(sk[11], "cam_settings");
    assert_eq!(key_of("cam", "_praw"), "cam_praw");
}

#[test]
fn generated_localization_state() {
    let s = generate_photoneo_localization_interface_state("cam");
    assert_eq!(s.entries.len(), 14);
    let trigger = key_of("cam", "_localization_request_trigger");
    assert!(!s.get_bool_or_default_to_false(&trigger));
    let state_key = key_of("cam", "_localization_request_state");
    assert_eq!(s.get_string_or_default_to_unknown(&state_key), "initial");
    let scene = key_of("cam", "_localization_scene_name");
    assert_eq!(s.get_string_or_unknown(&scene), None);
    let count = key_of("cam", "_localization_count");
    assert_eq!(s.get_int_or_unknown(&count), None);
}

#[test]
fn generated_scan_state() {
    let s = generate_photoneo_interface_state("cam");
    assert_eq!(s.entries.len(), 17);
    assert!(!s.get_bool_or_default_to_false(&key_of("cam", "_request_trigger")));
    assert_eq!(s.get_string_or_default_to_unknown(&key_of("cam", "_request_state")), "initial");
    assert_eq!(s.get_int_or_unknown(&key_of("cam", "_total_fail_counter")), Some(0));
    assert_eq!(s.get_bool_or_unknown(&key_of("cam", "_praw")), None);
}

#[test]
fn state_getters_default_on_missing_and_mistyped() {
    let s = State {
        entries: vec![entry("k_int", SPValue::Text(Some("oops".to_string())))],
    };
    assert_eq!(s.get_int_or_default_to_zero(&"k_int".to_string()), 0);
    assert_eq!(s.get_int_or_default_to_zero(&"absent".to_string()), 0);
    assert!(!s.get_bool_or_default_to_false(&"k_int".to_string()));
    assert_eq!(s.get_string_or_default_to_unknown(&"absent".to_string()), "UNKNOWN");
}

#[test]
fn state_update_and_diff() {
    let old = State {
        entries: vec![
            entry("a", SPValue::Int64(Some(1))),
            entry("b", SPValue::Int64(Some(2))),
        ],
    };
    let new_state = old
        .update(&"b".to_string(), &SPValue::Int64(Some(3)))
        .update(&"c".to_string(), &SPValue::Int64(Some(4)));
    let delta = old.get_diff_partial_state(&new_state);
    // only the keys whose value actually changed are written back
    assert_eq!(delta.entries.len(), 2);
    assert_eq!(delta.get_int_or_unknown(&"b".to_string()), Some(3));
    assert_eq!(delta.get_int_or_unknown(&"c".to_string()), Some(4));
    assert!(delta.get(&"a".to_string()).is_none());
}

#[test]
fn diff_of_identical_states_is_empty() {
    let s = triggered_snapshot("initial");
    let same = triggered_snapshot("initial");
    let delta = s.get_diff_partial_state(&same);
    assert_eq!(delta.entries.len(), 0);
}

#[test]
fn sp_value_equality() {
    assert!(sp_value_eq(&SPValue::Bool(Some(true)), &SPValue::Bool(Some(true))));
    assert!(!sp_value_eq(&SPValue::Bool(Some(true)), &SPValue::Bool(Some(false))));
    assert!(!sp_value_eq(&SPValue::Bool(None), &SPValue::Bool(Some(false))));
    assert!(!sp_value_eq(&SPValue::Bool(Some(true)), &SPValue::Int64(Some(1))));
    assert!(sp_value_eq(
        &SPValue::Text(Some("x".to_string())),
        &SPValue::Text(Some("x".to_string())),
    ));
    assert!(sp_value_eq(&SPValue::Transforms(Some(vec![])), &SPValue::Transforms(Some(vec![]))));
}

#[test]
fn plan_runs_only_in_initial_state() {
    let planned = plan_localization_tick(&triggered_snapshot("initial"), "cam", "/scans", "/plcfs");
    let req = planned.expect("a triggered initial snapshot plans a request");
    assert_eq!(req.scene_name, "bin");
    assert_eq!(req.target_name, "widget");
    assert_eq!(req.source_format, "praw");
    assert_eq!(req.stop_at_timeout, 7000);
    assert_eq!(req.stop_at_number, 2);
    assert_eq!(req.settings, "default");
    assert_eq!(req.praw_dir, "/scans/praw");
    assert_eq!(req.ply_dir, "/scans/ply");
    assert_eq!(req.plcf_dir, "/plcfs");
}

#[test]
fn trigger_in_succeeded_state_is_debounced() {
    // the tick is a no-op: no request, no run, no write-back
    let planned = plan_localization_tick(
        &triggered_snapshot("succeeded"),
        "cam",
        "/scans",
        "/plcfs",
    );
    assert!(planned.is_none());
}

#[test]
fn no_trigger_means_no_plan() {
    let mut s = triggered_snapshot("initial");
    s.entries[0].1 = SPValue::Bool(Some(false));
    assert!(plan_localization_tick(&s, "cam", "/scans", "/plcfs").is_none());
}

#[test]
fn plan_defaults_missing_fields() {
    let s = State {
        entries: vec![
            entry("cam_localization_request_trigger", SPValue::Bool(Some(true))),
            entry("cam_localization_request_state", SPValue::Text(Some("initial".to_string()))),
        ],
    };
    let req = plan_localization_tick(&s, "cam", "/scans", "/plcfs").unwrap();
    assert_eq!(req.scene_name, "UNKNOWN");
    assert_eq!(req.stop_at_timeout, 0);
    assert_eq!(req.stop_at_number, 0);
}

#[test]
fn scan_plan_defaults() {
    let s = State {
        entries: vec![
            entry("cam_request_trigger", SPValue::Bool(Some(true))),
            entry("cam_request_state", SPValue::Text(Some("initial".to_string()))),
        ],
    };
    let req = plan_scan_tick(&s, "cam", "/scans").unwrap();
    assert!(req.praw);
    assert!(!req.ply);
    assert!(!req.tif);
    assert_eq!(req.timeout, 5000);
    assert_eq!(req.settings, "default");
    assert_eq!(req.name_identification, "UNKNOWN");
    assert_eq!(req.tif_dir, "/scans/tif");
}

#[test]
fn scan_plan_debounced_outside_initial() {
    let s = State {
        entries: vec![
            entry("cam_request_trigger", SPValue::Bool(Some(true))),
            entry("cam_request_state", SPValue::Text(Some("failed".to_string()))),
        ],
    };
    assert!(plan_scan_tick(&s, "cam", "/scans").is_none());
}

#[test]
fn finish_writes_only_changed_keys() {
    let snapshot = triggered_snapshot("initial");
    let mut result = ParsedResult::new();
    result.success = true;
    result.stop_criteria_met = false;
    result.count = 1;
    let delta = finish_localization_tick(&snapshot, "cam", true, &result, vec![]);
    // trigger flips to false, state to succeeded; success, stop flag,
    // count and transforms appear; nothing else is written
    assert_eq!(
        delta.get_string_or_default_to_unknown(
            &"cam_localization_request_state".to_string()
        ),
        "succeeded",
    );
    assert_eq!(
        delta.get_bool_or_unknown(&"cam_localization_request_trigger".to_string()),
        Some(false),
    );
    assert_eq!(delta.get_bool_or_unknown(&"cam_localization_success".to_string()), Some(true));
    assert_eq!(
        delta.get_bool_or_unknown(&"cam_localization_stop_criteria_met".to_string()),
        Some(false),
    );
    assert_eq!(delta.get_int_or_unknown(&"cam_localization_count".to_string()), Some(1));
    assert!(delta.get(&"cam_localization_transforms".to_string()).is_some());
    assert!(delta.get(&"cam_localization_scene_name".to_string()).is_none());
    assert_eq!(delta.entries.len(), 6);
}

#[test]
fn finish_failure_marks_failed() {
    let snapshot = triggered_snapshot("initial");
    let empty = ParsedResult::new();
    let delta = finish_localization_tick(&snapshot, "cam", false, &empty, vec![]);
    assert_eq!(
        delta.get_string_or_default_to_unknown(
            &"cam_localization_request_state".to_string()
        ),
        "failed",
    );
    assert_eq!(delta.get_bool_or_unknown(&"cam_localization_success".to_string()), Some(false));
    assert_eq!(delta.get_int_or_unknown(&"cam_localization_count".to_string()), Some(0));
}

#[test]
fn finish_scan_carries_raw_feedback() {
    let snapshot = State {
        entries: vec![
            entry("cam_request_trigger", SPValue::Bool(Some(true))),
            entry("cam_request_state", SPValue::Text(Some("initial".to_string()))),
        ],
    };
    let delta = finish_scan_tick(&snapshot, "cam", true, &"scan done".to_string());
    assert_eq!(delta.get_bool_or_unknown(&"cam_request_trigger".to_string()), Some(false));
    assert_eq!(
        delta.get_string_or_default_to_unknown(&"cam_request_state".to_string()),
        "succeeded",
    );
    assert_eq!(
        delta.get_string_or_default_to_unknown(&"cam_phoxi_raw_info".to_string()),
        "scan done",
    );
    assert_eq!(delta.entries.len(), 3);
}

#[test]
fn deadline_adds_grace_period() {
    assert_eq!(exec_deadline_ms(7000, GRACE_PERIOD_MS), 10000);
    assert_eq!(exec_deadline_ms(0, GRACE_PERIOD_MS), 3000);
    // a negative nominal timeout does not wrap around
    assert_eq!(exec_deadline_ms(-5, GRACE_PERIOD_MS), 3000);
    assert_eq!(exec_deadline_ms(i64::MAX, u64::MAX), u64::MAX);
}

#[test]
fn exec_error_messages() {
    assert_eq!(ExecError::NoArguments.message(), "No command arguments prepared.");
    assert_eq!(ExecError::Timeout.message(), "Command execution timed out.");
    assert_eq!(
        ExecError::CaptureFailure.message(),
        "Failed to capture stdout from child process.",
    );
    assert_eq!(
        ExecError::SpawnFailure("denied".to_string()).message(),
        "Failed to spawn process: denied",
    );
}

fn stamped(child: &str) -> SPTransformStamped {
    SPTransformStamped {
        active_transform: true,
        enable_transform: true,
        time_stamp: 5,
        parent_frame_id: "frame".to_string(),
        child_frame_id: child.to_string(),
        transform: SPTransform {
            translation: SPTranslation {
                x: Fix { units: 1 },
                y: Fix { units: 2 },
                z: Fix { units: 3 },
            },
            rotation: SPRotation {
                x: Fix { units: 0 },
                y: Fix { units: 0 },
                z: Fix { units: 0 },
                w: Fix { units: 1_000_000_000_000 },
            },
        },
    }
}

#[test]
fn update_replaces_an_existing_key() {
    let s = State { entries: vec![entry("a", SPValue::Int64(Some(1)))] };
    let s2 = s.update(&"a".to_string(), &SPValue::Int64(Some(9)));
    assert_eq!(s2.entries.len(), 1);
    assert_eq!(s2.get_int_or_unknown(&"a".to_string()), Some(9));
}

#[test]
fn diff_sees_into_transform_lists() {
    let old = State {
        entries: vec![entry("tf", SPValue::Transforms(Some(vec![stamped("part_instance_aaaaaa")])))],
    };
    let same = State {
        entries: vec![entry("tf", SPValue::Transforms(Some(vec![stamped("part_instance_aaaaaa")])))],
    };
    let differs = State {
        entries: vec![entry("tf", SPValue::Transforms(Some(vec![stamped("part_instance_bbbbbb")])))],
    };
    assert_eq!(old.get_diff_partial_state(&same).entries.len(), 0);
    let delta = old.get_diff_partial_state(&differs);
    assert_eq!(delta.entries.len(), 1);
    assert_eq!(delta.entries[0].0, "tf");
}

