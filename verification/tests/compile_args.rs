use phoxi_interface::args::{
    bool_to_arg, capitalize_first, parameters_path, prepare_arguments, prepare_scan_arguments,
    resolution_to_arg, settings_path, ArgError,
};
use phoxi_interface::config::{ConfigDoc, ConfigEntry, ConfigValue};
use phoxi_interface::fixed::{Fix, SCALE};
use phoxi_interface::request::{LocalizeRequest, ScanRequest};

fn leaf(section: &str, name: &str, attr: &str, value: ConfigValue) -> ConfigEntry {
    ConfigEntry {
        section: section.to_string(),
        name: name.to_string(),
        attr: attr.to_string(),
        value,
    }
}

fn localize_request() -> LocalizeRequest {
    LocalizeRequest {
        scene_name: "bin_a".to_string(),
        target_name: "widget".to_string(),
        source_format: "praw".to_string(),
        stop_at_timeout: 7000,
        stop_at_number: 2,
        praw_dir: "/scans/praw".to_string(),
        ply_dir: "/scans/ply".to_string(),
        plcf_dir: "/plcfs".to_string(),
        settings: "default".to_string(),
    }
}

fn scan_request() -> ScanRequest {
    ScanRequest {
        name_identification: "unit".to_string(),
        hardware_identification: "hw-1".to_string(),
        ip_identification: "192.168.1.5".to_string(),
        command_type: "scan".to_string(),
        scene_name: "bin_a".to_string(),
        praw: true,
        ply: false,
        tif: true,
        praw_dir: "/scans/praw".to_string(),
        ply_dir: "/scans/ply".to_string(),
        tif_dir: "/scans/tif".to_string(),
        timeout: 5000,
        settings: "default".to_string(),
    }
}

#[test]
fn bool_tokens() {
    assert_eq!(bool_to_arg(true), "1");
    assert_eq!(bool_to_arg(false), "0");
}

#[test]
fn capitalization() {
    assert_eq!(capitalize_first("scan"), "Scan");
    assert_eq!(capitalize_first("localize"), "Localize");
    assert_eq!(capitalize_first("Scan"), "Scan");
    assert_eq!(capitalize_first(""), "");
    assert_eq!(capitalize_first("x1"), "X1");
}

#[test]
fn resolution_codes() {
    assert_eq!(resolution_to_arg(Some((2064, 1544))).unwrap(), "0");
    assert_eq!(resolution_to_arg(Some((1032, 772))).unwrap(), "1");
    assert_eq!(resolution_to_arg(Some((640, 480))), Err(ArgError::UnsupportedResolution));
    assert_eq!(resolution_to_arg(None), Err(ArgError::UnsupportedResolution));
}

#[test]
fn document_paths() {
    assert_eq!(settings_path("/opt/iface", "default"), "/opt/iface/parameters/settings/default.json");
    assert_eq!(parameters_path("/opt/iface", "phoxi_1"), "/opt/iface/parameters/scanners/phoxi_1.json");
}

#[test]
fn localize_arguments_all_defaults() {
    let req = localize_request();
    let args = prepare_arguments(&req, "/opt/iface", &ConfigDoc::new(), &ConfigDoc::new());
    let expected = [
        "/opt/iface/cpp_executables/dev/Localize/bin/Localize_Release",
        "photoneo_1708011",
        "bin_a",
        "widget",
        "praw",
        "7000",
        "2",
        "1",
        "0",
        "Normal",
        "200",
        "350000",
        "Surfaces",
        "Medium",
        "Normal",
        "15",
        "20",
        "30",
        "Surface",
        "Sampled",
        "100",
        "100",
        "15",
        "/scans/praw",
        "/scans/ply",
        "/plcfs",
    ];
    assert_eq!(args.len(), expected.len());
    for (got, want) in args.iter().zip(expected.iter()) {
        assert_eq!(got, want);
    }
}

#[test]
fn localize_arguments_use_configured_leaves() {
    let req = localize_request();
    let settings = ConfigDoc {
        entries: vec![
            leaf("localization_settings", "scene_noise_reduction", "value", ConfigValue::Bool(false)),
            leaf("localization_settings", "scene_minimal_cluster_size", "value", ConfigValue::Int(500)),
            leaf("localization_settings", "matching_algorithm", "value", ConfigValue::Text("Edges".to_string())),
            leaf("localization_settings", "overlap", "value", ConfigValue::Dec(Fix { units: 12_500_000_000_000 })),
        ],
    };
    let parameters = ConfigDoc {
        entries: vec![leaf("", "hardware_identification", "", ConfigValue::Text("hw-77".to_string()))],
    };
    let args = prepare_arguments(&req, "/opt/iface", &settings, &parameters);
    assert_eq!(args[1], "hw-77");
    assert_eq!(args[7], "0");
    assert_eq!(args[10], "500");
    assert_eq!(args[12], "Edges");
    assert_eq!(args[22], "12.5");
}

#[test]
fn localize_arguments_mistyped_leaf_degrades_to_default() {
    let req = localize_request();
    let settings = ConfigDoc {
        entries: vec![
            // a string where a boolean is expected, and a negative count
            leaf("localization_settings", "scene_noise_reduction", "value", ConfigValue::Text("yes".to_string())),
            leaf("localization_settings", "scene_minimal_cluster_size", "value", ConfigValue::Int(-3)),
        ],
    };
    let args = prepare_arguments(&req, "/opt/iface", &settings, &ConfigDoc::new());
    assert_eq!(args[7], "1");
    assert_eq!(args[10], "200");
}

#[test]
fn scan_arguments_without_resolution_fail() {
    let req = scan_request();
    let r = prepare_scan_arguments(&req, "/opt/iface", &ConfigDoc::new(), &ConfigDoc::new());
    assert_eq!(r, Err(ArgError::UnsupportedResolution));
    assert_eq!(ArgError::UnsupportedResolution.message(), "Unsupported Photoneo resolution.");
}

#[test]
fn scan_arguments_with_defaults() {
    let req = scan_request();
    // the default scanner identity reads the resolution from "min"
    let settings = ConfigDoc {
        entries: vec![leaf("capturing_settings", "resolution", "min", ConfigValue::Res(2064, 1544))],
    };
    let args = prepare_scan_arguments(&req, "/opt/iface", &settings, &ConfigDoc::new()).unwrap();
    assert_eq!(args.len(), 32);
    assert_eq!(args[0], "/opt/iface/cpp_executables/dev/Scan/Scan_Release");
    assert_eq!(args[1], "hw-1");
    assert_eq!(args[2], "bin_a");
    assert_eq!(args[3], "1");
    assert_eq!(args[4], "0");
    assert_eq!(args[5], "1");
    assert_eq!(args[6], "1");
    assert_eq!(args[7], "1");
    assert_eq!(args[8], "0");
    assert_eq!(args[11], "Interreflections");
    assert_eq!(args[12], "High");
    assert_eq!(args[13], "LED");
    assert_eq!(args[14], "10.24");
    assert_eq!(args[15], "0");
    assert_eq!(args[16], "4095");
    assert_eq!(args[20], "2");
    assert_eq!(args[21], "Normal");
    assert_eq!(args[26], "0.032");
    assert_eq!(args[28], "/scans/praw");
    assert_eq!(args[29], "/scans/ply");
    assert_eq!(args[30], "/scans/tif");
    assert_eq!(args[31], "192.168.1.27");
}

#[test]
fn scan_arguments_other_scanner_reads_value_attr() {
    let req = scan_request();
    let settings = ConfigDoc {
        entries: vec![
            leaf("capturing_settings", "resolution", "value", ConfigValue::Res(1032, 772)),
            leaf("capturing_settings", "resolution", "min", ConfigValue::Res(2064, 1544)),
        ],
    };
    let parameters = ConfigDoc {
        entries: vec![leaf("", "name_identification", "", ConfigValue::Text("phoxi_other".to_string()))],
    };
    let args = prepare_scan_arguments(&req, "/opt/iface", &settings, &parameters).unwrap();
    assert_eq!(args[8], "1");
}
