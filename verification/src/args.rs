//! Compiling the vendor process's argument list.
//!
//! The token list is positional and fixed-order: the executable path
//! derived from the capitalized operation name, then one token per
//! recognized configuration leaf (each with its documented default), then
//! the request-specific values. Booleans serialize as "1"/"0". An
//! unrecognized sensor resolution is a fatal configuration error: scan
//! parameters are safety-relevant, so the request fails instead of
//! silently defaulting.

use vstd::prelude::*;
use vstd::string::StrSliceExecFns;

use crate::config::{
    spec_cfg_bool, spec_cfg_dec, spec_cfg_i64, spec_cfg_res, spec_cfg_text, spec_cfg_u64,
    spec_root_text, ConfigDoc,
};
use crate::fixed::Fix;
use crate::numfmt::{dec_str_i64, dec_str_nat, fix_str, fix_to_string, i64_to_string, u64_to_string};
use crate::request::{LocalizeRequest, ScanRequest};

verus! {

/// A fatal argument-compilation error.
#[derive(Clone, Copy, PartialEq, Eq, Structural, Debug)]
pub enum ArgError {
    UnsupportedResolution,
}

impl ArgError {
    /// A human-readable account of the error.
    pub fn message(&self) -> (r: String)
        ensures
            r@ == "Unsupported Photoneo resolution."@,
    {
        String::from_str("Unsupported Photoneo resolution.")
    }
}

/// The token of a boolean: "1" for true, "0" for false.
pub open spec fn bool_arg(b: bool) -> Seq<char> {
    if b {
        "1"@
    } else {
        "0"@
    }
}

/// Serialize a boolean for the vendor's command line.
pub fn bool_to_arg(value: bool) -> (r: String)
    ensures
        r@ == bool_arg(value),
{
    if value {
        String::from_str("1")
    } else {
        String::from_str("0")
    }
}

/// What the uppercase mapping of a character is.
pub uninterp spec fn upper_chars_of(c: char) -> Seq<char>;

/// Relies on char::to_uppercase: the mapping depends on the character
/// alone; an ASCII lowercase letter maps to the single corresponding
/// uppercase letter, and any other ASCII character to itself.
#[verifier::external_body]
fn char_to_uppercase(c: char) -> (r: String)
    ensures
        r@ == upper_chars_of(c),
        (97 <= (c as u32) && (c as u32) <= 122) ==> r@ == seq![(((c as u8) - 32) as char)],
        ((c as u32) < 128 && !(97 <= (c as u32) && (c as u32) <= 122)) ==> r@ == seq![c],
{
    let mut s = String::new();
    for u in c.to_uppercase() {
        s.push(u);
    }
    s
}

/// A word with its first character capitalized.
pub open spec fn cap_of(s: Seq<char>) -> Seq<char> {
    if s.len() == 0 {
        Seq::empty()
    } else {
        upper_chars_of(s[0]) + s.skip(1)
    }
}

/// Capitalize the first character of a word.
pub fn capitalize_first(s: &str) -> (r: String)
    ensures
        r@ == cap_of(s@),
{
    let n = s.unicode_len();
    if n == 0 {
        proof {
            assert(Seq::<char>::empty() =~= cap_of(s@));
        }
        String::new()
    } else {
        let c = s.get_char(0);
        let rest = s.substring_char(1, n);
        char_to_uppercase(c).concat(rest)
    }
}

/// The single-character code of a supported sensor resolution.
pub open spec fn res_code(r: Option<(i64, i64)>) -> Option<Seq<char>> {
    match r {
        Some((w, h)) => if w == 2064 && h == 1544 {
            Some("0"@)
        } else if w == 1032 && h == 772 {
            Some("1"@)
        } else {
            None
        },
        None => None,
    }
}

/// Map a configured resolution to its code; an unrecognized or missing
/// resolution is refused.
pub fn resolution_to_arg(r: Option<(i64, i64)>) -> (out: Result<String, ArgError>)
    ensures
        out matches Ok(s) ==> res_code(r) == Some(s@),
        out is Err <==> res_code(r) is None,
        out is Err ==> out == Err::<String, ArgError>(ArgError::UnsupportedResolution),
{
    match r {
        Some((w, h)) => {
            if w == 2064 && h == 1544 {
                Ok(String::from_str("0"))
            } else if w == 1032 && h == 772 {
                Ok(String::from_str("1"))
            } else {
                Err(ArgError::UnsupportedResolution)
            }
        },
        None => Err(ArgError::UnsupportedResolution),
    }
}

/// The settings document's file path.
pub fn settings_path(base: &str, settings_name: &str) -> (r: String)
    ensures
        r@ == base@ + "/parameters/settings/"@ + settings_name@ + ".json"@,
{
    base.to_owned().concat("/parameters/settings/").concat(settings_name).concat(".json")
}

/// The scanner parameter document's file path.
pub fn parameters_path(base: &str, scanner_id: &str) -> (r: String)
    ensures
        r@ == base@ + "/parameters/scanners/"@ + scanner_id@ + ".json"@,
{
    base.to_owned().concat("/parameters/scanners/").concat(scanner_id).concat(".json")
}

/// Compile the positional token list for one localization run: the
/// executable path, the scanner identity, the request values, one token
/// per localization-settings leaf with its documented default, and the
/// working directories.
pub fn prepare_arguments(
    request: &LocalizeRequest,
    localization_interface_path: &str,
    settings: &ConfigDoc,
    parameters: &ConfigDoc,
) -> (r: Vec<String>)
    ensures
        r@.len() == 26,
        r@[0]@ == localization_interface_path@ + "/cpp_executables/dev/Localize/bin/Localize_Release"@,
        r@[1]@ == spec_root_text(parameters.entries@, "hardware_identification"@, "photoneo_1708011"@),
        r@[2]@ == request.scene_name@,
        r@[3]@ == request.target_name@,
        r@[4]@ == request.source_format@,
        r@[5]@ == dec_str_i64(request.stop_at_timeout as int),
        r@[6]@ == dec_str_i64(request.stop_at_number as int),
        r@[7]@ == bool_arg(spec_cfg_bool(settings.entries@, "localization_settings"@, "scene_noise_reduction"@, true)),
        r@[8]@ == bool_arg(spec_cfg_bool(settings.entries@, "localization_settings"@, "smart_memory"@, false)),
        r@[9]@ == spec_cfg_text(settings.entries@, "localization_settings"@, "scene_clustering_level"@, "Normal"@),
        r@[10]@ == dec_str_nat(spec_cfg_u64(settings.entries@, "localization_settings"@, "scene_minimal_cluster_size"@, 200) as int),
        r@[11]@ == dec_str_nat(spec_cfg_u64(settings.entries@, "localization_settings"@, "scene_maximal_cluster_size"@, 350000) as int),
        r@[12]@ == spec_cfg_text(settings.entries@, "localization_settings"@, "matching_algorithm"@, "Surfaces"@),
        r@[13]@ == spec_cfg_text(settings.entries@, "localization_settings"@, "model_keypoints_sampling"@, "Medium"@),
        r@[14]@ == spec_cfg_text(settings.entries@, "localization_settings"@, "local_search_radius"@, "Normal"@),
        r@[15]@ == dec_str_nat(spec_cfg_u64(settings.entries@, "localization_settings"@, "feature_fit_consideration_level"@, 15) as int),
        r@[16]@ == dec_str_nat(spec_cfg_u64(settings.entries@, "localization_settings"@, "global_maximal_feature_fit_overflow"@, 20) as int),
        r@[17]@ == dec_str_nat(spec_cfg_u64(settings.entries@, "localization_settings"@, "fine_alignment_iterations"@, 30) as int),
        r@[18]@ == spec_cfg_text(settings.entries@, "localization_settings"@, "fine_alignment_point_set"@, "Surface"@),
        r@[19]@ == spec_cfg_text(settings.entries@, "localization_settings"@, "fine_alignment_point_set_sampling"@, "Sampled"@),
        r@[20]@ == dec_str_nat(spec_cfg_u64(settings.entries@, "localization_settings"@, "projection_tolerance"@, 100) as int),
        r@[21]@ == dec_str_nat(spec_cfg_u64(settings.entries@, "localization_settings"@, "projection_hidden_part_tolerance"@, 100) as int),
        r@[22]@ == fix_str(spec_cfg_dec(settings.entries@, "localization_settings"@, "overlap"@, Fix::spec_new(15_000_000_000_000int)).units as int),
        r@[23]@ == request.praw_dir@,
        r@[24]@ == request.ply_dir@,
        r@[25]@ == request.plcf_dir@,
{
    let sect = "localization_settings";
    let mut args: Vec<String> = Vec::new();
    args.push(
        localization_interface_path.to_owned().concat(
            "/cpp_executables/dev/Localize/bin/Localize_Release",
        ),
    );
    args.push(parameters.get_root_text_or("hardware_identification", "photoneo_1708011"));
    args.push(request.scene_name.clone());
    args.push(request.target_name.clone());
    args.push(request.source_format.clone());
    args.push(i64_to_string(request.stop_at_timeout));
    args.push(i64_to_string(request.stop_at_number));
    args.push(bool_to_arg(settings.get_bool_or(sect, "scene_noise_reduction", true)));
    args.push(bool_to_arg(settings.get_bool_or(sect, "smart_memory", false)));
    args.push(settings.get_text_or(sect, "scene_clustering_level", "Normal"));
    args.push(u64_to_string(settings.get_u64_or(sect, "scene_minimal_cluster_size", 200)));
    args.push(u64_to_string(settings.get_u64_or(sect, "scene_maximal_cluster_size", 350000)));
    args.push(settings.get_text_or(sect, "matching_algorithm", "Surfaces"));
    args.push(settings.get_text_or(sect, "model_keypoints_sampling", "Medium"));
    args.push(settings.get_text_or(sect, "local_search_radius", "Normal"));
    args.push(u64_to_string(settings.get_u64_or(sect, "feature_fit_consideration_level", 15)));
    args.push(
        u64_to_string(settings.get_u64_or(sect, "global_maximal_feature_fit_overflow", 20)),
    );
    args.push(u64_to_string(settings.get_u64_or(sect, "fine_alignment_iterations", 30)));
    args.push(settings.get_text_or(sect, "fine_alignment_point_set", "Surface"));
    args.push(settings.get_text_or(sect, "fine_alignment_point_set_sampling", "Sampled"));
    args.push(u64_to_string(settings.get_u64_or(sect, "projection_tolerance", 100)));
    args.push(u64_to_string(settings.get_u64_or(sect, "projection_hidden_part_tolerance", 100)));
    args.push(fix_to_string(settings.get_dec_or(sect, "overlap", Fix { units: 15_000_000_000_000 })));
    args.push(request.praw_dir.clone());
    args.push(request.ply_dir.clone());
    args.push(request.plcf_dir.clone());
    args
}

/// Compile the positional token list for one scan run. The resolution
/// leaf is read from "min" for the one scanner whose identity asks for
/// it, and from "value" otherwise; an unrecognized resolution fails the
/// compilation.
pub fn prepare_scan_arguments(
    request: &ScanRequest,
    phoxi_interface_path: &str,
    settings: &ConfigDoc,
    parameters: &ConfigDoc,
) -> (r: Result<Vec<String>, ArgError>)
    ensures
        ({
            let attr: Seq<char> = if spec_root_text(
                parameters.entries@,
                "name_identification"@,
                "photoneo_1708011"@,
            ) == "photoneo_1708011"@ {
                "min"@
            } else {
                "value"@
            };
            let res = spec_cfg_res(settings.entries@, "capturing_settings"@, "resolution"@, attr);
            &&& (r is Err <==> res_code(res) is None)
            &&& (r matches Ok(v) ==> {
                let cap = cap_of(request.command_type@);
                &&& v@.len() == 32
                &&& v@[0]@ == phoxi_interface_path@ + "/cpp_executables/dev/"@ + cap + "/"@ + cap
                    + "_Release"@
                &&& v@[1]@ == request.hardware_identification@
                &&& v@[2]@ == request.scene_name@
                &&& v@[3]@ == bool_arg(request.praw)
                &&& v@[4]@ == bool_arg(request.ply)
                &&& v@[5]@ == bool_arg(request.tif)
                &&& v@[6]@ == dec_str_i64(spec_cfg_i64(settings.entries@, "capturing_settings"@, "shutter_multiplier"@, 1) as int)
                &&& v@[7]@ == dec_str_i64(spec_cfg_i64(settings.entries@, "capturing_settings"@, "scan_multiplier"@, 1) as int)
                &&& res_code(res) == Some(v@[8]@)
                &&& v@[9]@ == bool_arg(spec_cfg_bool(settings.entries@, "capturing_settings"@, "camera_only_mode"@, false))
                &&& v@[10]@ == bool_arg(spec_cfg_bool(settings.entries@, "capturing_settings"@, "ambient_light_suppression"@, false))
                &&& v@[11]@ == spec_cfg_text(settings.entries@, "capturing_settings"@, "coding_strategy"@, "Interreflections"@)
                &&& v@[12]@ == spec_cfg_text(settings.entries@, "capturing_settings"@, "coding_quality"@, "High"@)
                &&& v@[13]@ == spec_cfg_text(settings.entries@, "capturing_settings"@, "texture_source"@, "LED"@)
                &&& v@[14]@ == fix_str(spec_cfg_dec(settings.entries@, "capturing_settings"@, "single_pattern_exposure"@, Fix::spec_new(10_240_000_000_000int)).units as int)
                &&& v@[15]@ == fix_str(spec_cfg_dec(settings.entries@, "capturing_settings"@, "maximum_fps"@, Fix::spec_new(0int)).units as int)
                &&& v@[16]@ == dec_str_i64(spec_cfg_i64(settings.entries@, "capturing_settings"@, "laser_power"@, 4095) as int)
                &&& v@[17]@ == dec_str_i64(spec_cfg_i64(settings.entries@, "capturing_settings"@, "projection_offset_left"@, 0) as int)
                &&& v@[18]@ == dec_str_i64(spec_cfg_i64(settings.entries@, "capturing_settings"@, "projection_offset_right"@, 0) as int)
                &&& v@[19]@ == dec_str_i64(spec_cfg_i64(settings.entries@, "capturing_settings"@, "led_power"@, 4095) as int)
                &&& v@[20]@ == fix_str(spec_cfg_dec(settings.entries@, "processing_settings"@, "max_inaccuracy"@, Fix::spec_new(2_000_000_000_000int)).units as int)
                &&& v@[21]@ == spec_cfg_text(settings.entries@, "processing_settings"@, "surface_smoothness"@, "Normal"@)
                &&& v@[22]@ == dec_str_i64(spec_cfg_i64(settings.entries@, "processing_settings"@, "normals_estimation_radius"@, 2) as int)
                &&& v@[23]@ == bool_arg(spec_cfg_bool(settings.entries@, "processing_settings"@, "interreflections_filter"@, false))
                &&& v@[24]@ == bool_arg(spec_cfg_bool(settings.entries@, "experimental_settings"@, "ambient_light_suppression_compatibility_mode"@, false))
                &&& v@[25]@ == spec_cfg_text(settings.entries@, "experimental_settings"@, "pattern_decomposition_reach"@, "Local"@)
                &&& v@[26]@ == fix_str(spec_cfg_dec(settings.entries@, "experimental_settings"@, "signal_contrast_threshold"@, Fix::spec_new(32_000_000_000int)).units as int)
                &&& v@[27]@ == bool_arg(spec_cfg_bool(settings.entries@, "experimental_settings"@, "use_extended_logging"@, false))
                &&& v@[28]@ == request.praw_dir@
                &&& v@[29]@ == request.ply_dir@
                &&& v@[30]@ == request.tif_dir@
                &&& v@[31]@ == spec_root_text(parameters.entries@, "ip_identification"@, "192.168.1.27"@)
            })
        }),
{
    let capcom = capitalize_first(request.command_type.as_str());
    let name_id = parameters.get_root_text_or("name_identification", "photoneo_1708011");
    let attr = if name_id == String::from_str("photoneo_1708011") {
        "min"
    } else {
        "value"
    };
    let res = settings.get_res("capturing_settings", "resolution", attr);
    let res_arg = match resolution_to_arg(res) {
        Ok(s) => s,
        Err(e) => {
            return Err(e);
        },
    };
    let cs = "capturing_settings";
    let ps = "processing_settings";
    let es = "experimental_settings";
    let mut args: Vec<String> = Vec::new();
    args.push(
        phoxi_interface_path.to_owned().concat("/cpp_executables/dev/").concat(
            capcom.as_str(),
        ).concat("/").concat(capcom.as_str()).concat("_Release"),
    );
    args.push(request.hardware_identification.clone());
    args.push(request.scene_name.clone());
    args.push(bool_to_arg(request.praw));
    args.push(bool_to_arg(request.ply));
    args.push(bool_to_arg(request.tif));
    args.push(i64_to_string(settings.get_i64_or(cs, "shutter_multiplier", 1)));
    args.push(i64_to_string(settings.get_i64_or(cs, "scan_multiplier", 1)));
    args.push(res_arg);
    args.push(bool_to_arg(settings.get_bool_or(cs, "camera_only_mode", false)));
    args.push(bool_to_arg(settings.get_bool_or(cs, "ambient_light_suppression", false)));
    args.push(settings.get_text_or(cs, "coding_strategy", "Interreflections"));
    args.push(settings.get_text_or(cs, "coding_quality", "High"));
    args.push(settings.get_text_or(cs, "texture_source", "LED"));
    args.push(
        fix_to_string(
            settings.get_dec_or(cs, "single_pattern_exposure", Fix { units: 10_240_000_000_000 }),
        ),
    );
    args.push(fix_to_string(settings.get_dec_or(cs, "maximum_fps", Fix { units: 0 })));
    args.push(i64_to_string(settings.get_i64_or(cs, "laser_power", 4095)));
    args.push(i64_to_string(settings.get_i64_or(cs, "projection_offset_left", 0)));
    args.push(i64_to_string(settings.get_i64_or(cs, "projection_offset_right", 0)));
    args.push(i64_to_string(settings.get_i64_or(cs, "led_power", 4095)));
    args.push(
        fix_to_string(settings.get_dec_or(ps, "max_inaccuracy", Fix { units: 2_000_000_000_000 })),
    );
    args.push(settings.get_text_or(ps, "surface_smoothness", "Normal"));
    args.push(i64_to_string(settings.get_i64_or(ps, "normals_estimation_radius", 2)));
    args.push(bool_to_arg(settings.get_bool_or(ps, "interreflections_filter", false)));
    args.push(
        bool_to_arg(
            settings.get_bool_or(es, "ambient_light_suppression_compatibility_mode", false),
        ),
    );
    args.push(settings.get_text_or(es, "pattern_decomposition_reach", "Local"));
    args.push(
        fix_to_string(
            settings.get_dec_or(es, "signal_contrast_threshold", Fix { units: 32_000_000_000 }),
        ),
    );
    args.push(bool_to_arg(settings.get_bool_or(es, "use_extended_logging", false)));
    args.push(request.praw_dir.clone());
    args.push(request.ply_dir.clone());
    args.push(request.tif_dir.clone());
    args.push(parameters.get_root_text_or("ip_identification", "192.168.1.27"));
    Ok(args)
}

} // verus!
