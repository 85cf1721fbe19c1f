//! Request values assembled from the shared-state snapshot.

use vstd::prelude::*;

verus! {

/// One unit of localization work: where to look, what to look for, and
/// the stop criteria.
#[derive(Debug)]
pub struct LocalizeRequest {
    pub scene_name: String,
    pub target_name: String,
    pub source_format: String,
    pub stop_at_timeout: i64,
    pub stop_at_number: i64,
    pub praw_dir: String,
    pub ply_dir: String,
    pub plcf_dir: String,
    pub settings: String,
}

/// One unit of scanning work: scanner identity, output formats and
/// directories, and the capture timeout.
#[derive(Debug)]
pub struct ScanRequest {
    pub name_identification: String,
    pub hardware_identification: String,
    pub ip_identification: String,
    pub command_type: String,
    pub scene_name: String,
    pub praw: bool,
    pub ply: bool,
    pub tif: bool,
    pub praw_dir: String,
    pub ply_dir: String,
    pub tif_dir: String,
    pub timeout: i64,
    pub settings: String,
}

} // verus!
