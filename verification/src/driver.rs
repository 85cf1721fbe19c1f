//! The shared-state request/response driver.
//!
//! Per resource, the store holds a trigger flag, a request state and the
//! request parameters under keys prefixed by the resource name. Each tick
//! reads the declared key subset, and honors the trigger only in the
//! initial state; after a run it writes back only the keys whose value
//! changed. The polling loop itself, the store connection and the process
//! spawning are I/O and live with the embedding program; every decision
//! they delegate to is here.

use vstd::prelude::*;

use crate::parse::ParsedResult;
use crate::request::{LocalizeRequest, ScanRequest};
use crate::state::{
    has_key, lemma_val_any, spec_bool_or, spec_int_or, spec_text_or, val_of, SPValue, SPValueV,
    State,
};
use crate::transform::SPTransformStamped;

verus! {

/// A store key: the resource name followed by the field suffix.
pub fn key_of(id: &str, suffix: &str) -> (r: String)
    ensures
        r@ == id@ + suffix@,
{
    id.to_owned().concat(suffix)
}

/// Concatenations with one prefix and differing suffixes differ.
proof fn lemma_key_distinct_at(id: Seq<char>, s1: Seq<char>, s2: Seq<char>, i: int)
    requires
        0 <= i < s1.len(),
        i < s2.len(),
        s1[i] != s2[i],
    ensures
        id + s1 != id + s2,
{
    assert((id + s1)[id.len() + i] == s1[i]);
    assert((id + s2)[id.len() + i] == s2[i]);
}

/// Concatenations with one prefix and suffixes of different lengths
/// differ.
proof fn lemma_key_distinct_len(id: Seq<char>, s1: Seq<char>, s2: Seq<char>)
    requires
        s1.len() != s2.len(),
    ensures
        id + s1 != id + s2,
{
    assert((id + s1).len() == id.len() + s1.len());
    assert((id + s2).len() == id.len() + s2.len());
}

/// The declared key subset of one localization resource.
pub fn localization_keys(photoneo_id: &str) -> (r: Vec<String>)
    ensures
        r@.len() == 13,
        r@[0]@ == photoneo_id@ + "_localization_request_trigger"@,
        r@[1]@ == photoneo_id@ + "_localization_request_state"@,
        r@[2]@ == photoneo_id@ + "_localization_scene_name"@,
        r@[3]@ == photoneo_id@ + "_localization_target_name"@,
        r@[4]@ == photoneo_id@ + "_localization_source_format"@,
        r@[5]@ == photoneo_id@ + "_localization_stop_at_timeout"@,
        r@[6]@ == photoneo_id@ + "_localization_stop_at_number"@,
        r@[7]@ == photoneo_id@ + "_localization_settings"@,
        r@[8]@ == photoneo_id@ + "_localization_scanning_frame"@,
        r@[9]@ == photoneo_id@ + "_localization_success"@,
        r@[10]@ == photoneo_id@ + "_localization_stop_criteria_met"@,
        r@[11]@ == photoneo_id@ + "_localization_count"@,
        r@[12]@ == photoneo_id@ + "_localization_transforms"@,
{
    let mut keys: Vec<String> = Vec::new();
    keys.push(key_of(photoneo_id, "_localization_request_trigger"));
    keys.push(key_of(photoneo_id, "_localization_request_state"));
    keys.push(key_of(photoneo_id, "_localization_scene_name"));
    keys.push(key_of(photoneo_id, "_localization_target_name"));
    keys.push(key_of(photoneo_id, "_localization_source_format"));
    keys.push(key_of(photoneo_id, "_localization_stop_at_timeout"));
    keys.push(key_of(photoneo_id, "_localization_stop_at_number"));
    keys.push(key_of(photoneo_id, "_localization_settings"));
    keys.push(key_of(photoneo_id, "_localization_scanning_frame"));
    keys.push(key_of(photoneo_id, "_localization_success"));
    keys.push(key_of(photoneo_id, "_localization_stop_criteria_met"));
    keys.push(key_of(photoneo_id, "_localization_count"));
    keys.push(key_of(photoneo_id, "_localization_transforms"));
    keys
}

/// The declared key subset of one scan resource.
pub fn scan_keys(photoneo_id: &str) -> (r: Vec<String>)
    ensures
        r@.len() == 12,
        r@[0]@ == photoneo_id@ + "_request_trigger"@,
        r@[1]@ == photoneo_id@ + "_request_state"@,
        r@[2]@ == photoneo_id@ + "_name_identification"@,
        r@[3]@ == photoneo_id@ + "_hardware_identification"@,
        r@[4]@ == photoneo_id@ + "_ip_identification"@,
        r@[5]@ == photoneo_id@ + "_command_type"@,
        r@[6]@ == photoneo_id@ + "_scene_name"@,
        r@[7]@ == photoneo_id@ + "_praw"@,
        r@[8]@ == photoneo_id@ + "_ply"@,
        r@[9]@ == photoneo_id@ + "_tif"@,
        r@[10]@ == photoneo_id@ + "_timeout"@,
        r@[11]@ == photoneo_id@ + "_settings"@,
{
    let mut keys: Vec<String> = Vec::new();
    keys.push(key_of(photoneo_id, "_request_trigger"));
    keys.push(key_of(photoneo_id, "_request_state"));
    keys.push(key_of(photoneo_id, "_name_identification"));
    keys.push(key_of(photoneo_id, "_hardware_identification"));
    keys.push(key_of(photoneo_id, "_ip_identification"));
    keys.push(key_of(photoneo_id, "_command_type"));
    keys.push(key_of(photoneo_id, "_scene_name"));
    keys.push(key_of(photoneo_id, "_praw"));
    keys.push(key_of(photoneo_id, "_ply"));
    keys.push(key_of(photoneo_id, "_tif"));
    keys.push(key_of(photoneo_id, "_timeout"));
    keys.push(key_of(photoneo_id, "_settings"));
    keys
}

/// The initial store content of one localization resource: the handshake
/// fields hold their starting values, every request and result field is
/// the explicit unknown of its type.
#[verifier::rlimit(60)]
pub fn generate_photoneo_localization_interface_state(photoneo_name: &str) -> (r: State)
    ensures
        r.wf(),
        r.entries@.len() == 14,
        has_key(r.entries@, photoneo_name@ + "_localization_request_trigger"@) && val_of(
            r.entries@,
            photoneo_name@ + "_localization_request_trigger"@,
        ) == SPValueV::Bool(Some(false)),
        has_key(r.entries@, photoneo_name@ + "_localization_request_state"@) && val_of(
            r.entries@,
            photoneo_name@ + "_localization_request_state"@,
        ) == SPValueV::Text(Some("initial"@)),
        has_key(r.entries@, photoneo_name@ + "_localization_total_fail_counter"@) && val_of(
            r.entries@,
            photoneo_name@ + "_localization_total_fail_counter"@,
        ) == SPValueV::Int64(Some(0i64)),
        has_key(r.entries@, photoneo_name@ + "_localization_subsequent_fail_counter"@) && val_of(
            r.entries@,
            photoneo_name@ + "_localization_subsequent_fail_counter"@,
        ) == SPValueV::Int64(Some(0i64)),
        has_key(r.entries@, photoneo_name@ + "_localization_scene_name"@) && val_of(
            r.entries@,
            photoneo_name@ + "_localization_scene_name"@,
        ) == SPValueV::Text(None::<Seq<char>>),
        has_key(r.entries@, photoneo_name@ + "_localization_target_name"@) && val_of(
            r.entries@,
            photoneo_name@ + "_localization_target_name"@,
        ) == SPValueV::Text(None::<Seq<char>>),
        has_key(r.entries@, photoneo_name@ + "_localization_source_format"@) && val_of(
            r.entries@,
            photoneo_name@ + "_localization_source_format"@,
        ) == SPValueV::Text(None::<Seq<char>>),
        has_key(r.entries@, photoneo_name@ + "_localization_stop_at_timeout"@) && val_of(
            r.entries@,
            photoneo_name@ + "_localization_stop_at_timeout"@,
        ) == SPValueV::Int64(None::<i64>),
        has_key(r.entries@, photoneo_name@ + "_localization_stop_at_number"@) && val_of(
            r.entries@,
            photoneo_name@ + "_localization_stop_at_number"@,
        ) == SPValueV::Int64(None::<i64>),
        has_key(r.entries@, photoneo_name@ + "_localization_success"@) && val_of(
            r.entries@,
            photoneo_name@ + "_localization_success"@,
        ) == SPValueV::Bool(None::<bool>),
        has_key(r.entries@, photoneo_name@ + "_localization_stop_criteria_met"@) && val_of(
            r.entries@,
            photoneo_name@ + "_localization_stop_criteria_met"@,
        ) == SPValueV::Bool(None::<bool>),
        has_key(r.entries@, photoneo_name@ + "_localization_count"@) && val_of(
            r.entries@,
            photoneo_name@ + "_localization_count"@,
        ) == SPValueV::Int64(None::<i64>),
        has_key(r.entries@, photoneo_name@ + "_localization_transforms"@) && val_of(
            r.entries@,
            photoneo_name@ + "_localization_transforms"@,
        ) == SPValueV::Transforms(None::<Seq<crate::state::TransformV>>),
        has_key(r.entries@, photoneo_name@ + "_localization_settings"@) && val_of(
            r.entries@,
            photoneo_name@ + "_localization_settings"@,
        ) == SPValueV::Text(None::<Seq<char>>),
{
    let mut es: Vec<(String, SPValue)> = Vec::new();
    es.push((key_of(photoneo_name, "_localization_request_trigger"), SPValue::Bool(Some(false))));
    es.push(
        (
            key_of(photoneo_name, "_localization_request_state"),
            SPValue::Text(Some(String::from_str("initial"))),
        ),
    );
    es.push((key_of(photoneo_name, "_localization_total_fail_counter"), SPValue::Int64(Some(0))));
    es.push(
        (key_of(photoneo_name, "_localization_subsequent_fail_counter"), SPValue::Int64(Some(0))),
    );
    es.push((key_of(photoneo_name, "_localization_scene_name"), SPValue::Text(None)));
    es.push((key_of(photoneo_name, "_localization_target_name"), SPValue::Text(None)));
    es.push((key_of(photoneo_name, "_localization_source_format"), SPValue::Text(None)));
    es.push((key_of(photoneo_name, "_localization_stop_at_timeout"), SPValue::Int64(None)));
    es.push((key_of(photoneo_name, "_localization_stop_at_number"), SPValue::Int64(None)));
    es.push((key_of(photoneo_name, "_localization_success"), SPValue::Bool(None)));
    es.push((key_of(photoneo_name, "_localization_stop_criteria_met"), SPValue::Bool(None)));
    es.push((key_of(photoneo_name, "_localization_count"), SPValue::Int64(None)));
    es.push((key_of(photoneo_name, "_localization_transforms"), SPValue::Transforms(None)));
    es.push((key_of(photoneo_name, "_localization_settings"), SPValue::Text(None)));
    let r = State { entries: es };
    proof {
        let id = photoneo_name@;
        reveal_strlit("_localization_request_trigger");
        reveal_strlit("_localization_request_state");
        reveal_strlit("_localization_total_fail_counter");
        reveal_strlit("_localization_subsequent_fail_counter");
        reveal_strlit("_localization_scene_name");
        reveal_strlit("_localization_target_name");
        reveal_strlit("_localization_source_format");
        reveal_strlit("_localization_stop_at_timeout");
        reveal_strlit("_localization_stop_at_number");
        reveal_strlit("_localization_success");
        reveal_strlit("_localization_stop_criteria_met");
        reveal_strlit("_localization_count");
        reveal_strlit("_localization_transforms");
        reveal_strlit("_localization_settings");
        reveal_strlit("initial");
        lemma_key_distinct_at(
            id,
            "_localization_request_state"@,
            "_localization_source_format"@,
            14,
        );
        lemma_key_distinct_at(
            id,
            "_localization_request_trigger"@,
            "_localization_stop_at_timeout"@,
            14,
        );
        lemma_key_distinct_at(
            id,
            "_localization_scene_name"@,
            "_localization_transforms"@,
            14,
        );
        assert(r.entries@[0].0@ == id + "_localization_request_trigger"@);
        assert(r.entries@[1].0@ == id + "_localization_request_state"@);
        assert(r.entries@[2].0@ == id + "_localization_total_fail_counter"@);
        assert(r.entries@[3].0@ == id + "_localization_subsequent_fail_counter"@);
        assert(r.entries@[4].0@ == id + "_localization_scene_name"@);
        assert(r.entries@[5].0@ == id + "_localization_target_name"@);
        assert(r.entries@[6].0@ == id + "_localization_source_format"@);
        assert(r.entries@[7].0@ == id + "_localization_stop_at_timeout"@);
        assert(r.entries@[8].0@ == id + "_localization_stop_at_number"@);
        assert(r.entries@[9].0@ == id + "_localization_success"@);
        assert(r.entries@[10].0@ == id + "_localization_stop_criteria_met"@);
        assert(r.entries@[11].0@ == id + "_localization_count"@);
        assert(r.entries@[12].0@ == id + "_localization_transforms"@);
        assert(r.entries@[13].0@ == id + "_localization_settings"@);
        assert forall|p: int, q: int|
            0 <= p < q < r.entries@.len() implies (#[trigger] r.entries@[p]).0@ != (
        #[trigger] r.entries@[q]).0@ by {}
        assert(r.wf());
        lemma_val_any(r.entries@, 0, id + "_localization_request_trigger"@);
        lemma_val_any(r.entries@, 1, id + "_localization_request_state"@);
        lemma_val_any(r.entries@, 2, id + "_localization_total_fail_counter"@);
        lemma_val_any(r.entries@, 3, id + "_localization_subsequent_fail_counter"@);
        lemma_val_any(r.entries@, 4, id + "_localization_scene_name"@);
        lemma_val_any(r.entries@, 5, id + "_localization_target_name"@);
        lemma_val_any(r.entries@, 6, id + "_localization_source_format"@);
        lemma_val_any(r.entries@, 7, id + "_localization_stop_at_timeout"@);
        lemma_val_any(r.entries@, 8, id + "_localization_stop_at_number"@);
        lemma_val_any(r.entries@, 9, id + "_localization_success"@);
        lemma_val_any(r.entries@, 10, id + "_localization_stop_criteria_met"@);
        lemma_val_any(r.entries@, 11, id + "_localization_count"@);
        lemma_val_any(r.entries@, 12, id + "_localization_transforms"@);
        lemma_val_any(r.entries@, 13, id + "_localization_settings"@);
    }
    r
}

/// The initial store content of one scan resource: the handshake fields
/// hold their starting values, every identity and request field is the
/// explicit unknown of its type.
#[verifier::rlimit(80)]
pub fn generate_photoneo_interface_state(photoneo_name: &str) -> (r: State)
    ensures
        r.wf(),
        r.entries@.len() == 17,
        has_key(r.entries@, photoneo_name@ + "_request_trigger"@) && val_of(
            r.entries@,
            photoneo_name@ + "_request_trigger"@,
        ) == SPValueV::Bool(Some(false)),
        has_key(r.entries@, photoneo_name@ + "_request_state"@) && val_of(
            r.entries@,
            photoneo_name@ + "_request_state"@,
        ) == SPValueV::Text(Some("initial"@)),
        has_key(r.entries@, photoneo_name@ + "_total_fail_counter"@) && val_of(
            r.entries@,
            photoneo_name@ + "_total_fail_counter"@,
        ) == SPValueV::Int64(Some(0i64)),
        has_key(r.entries@, photoneo_name@ + "_subsequent_fail_counter"@) && val_of(
            r.entries@,
            photoneo_name@ + "_subsequent_fail_counter"@,
        ) == SPValueV::Int64(Some(0i64)),
        has_key(r.entries@, photoneo_name@ + "_name_identification"@) && val_of(
            r.entries@,
            photoneo_name@ + "_name_identification"@,
        ) == SPValueV::Text(None::<Seq<char>>),
        has_key(r.entries@, photoneo_name@ + "_hardware_identification"@) && val_of(
            r.entries@,
            photoneo_name@ + "_hardware_identification"@,
        ) == SPValueV::Text(None::<Seq<char>>),
        has_key(r.entries@, photoneo_name@ + "_ip_identification"@) && val_of(
            r.entries@,
            photoneo_name@ + "_ip_identification"@,
        ) == SPValueV::Text(None::<Seq<char>>),
        has_key(r.entries@, photoneo_name@ + "_command_type"@) && val_of(
            r.entries@,
            photoneo_name@ + "_command_type"@,
        ) == SPValueV::Text(None::<Seq<char>>),
        has_key(r.entries@, photoneo_name@ + "_scene_name"@) && val_of(
            r.entries@,
            photoneo_name@ + "_scene_name"@,
        ) == SPValueV::Text(None::<Seq<char>>),
        has_key(r.entries@, photoneo_name@ + "_praw"@) && val_of(
            r.entries@,
            photoneo_name@ + "_praw"@,
        ) == SPValueV::Bool(None::<bool>),
        has_key(r.entries@, photoneo_name@ + "_ply"@) && val_of(
            r.entries@,
            photoneo_name@ + "_ply"@,
        ) == SPValueV::Bool(None::<bool>),
        has_key(r.entries@, photoneo_name@ + "_tif"@) && val_of(
            r.entries@,
            photoneo_name@ + "_tif"@,
        ) == SPValueV::Bool(None::<bool>),
        has_key(r.entries@, photoneo_name@ + "_praw_dir"@) && val_of(
            r.entries@,
            photoneo_name@ + "_praw_dir"@,
        ) == SPValueV::Text(None::<Seq<char>>),
        has_key(r.entries@, photoneo_name@ + "_ply_dir"@) && val_of(
            r.entries@,
            photoneo_name@ + "_ply_dir"@,
        ) == SPValueV::Text(None::<Seq<char>>),
        has_key(r.entries@, photoneo_name@ + "_tif_dir"@) && val_of(
            r.entries@,
            photoneo_name@ + "_tif_dir"@,
        ) == SPValueV::Text(None::<Seq<char>>),
        has_key(r.entries@, photoneo_name@ + "_timeout"@) && val_of(
            r.entries@,
            photoneo_name@ + "_timeout"@,
        ) == SPValueV::Int64(None::<i64>),
        has_key(r.entries@, photoneo_name@ + "_settings"@) && val_of(
            r.entries@,
            photoneo_name@ + "_settings"@,
        ) == SPValueV::Text(None::<Seq<char>>),
{
    let mut es: Vec<(String, SPValue)> = Vec::new();
    es.push((key_of(photoneo_name, "_request_trigger"), SPValue::Bool(Some(false))));
    es.push((key_of(photoneo_name, "_request_state"), SPValue::Text(Some(String::from_str("initial")))));
    es.push((key_of(photoneo_name, "_total_fail_counter"), SPValue::Int64(Some(0))));
    es.push((key_of(photoneo_name, "_subsequent_fail_counter"), SPValue::Int64(Some(0))));
    es.push((key_of(photoneo_name, "_name_identification"), SPValue::Text(None)));
    es.push((key_of(photoneo_name, "_hardware_identification"), SPValue::Text(None)));
    es.push((key_of(photoneo_name, "_ip_identification"), SPValue::Text(None)));
    es.push((key_of(photoneo_name, "_command_type"), SPValue::Text(None)));
    es.push((key_of(photoneo_name, "_scene_name"), SPValue::Text(None)));
    es.push((key_of(photoneo_name, "_praw"), SPValue::Bool(None)));
    es.push((key_of(photoneo_name, "_ply"), SPValue::Bool(None)));
    es.push((key_of(photoneo_name, "_tif"), SPValue::Bool(None)));
    es.push((key_of(photoneo_name, "_praw_dir"), SPValue::Text(None)));
    es.push((key_of(photoneo_name, "_ply_dir"), SPValue::Text(None)));
    es.push((key_of(photoneo_name, "_tif_dir"), SPValue::Text(None)));
    es.push((key_of(photoneo_name, "_timeout"), SPValue::Int64(None)));
    es.push((key_of(photoneo_name, "_settings"), SPValue::Text(None)));
    let r = State { entries: es };
    proof {
        let id = photoneo_name@;
        reveal_strlit("_request_trigger");
        reveal_strlit("_request_state");
        reveal_strlit("_total_fail_counter");
        reveal_strlit("_subsequent_fail_counter");
        reveal_strlit("_name_identification");
        reveal_strlit("_hardware_identification");
        reveal_strlit("_ip_identification");
        reveal_strlit("_command_type");
        reveal_strlit("_scene_name");
        reveal_strlit("_praw");
        reveal_strlit("_ply");
        reveal_strlit("_tif");
        reveal_strlit("_praw_dir");
        reveal_strlit("_ply_dir");
        reveal_strlit("_tif_dir");
        reveal_strlit("_timeout");
        reveal_strlit("_settings");
        reveal_strlit("initial");
        lemma_key_distinct_at(id, "_ply"@, "_tif"@, 1);
        lemma_key_distinct_at(id, "_ply_dir"@, "_tif_dir"@, 1);
        lemma_key_distinct_at(id, "_ply_dir"@, "_timeout"@, 1);
        lemma_key_distinct_at(id, "_tif_dir"@, "_timeout"@, 3);
        lemma_key_distinct_at(id, "_praw_dir"@, "_settings"@, 1);
        lemma_key_distinct_at(id, "_subsequent_fail_counter"@, "_hardware_identification"@, 1);
        assert(r.entries@[0].0@ == id + "_request_trigger"@);
        assert(r.entries@[1].0@ == id + "_request_state"@);
        assert(r.entries@[2].0@ == id + "_total_fail_counter"@);
        assert(r.entries@[3].0@ == id + "_subsequent_fail_counter"@);
        assert(r.entries@[4].0@ == id + "_name_identification"@);
        assert(r.entries@[5].0@ == id + "_hardware_identification"@);
        assert(r.entries@[6].0@ == id + "_ip_identification"@);
        assert(r.entries@[7].0@ == id + "_command_type"@);
        assert(r.entries@[8].0@ == id + "_scene_name"@);
        assert(r.entries@[9].0@ == id + "_praw"@);
        assert(r.entries@[10].0@ == id + "_ply"@);
        assert(r.entries@[11].0@ == id + "_tif"@);
        assert(r.entries@[12].0@ == id + "_praw_dir"@);
        assert(r.entries@[13].0@ == id + "_ply_dir"@);
        assert(r.entries@[14].0@ == id + "_tif_dir"@);
        assert(r.entries@[15].0@ == id + "_timeout"@);
        assert(r.entries@[16].0@ == id + "_settings"@);
        assert forall|p: int, q: int|
            0 <= p < q < r.entries@.len() implies (#[trigger] r.entries@[p]).0@ != (
        #[trigger] r.entries@[q]).0@ by {}
        assert(r.wf());
        lemma_val_any(r.entries@, 0, id + "_request_trigger"@);
        lemma_val_any(r.entries@, 1, id + "_request_state"@);
        lemma_val_any(r.entries@, 2, id + "_total_fail_counter"@);
        lemma_val_any(r.entries@, 3, id + "_subsequent_fail_counter"@);
        lemma_val_any(r.entries@, 4, id + "_name_identification"@);
        lemma_val_any(r.entries@, 5, id + "_hardware_identification"@);
        lemma_val_any(r.entries@, 6, id + "_ip_identification"@);
        lemma_val_any(r.entries@, 7, id + "_command_type"@);
        lemma_val_any(r.entries@, 8, id + "_scene_name"@);
        lemma_val_any(r.entries@, 9, id + "_praw"@);
        lemma_val_any(r.entries@, 10, id + "_ply"@);
        lemma_val_any(r.entries@, 11, id + "_tif"@);
        lemma_val_any(r.entries@, 12, id + "_praw_dir"@);
        lemma_val_any(r.entries@, 13, id + "_ply_dir"@);
        lemma_val_any(r.entries@, 14, id + "_tif_dir"@);
        lemma_val_any(r.entries@, 15, id + "_timeout"@);
        lemma_val_any(r.entries@, 16, id + "_settings"@);
    }
    r
}

/// The trigger is honored: it is set while the request state is initial.
pub open spec fn spec_loc_triggered(es: Seq<(String, SPValue)>, id: Seq<char>) -> bool {
    &&& spec_bool_or(es, id + "_localization_request_trigger"@, false)
    &&& spec_text_or(es, id + "_localization_request_state"@, "UNKNOWN"@) == "initial"@
}

/// The scan trigger is honored: set while the request state is initial.
pub open spec fn spec_scan_triggered(es: Seq<(String, SPValue)>, id: Seq<char>) -> bool {
    &&& spec_bool_or(es, id + "_request_trigger"@, false)
    &&& spec_text_or(es, id + "_request_state"@, "UNKNOWN"@) == "initial"@
}

/// A trigger seen in any state but the initial one is debounced: the tick
/// plans no request, performs no run and writes nothing back, whatever
/// else the snapshot holds. Sequencing the trigger anew is the external
/// writer's responsibility.
pub proof fn lemma_localization_trigger_debounce(es: Seq<(String, SPValue)>, id: Seq<char>)
    requires
        spec_text_or(es, id + "_localization_request_state"@, "UNKNOWN"@) != "initial"@,
    ensures
        !spec_loc_triggered(es, id),
{
}

/// The scan tick debounces a trigger outside the initial state the same
/// way.
pub proof fn lemma_scan_trigger_debounce(es: Seq<(String, SPValue)>, id: Seq<char>)
    requires
        spec_text_or(es, id + "_request_state"@, "UNKNOWN"@) != "initial"@,
    ensures
        !spec_scan_triggered(es, id),
{
}

/// Read the snapshot and decide whether to run: a request is assembled
/// exactly when the trigger is set in the initial state; each field
/// defaults when its key is absent or mistyped.
pub fn plan_localization_tick(
    snapshot: &State,
    photoneo_id: &str,
    phoxi_scans_path: &str,
    plcfs_path: &str,
) -> (r: Option<LocalizeRequest>)
    requires
        snapshot.wf(),
    ensures
        r is Some <==> spec_loc_triggered(snapshot.entries@, photoneo_id@),
        r matches Some(req) ==> ({
            let es = snapshot.entries@;
            let id = photoneo_id@;
            &&& req.scene_name@ == spec_text_or(es, id + "_localization_scene_name"@, "UNKNOWN"@)
            &&& req.target_name@ == spec_text_or(es, id + "_localization_target_name"@, "UNKNOWN"@)
            &&& req.source_format@ == spec_text_or(es, id + "_localization_source_format"@, "UNKNOWN"@)
            &&& req.stop_at_timeout == spec_int_or(es, id + "_localization_stop_at_timeout"@, 0)
            &&& req.stop_at_number == spec_int_or(es, id + "_localization_stop_at_number"@, 0)
            &&& req.settings@ == spec_text_or(es, id + "_localization_settings"@, "UNKNOWN"@)
            &&& req.praw_dir@ == phoxi_scans_path@ + "/praw"@
            &&& req.ply_dir@ == phoxi_scans_path@ + "/ply"@
            &&& req.plcf_dir@ == plcfs_path@
        }),
{
    let k_trigger = key_of(photoneo_id, "_localization_request_trigger");
    let k_state = key_of(photoneo_id, "_localization_request_state");
    let trigger = snapshot.get_bool_or_default_to_false(&k_trigger);
    let req_state = snapshot.get_string_or_default_to_unknown(&k_state);
    if trigger && req_state == String::from_str("initial") {
        let req = LocalizeRequest {
            scene_name: snapshot.get_string_or_default_to_unknown(
                &key_of(photoneo_id, "_localization_scene_name"),
            ),
            target_name: snapshot.get_string_or_default_to_unknown(
                &key_of(photoneo_id, "_localization_target_name"),
            ),
            source_format: snapshot.get_string_or_default_to_unknown(
                &key_of(photoneo_id, "_localization_source_format"),
            ),
            stop_at_timeout: snapshot.get_int_or_default_to_zero(
                &key_of(photoneo_id, "_localization_stop_at_timeout"),
            ),
            stop_at_number: snapshot.get_int_or_default_to_zero(
                &key_of(photoneo_id, "_localization_stop_at_number"),
            ),
            praw_dir: phoxi_scans_path.to_owned().concat("/praw"),
            ply_dir: phoxi_scans_path.to_owned().concat("/ply"),
            plcf_dir: plcfs_path.to_owned(),
            settings: snapshot.get_string_or_default_to_unknown(
                &key_of(photoneo_id, "_localization_settings"),
            ),
        };
        Some(req)
    } else {
        None
    }
}

/// Read the snapshot and decide whether to scan; the identity fields
/// default to the unknown marker, the output formats and timeout to the
/// documented capture defaults.
pub fn plan_scan_tick(snapshot: &State, photoneo_id: &str, phoxi_scans_path: &str) -> (r: Option<
    ScanRequest,
>)
    requires
        snapshot.wf(),
    ensures
        r is Some <==> spec_scan_triggered(snapshot.entries@, photoneo_id@),
        r matches Some(req) ==> ({
            let es = snapshot.entries@;
            let id = photoneo_id@;
            &&& req.name_identification@ == spec_text_or(es, id + "_name_identification"@, "UNKNOWN"@)
            &&& req.hardware_identification@ == spec_text_or(es, id + "_hardware_identification"@, "UNKNOWN"@)
            &&& req.ip_identification@ == spec_text_or(es, id + "_ip_identification"@, "UNKNOWN"@)
            &&& req.command_type@ == spec_text_or(es, id + "_command_type"@, "UNKNOWN"@)
            &&& req.scene_name@ == spec_text_or(es, id + "_scene_name"@, "UNKNOWN"@)
            &&& req.praw == spec_bool_or(es, id + "_praw"@, true)
            &&& req.ply == spec_bool_or(es, id + "_ply"@, false)
            &&& req.tif == spec_bool_or(es, id + "_tif"@, false)
            &&& req.timeout == spec_int_or(es, id + "_timeout"@, 5000)
            &&& req.settings@ == spec_text_or(es, id + "_settings"@, "default"@)
            &&& req.praw_dir@ == phoxi_scans_path@ + "/praw"@
            &&& req.ply_dir@ == phoxi_scans_path@ + "/ply"@
            &&& req.tif_dir@ == phoxi_scans_path@ + "/tif"@
        }),
{
    let k_trigger = key_of(photoneo_id, "_request_trigger");
    let k_state = key_of(photoneo_id, "_request_state");
    let trigger = snapshot.get_bool_or_default_to_false(&k_trigger);
    let req_state = snapshot.get_string_or_default_to_unknown(&k_state);
    if trigger && req_state == String::from_str("initial") {
        let praw = match snapshot.get_bool_or_unknown(&key_of(photoneo_id, "_praw")) {
            Some(v) => v,
            None => true,
        };
        let timeout = match snapshot.get_int_or_unknown(&key_of(photoneo_id, "_timeout")) {
            Some(v) => v,
            None => 5000,
        };
        let settings = match snapshot.get_string_or_unknown(&key_of(photoneo_id, "_settings")) {
            Some(v) => v,
            None => String::from_str("default"),
        };
        let req = ScanRequest {
            name_identification: snapshot.get_string_or_default_to_unknown(
                &key_of(photoneo_id, "_name_identification"),
            ),
            hardware_identification: snapshot.get_string_or_default_to_unknown(
                &key_of(photoneo_id, "_hardware_identification"),
            ),
            ip_identification: snapshot.get_string_or_default_to_unknown(
                &key_of(photoneo_id, "_ip_identification"),
            ),
            command_type: snapshot.get_string_or_default_to_unknown(
                &key_of(photoneo_id, "_command_type"),
            ),
            scene_name: snapshot.get_string_or_default_to_unknown(
                &key_of(photoneo_id, "_scene_name"),
            ),
            praw,
            ply: snapshot.get_bool_or_default_to_false(&key_of(photoneo_id, "_ply")),
            tif: snapshot.get_bool_or_default_to_false(&key_of(photoneo_id, "_tif")),
            praw_dir: phoxi_scans_path.to_owned().concat("/praw"),
            ply_dir: phoxi_scans_path.to_owned().concat("/ply"),
            tif_dir: phoxi_scans_path.to_owned().concat("/tif"),
            timeout,
            settings,
        };
        Some(req)
    } else {
        None
    }
}

/// The key's value in the snapshot is absent or differs from `v`.
pub open spec fn changed_to(es: Seq<(String, SPValue)>, k: Seq<char>, v: SPValueV) -> bool {
    !has_key(es, k) || val_of(es, k) != v
}

/// Fold one run's outcome into the store: the trigger is cleared, the
/// request state becomes succeeded or failed, and the result fields take
/// the parsed outcome. The returned delta holds exactly the keys among
/// these whose value actually changed versus the snapshot, each with its
/// new value.
#[verifier::rlimit(60)]
pub fn finish_localization_tick(
    snapshot: &State,
    photoneo_id: &str,
    exec_ok: bool,
    result: &ParsedResult,
    transforms: Vec<SPTransformStamped>,
) -> (delta: State)
    requires
        snapshot.wf(),
        result.count <= i64::MAX as usize,
    ensures
        delta.wf(),
        ({
            let es = snapshot.entries@;
            let id = photoneo_id@;
            let kt = id + "_localization_request_trigger"@;
            let ks = id + "_localization_request_state"@;
            let ku = id + "_localization_success"@;
            let km = id + "_localization_stop_criteria_met"@;
            let kc = id + "_localization_count"@;
            let kf = id + "_localization_transforms"@;
            let vt = SPValueV::Bool(Some(false));
            let vs = SPValueV::Text(Some(if exec_ok { "succeeded"@ } else { "failed"@ }));
            let vu = SPValueV::Bool(Some(result.success));
            let vm = SPValueV::Bool(Some(result.stop_criteria_met));
            let vc = SPValueV::Int64(Some(result.count as i64));
            let vf = SPValueV::Transforms(Some(transforms.deep_view()));
            &&& (forall|k: Seq<char>|
                #[trigger] has_key(delta.entries@, k) ==> (k == kt || k == ks || k == ku || k == km
                    || k == kc || k == kf))
            &&& (has_key(delta.entries@, kt) <==> changed_to(es, kt, vt))
            &&& (has_key(delta.entries@, kt) ==> val_of(delta.entries@, kt) == vt)
            &&& (has_key(delta.entries@, ks) <==> changed_to(es, ks, vs))
            &&& (has_key(delta.entries@, ks) ==> val_of(delta.entries@, ks) == vs)
            &&& (has_key(delta.entries@, ku) <==> changed_to(es, ku, vu))
            &&& (has_key(delta.entries@, ku) ==> val_of(delta.entries@, ku) == vu)
            &&& (has_key(delta.entries@, km) <==> changed_to(es, km, vm))
            &&& (has_key(delta.entries@, km) ==> val_of(delta.entries@, km) == vm)
            &&& (has_key(delta.entries@, kc) <==> changed_to(es, kc, vc))
            &&& (has_key(delta.entries@, kc) ==> val_of(delta.entries@, kc) == vc)
            &&& (has_key(delta.entries@, kf) <==> changed_to(es, kf, vf))
            &&& (has_key(delta.entries@, kf) ==> val_of(delta.entries@, kf) == vf)
        }),
{
    let kt = key_of(photoneo_id, "_localization_request_trigger");
    let ks = key_of(photoneo_id, "_localization_request_state");
    let ku = key_of(photoneo_id, "_localization_success");
    let km = key_of(photoneo_id, "_localization_stop_criteria_met");
    let kc = key_of(photoneo_id, "_localization_count");
    let kf = key_of(photoneo_id, "_localization_transforms");
    let state_text = if exec_ok {
        String::from_str("succeeded")
    } else {
        String::from_str("failed")
    };
    proof {
        reveal_strlit("_localization_request_trigger");
        reveal_strlit("_localization_request_state");
        reveal_strlit("_localization_success");
        reveal_strlit("_localization_stop_criteria_met");
        reveal_strlit("_localization_count");
        reveal_strlit("_localization_transforms");
        let id = photoneo_id@;
        lemma_key_distinct_len(id, "_localization_request_trigger"@, "_localization_request_state"@);
        lemma_key_distinct_len(id, "_localization_request_trigger"@, "_localization_success"@);
        lemma_key_distinct_len(id, "_localization_request_trigger"@, "_localization_stop_criteria_met"@);
        lemma_key_distinct_len(id, "_localization_request_trigger"@, "_localization_count"@);
        lemma_key_distinct_len(id, "_localization_request_trigger"@, "_localization_transforms"@);
        lemma_key_distinct_len(id, "_localization_request_state"@, "_localization_success"@);
        lemma_key_distinct_len(id, "_localization_request_state"@, "_localization_stop_criteria_met"@);
        lemma_key_distinct_len(id, "_localization_request_state"@, "_localization_count"@);
        lemma_key_distinct_len(id, "_localization_request_state"@, "_localization_transforms"@);
        lemma_key_distinct_len(id, "_localization_success"@, "_localization_stop_criteria_met"@);
        lemma_key_distinct_len(id, "_localization_success"@, "_localization_count"@);
        lemma_key_distinct_len(id, "_localization_success"@, "_localization_transforms"@);
        lemma_key_distinct_len(id, "_localization_stop_criteria_met"@, "_localization_count"@);
        lemma_key_distinct_len(id, "_localization_stop_criteria_met"@, "_localization_transforms"@);
        lemma_key_distinct_len(id, "_localization_count"@, "_localization_transforms"@);
    }
    let s1 = snapshot.update(&kt, &SPValue::Bool(Some(false)));
    let s2 = s1.update(&ks, &SPValue::Text(Some(state_text)));
    let s3 = s2.update(&ku, &SPValue::Bool(Some(result.success)));
    let s4 = s3.update(&km, &SPValue::Bool(Some(result.stop_criteria_met)));
    let s5 = s4.update(&kc, &SPValue::Int64(Some(result.count as i64)));
    let s6 = s5.update(&kf, &SPValue::Transforms(Some(transforms)));
    snapshot.get_diff_partial_state(&s6)
}

/// Fold one scan's outcome into the store: the trigger is cleared, the
/// request state becomes succeeded or failed, and the raw feedback field
/// takes the given text. The returned delta holds exactly the keys among
/// these whose value actually changed versus the snapshot.
#[verifier::rlimit(60)]
pub fn finish_scan_tick(
    snapshot: &State,
    photoneo_id: &str,
    exec_ok: bool,
    raw_info: &String,
) -> (delta: State)
    requires
        snapshot.wf(),
    ensures
        delta.wf(),
        ({
            let es = snapshot.entries@;
            let id = photoneo_id@;
            let kt = id + "_request_trigger"@;
            let ks = id + "_request_state"@;
            let ki = id + "_phoxi_raw_info"@;
            let vt = SPValueV::Bool(Some(false));
            let vs = SPValueV::Text(Some(if exec_ok { "succeeded"@ } else { "failed"@ }));
            let vi = SPValueV::Text(Some(raw_info@));
            &&& (forall|k: Seq<char>|
                #[trigger] has_key(delta.entries@, k) ==> (k == kt || k == ks || k == ki))
            &&& (has_key(delta.entries@, kt) <==> changed_to(es, kt, vt))
            &&& (has_key(delta.entries@, kt) ==> val_of(delta.entries@, kt) == vt)
            &&& (has_key(delta.entries@, ks) <==> changed_to(es, ks, vs))
            &&& (has_key(delta.entries@, ks) ==> val_of(delta.entries@, ks) == vs)
            &&& (has_key(delta.entries@, ki) <==> changed_to(es, ki, vi))
            &&& (has_key(delta.entries@, ki) ==> val_of(delta.entries@, ki) == vi)
        }),
{
    let kt = key_of(photoneo_id, "_request_trigger");
    let ks = key_of(photoneo_id, "_request_state");
    let ki = key_of(photoneo_id, "_phoxi_raw_info");
    let state_text = if exec_ok {
        String::from_str("succeeded")
    } else {
        String::from_str("failed")
    };
    proof {
        reveal_strlit("_request_trigger");
        reveal_strlit("_request_state");
        reveal_strlit("_phoxi_raw_info");
        let id = photoneo_id@;
        lemma_key_distinct_len(id, "_request_trigger"@, "_request_state"@);
        lemma_key_distinct_len(id, "_request_trigger"@, "_phoxi_raw_info"@);
        lemma_key_distinct_len(id, "_request_state"@, "_phoxi_raw_info"@);
    }
    let s1 = snapshot.update(&kt, &SPValue::Bool(Some(false)));
    let s2 = s1.update(&ks, &SPValue::Text(Some(state_text)));
    let s3 = s2.update(&ki, &SPValue::Text(Some(raw_info.clone())));
    snapshot.get_diff_partial_state(&s3)
}

} // verus!
