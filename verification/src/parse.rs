//! Extracting transforms from captured vendor output.
//!
//! The output is scanned for lines carrying the reserved marker token; the
//! three lines after a marker are read as the three non-trivial rows of a
//! homogeneous transform (the bottom row is [0, 0, 0, 1] by construction,
//! never read from output). A row is accepted only when exactly four of
//! its whitespace-separated tokens parse as decimals; otherwise the whole
//! triple is skipped without failing the batch.

use vstd::prelude::*;

use crate::fixed::{iabs, Fix, SCALE};
use crate::matrix::Mat4;
use crate::numparse::{parse_float, token_shape, token_units};
use crate::request::LocalizeRequest;

verus! {

/// The marker token occurs at index `i`, delimited by spaces or the ends.
pub open spec fn marker_at(line: Seq<u8>, i: int) -> bool {
    &&& 0 <= i
    &&& i + 6 <= line.len()
    &&& line[i] == 82
    &&& line[i + 1] == 69
    &&& line[i + 2] == 83
    &&& line[i + 3] == 85
    &&& line[i + 4] == 76
    &&& line[i + 5] == 84
    &&& (i == 0 || line[i - 1] == 32)
    &&& (i + 6 == line.len() || line[i + 6] == 32)
}

/// Some whitespace-separated token of the line is the marker.
pub open spec fn has_marker(line: Seq<u8>) -> bool {
    exists|i: int| marker_at(line, i)
}

/// Index of the first space, or the length if there is none.
pub open spec fn first_space(s: Seq<u8>) -> nat
    decreases s.len(),
{
    if s.len() == 0 {
        0
    } else if s[0] == 32 {
        0
    } else {
        1 + first_space(s.skip(1))
    }
}

/// The units denoted by one token, if it is an accepted decimal.
pub open spec fn maybe_tok(t: Seq<u8>) -> Seq<i64> {
    if token_shape(t) && iabs(token_units(t)) <= i64::MAX as int {
        seq![token_units(t) as i64]
    } else {
        Seq::empty()
    }
}

/// The accepted decimal tokens of a row, in order, as units.
pub open spec fn row_units(s: Seq<u8>) -> Seq<i64>
    decreases s.len(),
{
    let d = first_space(s);
    if d >= s.len() {
        maybe_tok(s)
    } else {
        maybe_tok(s.take(d as int)) + row_units(s.skip(d + 1 as int))
    }
}

/// A row contributes to a transform only with exactly four decimals.
pub open spec fn row_ok(s: Seq<u8>) -> bool {
    row_units(s).len() == 4
}

/// The transform assembled from three accepted rows.
pub open spec fn mat_of_rows(r1: Seq<i64>, r2: Seq<i64>, r3: Seq<i64>) -> Mat4 {
    Mat4 {
        m00: Fix { units: r1[0] },
        m01: Fix { units: r1[1] },
        m02: Fix { units: r1[2] },
        m03: Fix { units: r1[3] },
        m10: Fix { units: r2[0] },
        m11: Fix { units: r2[1] },
        m12: Fix { units: r2[2] },
        m13: Fix { units: r2[3] },
        m20: Fix { units: r3[0] },
        m21: Fix { units: r3[1] },
        m22: Fix { units: r3[2] },
        m23: Fix { units: r3[3] },
        m30: Fix { units: 0 },
        m31: Fix { units: 0 },
        m32: Fix { units: 0 },
        m33: Fix { units: SCALE },
    }
}

/// The transforms extracted from the lines at positions `i` and later: one
/// for each marker line followed by three accepted rows.
pub open spec fn detections_from(lines: Seq<Seq<u8>>, i: int) -> Seq<Mat4>
    decreases lines.len() - i,
{
    if i >= lines.len() {
        Seq::empty()
    } else {
        let rest = detections_from(lines, i + 1);
        if has_marker(lines[i]) && i + 4 <= lines.len() && row_ok(lines[i + 1]) && row_ok(
            lines[i + 2],
        ) && row_ok(lines[i + 3]) {
            seq![
                mat_of_rows(row_units(lines[i + 1]), row_units(lines[i + 2]), row_units(lines[i + 3])),
            ] + rest
        } else {
            rest
        }
    }
}

/// All transforms extracted from the captured lines.
pub open spec fn spec_detections(lines: Seq<Seq<u8>>) -> Seq<Mat4> {
    detections_from(lines, 0)
}

/// A detection succeeded when anything at all was found.
pub open spec fn outcome_success(count: int) -> bool {
    count > 0
}

/// The stop criterion is met when the count reaches the requested number.
pub open spec fn outcome_stop_met(count: int, stop_at_number: int) -> bool {
    count > 0 && stop_at_number <= count
}

/// No detection means failure: with a count of zero the outcome reports
/// neither success nor a met stop criterion, whatever number of
/// detections was asked for.
pub proof fn lemma_zero_count_outcome(stop_at_number: int)
    ensures
        !outcome_success(0),
        !outcome_stop_met(0, stop_at_number),
{
}

/// One extracted transform, labeled with the request's target name.
#[derive(Debug)]
pub struct Detection {
    pub matrix: Mat4,
    pub label: String,
}

/// The outcome of scanning one captured output.
#[derive(Debug)]
pub struct ParsedResult {
    pub success: bool,
    pub stop_criteria_met: bool,
    pub count: usize,
    pub results: Vec<Detection>,
}

impl ParsedResult {
    /// An empty outcome: nothing found, no criteria met.
    pub fn new() -> (r: Self)
        ensures
            !r.success,
            !r.stop_criteria_met,
            r.count == 0,
            r.results@.len() == 0,
    {
        ParsedResult { success: false, stop_criteria_met: false, count: 0, results: Vec::new() }
    }
}

/// Whether the line carries the marker token.
fn line_has_marker(line: &Vec<u8>) -> (r: bool)
    ensures
        r == has_marker(line@),
{
    let n = line.len();
    if n < 6 {
        return false;
    }
    let mut i: usize = 0;
    while i <= n - 6
        invariant
            n == line@.len(),
            6 <= n,
            i <= n,
            forall|m: int| 0 <= m < i ==> !marker_at(line@, m),
        decreases n - i,
    {
        let word_ok = line[i] == 82 && line[i + 1] == 69 && line[i + 2] == 83 && line[i + 3] == 85
            && line[i + 4] == 76 && line[i + 5] == 84;
        let left_ok = i == 0 || line[i - 1] == 32;
        let right_ok = i + 6 == n || line[i + 6] == 32;
        if word_ok && left_ok && right_ok {
            proof {
                assert(marker_at(line@, i as int));
            }
            return true;
        }
        i = i + 1;
    }
    proof {
        assert forall|m: int| !marker_at(line@, m) by {
            if 0 <= m && m + 6 <= n {
                assert(m < i);
            }
        }
    }
    false
}

/// The lemmas about `first_space`, mirroring the first decimal point.
proof fn lemma_first_space_at(s: Seq<u8>, d: int)
    requires
        0 <= d < s.len(),
        s[d] == 32,
        forall|m: int| 0 <= m < d ==> s[m] != 32,
    ensures
        first_space(s) == d,
    decreases d,
{
    if d > 0 {
        assert forall|m: int| 0 <= m < d - 1 implies s.skip(1)[m] != 32 by {
            assert(s[m + 1] != 32);
        }
        lemma_first_space_at(s.skip(1), d - 1);
    }
}

proof fn lemma_first_space_none(s: Seq<u8>)
    requires
        forall|m: int| 0 <= m < s.len() ==> s[m] != 32,
    ensures
        first_space(s) == s.len(),
    decreases s.len(),
{
    if s.len() > 0 {
        assert forall|m: int| 0 <= m < s.skip(1).len() implies s.skip(1)[m] != 32 by {
            assert(s[m + 1] != 32);
        }
        lemma_first_space_none(s.skip(1));
    }
}

/// The units of the accepted tokens so far.
pub open spec fn units_of(r: Seq<Fix>) -> Seq<i64> {
    r.map_values(|f: Fix| f.units)
}

/// Parse the accepted decimal tokens of one row.
pub fn parse_row(line: &Vec<u8>) -> (r: Vec<Fix>)
    ensures
        units_of(r@) == row_units(line@),
{
    let n = line.len();
    let mut out: Vec<Fix> = Vec::new();
    let mut start: usize = 0;
    let mut j: usize = 0;
    proof {
        assert(line@.skip(0) =~= line@);
        assert(units_of(out@) + row_units(line@.skip(0)) =~= row_units(line@));
    }
    while j < n
        invariant
            start <= j <= n,
            n == line@.len(),
            forall|m: int| start <= m < j ==> line@[m] != 32,
            row_units(line@) == units_of(out@) + row_units(line@.skip(start as int)),
        decreases n - j,
    {
        if line[j] == 32 {
            let tok = vstd::slice::slice_subrange(line.as_slice(), start, j);
            proof {
                let rest = line@.skip(start as int);
                assert forall|m: int| 0 <= m < j - start implies rest[m] != 32 by {
                    assert(line@[start + m] != 32);
                }
                assert(rest[j - start] == 32);
                lemma_first_space_at(rest, j - start);
                assert(tok@ =~= rest.take(j - start));
                assert(rest.skip(j - start + 1) =~= line@.skip(j + 1));
            }
            let parsed = parse_float(tok);
            match parsed {
                Some(f) => {
                    out.push(f);
                    proof {
                        assert(units_of(out@) =~= units_of(out@.drop_last()) + seq![f.units]);
                        assert(row_units(line@) =~= units_of(out@) + row_units(
                            line@.skip(j + 1),
                        ));
                    }
                },
                None => {
                    proof {
                        assert(maybe_tok(line@.skip(start as int).take(j - start)) =~= Seq::<
                            i64,
                        >::empty());
                        assert(row_units(line@) =~= units_of(out@) + row_units(
                            line@.skip(j + 1),
                        ));
                    }
                },
            }
            start = j + 1;
        }
        j = j + 1;
    }
    // the final token runs to the end of the line
    let tok = vstd::slice::slice_subrange(line.as_slice(), start, n);
    proof {
        let rest = line@.skip(start as int);
        assert forall|m: int| 0 <= m < rest.len() implies rest[m] != 32 by {
            assert(line@[start + m] != 32);
        }
        lemma_first_space_none(rest);
        assert(tok@ =~= rest);
    }
    let parsed = parse_float(tok);
    match parsed {
        Some(f) => {
            out.push(f);
            proof {
                assert(units_of(out@) =~= units_of(out@.drop_last()) + seq![f.units]);
            }
        },
        None => {
            proof {
                assert(maybe_tok(line@.skip(start as int)) =~= Seq::<i64>::empty());
            }
        },
    }
    proof {
        assert(units_of(out@) =~= row_units(line@));
    }
    out
}

/// Scan captured output lines for marker-led transforms and apply the
/// outcome policy: no detection is a failure; detections below the
/// requested number are a success with the stop criterion unmet; reaching
/// the number meets it.
pub fn parse_result(request: &LocalizeRequest, data: &Vec<Vec<u8>>) -> (r: ParsedResult)
    ensures
        r.results@.len() == spec_detections(data.deep_view()).len(),
        forall|k: int|
            0 <= k < r.results@.len() ==> (#[trigger] r.results@[k]).matrix == spec_detections(
                data.deep_view(),
            )[k] && r.results@[k].label@ == request.target_name@,
        r.count == r.results@.len(),
        r.success == outcome_success(r.results@.len() as int),
        r.stop_criteria_met == outcome_stop_met(
            r.results@.len() as int,
            request.stop_at_number as int,
        ),
{
    let ghost dv = data.deep_view();
    let n = data.len();
    let mut results: Vec<Detection> = Vec::new();
    let mut i: usize = 0;
    proof {
        assert(dv.len() == n);
    }
    while i < n
        invariant
            i <= n,
            n == data@.len(),
            dv == data.deep_view(),
            dv.len() == n,
            spec_detections(dv) == results@.map_values(|d: Detection| d.matrix) + detections_from(
                dv,
                i as int,
            ),
            forall|k: int|
                0 <= k < results@.len() ==> (#[trigger] results@[k]).label@
                    == request.target_name@,
        decreases n - i,
    {
        proof {
            assert(dv[i as int] == data@[i as int]@);
        }
        if line_has_marker(&data[i]) && n - i >= 4 {
            proof {
                assert(dv[i as int + 1] == data@[i as int + 1]@);
                assert(dv[i as int + 2] == data@[i as int + 2]@);
                assert(dv[i as int + 3] == data@[i as int + 3]@);
            }
            let r1 = parse_row(&data[i + 1]);
            let r2 = parse_row(&data[i + 2]);
            let r3 = parse_row(&data[i + 3]);
            if r1.len() == 4 && r2.len() == 4 && r3.len() == 4 {
                let m = Mat4 {
                    m00: r1[0],
                    m01: r1[1],
                    m02: r1[2],
                    m03: r1[3],
                    m10: r2[0],
                    m11: r2[1],
                    m12: r2[2],
                    m13: r2[3],
                    m20: r3[0],
                    m21: r3[1],
                    m22: r3[2],
                    m23: r3[3],
                    m30: Fix { units: 0 },
                    m31: Fix { units: 0 },
                    m32: Fix { units: 0 },
                    m33: Fix { units: SCALE },
                };
                proof {
                    assert(units_of(r1@)[0] == r1@[0].units);
                    assert(units_of(r1@)[1] == r1@[1].units);
                    assert(units_of(r1@)[2] == r1@[2].units);
                    assert(units_of(r1@)[3] == r1@[3].units);
                    assert(units_of(r2@)[0] == r2@[0].units);
                    assert(units_of(r2@)[1] == r2@[1].units);
                    assert(units_of(r2@)[2] == r2@[2].units);
                    assert(units_of(r2@)[3] == r2@[3].units);
                    assert(units_of(r3@)[0] == r3@[0].units);
                    assert(units_of(r3@)[1] == r3@[1].units);
                    assert(units_of(r3@)[2] == r3@[2].units);
                    assert(units_of(r3@)[3] == r3@[3].units);
                    assert(m == mat_of_rows(
                        row_units(dv[i as int + 1]),
                        row_units(dv[i as int + 2]),
                        row_units(dv[i as int + 3]),
                    ));
                }
                let d = Detection { matrix: m, label: request.target_name.clone() };
                results.push(d);
                proof {
                    assert(results@.map_values(|d: Detection| d.matrix) =~= results@.drop_last()
                        .map_values(|d: Detection| d.matrix) + seq![m]);
                    assert(spec_detections(dv) =~= results@.map_values(|d: Detection| d.matrix)
                        + detections_from(dv, i as int + 1));
                }
            } else {
                proof {
                    assert(!(row_ok(dv[i as int + 1]) && row_ok(dv[i as int + 2]) && row_ok(
                        dv[i as int + 3],
                    )));
                    assert(detections_from(dv, i as int) == detections_from(dv, i as int + 1));
                }
            }
        } else {
            proof {
                assert(detections_from(dv, i as int) == detections_from(dv, i as int + 1));
            }
        }
        i = i + 1;
    }
    proof {
        assert(detections_from(dv, n as int) =~= Seq::<Mat4>::empty());
        assert(results@.map_values(|d: Detection| d.matrix) =~= spec_detections(dv));
    }
    let count = results.len();
    let success = count > 0;
    let stop_criteria_met = if count == 0 {
        false
    } else if request.stop_at_number <= 0 {
        true
    } else {
        (request.stop_at_number as u64) <= (count as u64)
    };
    ParsedResult { success, stop_criteria_met, count, results }
}

} // verus!
