//! The shared-state model.
//!
//! The remote store maps string keys to typed values; each value is a
//! boolean, integer, string or transform list, or an explicit unknown of
//! that type. The driver works on a snapshot holding only the key subset
//! it owns, and writes back only the keys whose value changed.

use vstd::prelude::*;

use crate::transform::{SPTransform, SPTransformStamped};

verus! {

/// A typed store value; `None` is the explicit unknown of that type.
#[derive(Debug)]
pub enum SPValue {
    Bool(Option<bool>),
    Int64(Option<i64>),
    Text(Option<String>),
    Transforms(Option<Vec<SPTransformStamped>>),
}

/// The mathematical value of a stamped transform.
pub struct TransformV {
    pub active_transform: bool,
    pub enable_transform: bool,
    pub time_stamp: u64,
    pub parent_frame_id: Seq<char>,
    pub child_frame_id: Seq<char>,
    pub transform: SPTransform,
}

/// The mathematical value of a store value.
pub enum SPValueV {
    Bool(Option<bool>),
    Int64(Option<i64>),
    Text(Option<Seq<char>>),
    Transforms(Option<Seq<TransformV>>),
}

impl View for SPTransformStamped {
    type V = TransformV;

    open spec fn view(&self) -> TransformV {
        TransformV {
            active_transform: self.active_transform,
            enable_transform: self.enable_transform,
            time_stamp: self.time_stamp,
            parent_frame_id: self.parent_frame_id@,
            child_frame_id: self.child_frame_id@,
            transform: self.transform,
        }
    }
}

impl DeepView for SPTransformStamped {
    type V = TransformV;

    open spec fn deep_view(&self) -> TransformV {
        self.view()
    }
}

impl View for SPValue {
    type V = SPValueV;

    open spec fn view(&self) -> SPValueV {
        match self {
            SPValue::Bool(b) => SPValueV::Bool(*b),
            SPValue::Int64(i) => SPValueV::Int64(*i),
            SPValue::Text(s) => SPValueV::Text(
                match s {
                    Some(t) => Some(t@),
                    None => None,
                },
            ),
            SPValue::Transforms(t) => SPValueV::Transforms(
                match t {
                    Some(v) => Some(v.deep_view()),
                    None => None,
                },
            ),
        }
    }
}

/// Equality of two stamped transforms, decided field by field.
pub fn transform_stamped_eq(a: &SPTransformStamped, b: &SPTransformStamped) -> (r: bool)
    ensures
        r == (a@ == b@),
{
    let fields_eq = a.active_transform == b.active_transform && a.enable_transform
        == b.enable_transform && a.time_stamp == b.time_stamp && a.transform == b.transform;
    let names_eq = a.parent_frame_id == b.parent_frame_id && a.child_frame_id == b.child_frame_id;
    fields_eq && names_eq
}

/// Equality of two store values, decided structurally.
pub fn sp_value_eq(a: &SPValue, b: &SPValue) -> (r: bool)
    ensures
        r == (a@ == b@),
{
    match (a, b) {
        (SPValue::Bool(x), SPValue::Bool(y)) => match (x, y) {
            (None, None) => true,
            (Some(p), Some(q)) => *p == *q,
            _ => false,
        },
        (SPValue::Int64(x), SPValue::Int64(y)) => match (x, y) {
            (None, None) => true,
            (Some(p), Some(q)) => *p == *q,
            _ => false,
        },
        (SPValue::Text(x), SPValue::Text(y)) => match (x, y) {
            (None, None) => true,
            (Some(p), Some(q)) => *p == *q,
            _ => false,
        },
        (SPValue::Transforms(x), SPValue::Transforms(y)) => match (x, y) {
            (None, None) => true,
            (Some(p), Some(q)) => transforms_eq(p, q),
            _ => false,
        },
        _ => false,
    }
}

/// Equality of two transform lists, element by element.
fn transforms_eq(a: &Vec<SPTransformStamped>, b: &Vec<SPTransformStamped>) -> (r: bool)
    ensures
        r == (a.deep_view() == b.deep_view()),
{
    let n = a.len();
    if n != b.len() {
        proof {
            assert(a.deep_view().len() == a@.len());
            assert(b.deep_view().len() == b@.len());
        }
        return false;
    }
    let mut i: usize = 0;
    while i < n
        invariant
            i <= n,
            n == a@.len(),
            n == b@.len(),
            forall|k: int| 0 <= k < i ==> a.deep_view()[k] == b.deep_view()[k],
        decreases n - i,
    {
        if !transform_stamped_eq(&a[i], &b[i]) {
            proof {
                assert(a.deep_view()[i as int] != b.deep_view()[i as int]);
            }
            return false;
        }
        i = i + 1;
    }
    proof {
        assert(a.deep_view() =~= b.deep_view());
    }
    true
}

/// Copy a store value; the copy denotes the same mathematical value.
pub fn sp_value_clone(v: &SPValue) -> (r: SPValue)
    ensures
        r@ == v@,
{
    match v {
        SPValue::Bool(b) => SPValue::Bool(*b),
        SPValue::Int64(i) => SPValue::Int64(*i),
        SPValue::Text(s) => SPValue::Text(
            match s {
                Some(t) => Some(t.clone()),
                None => None,
            },
        ),
        SPValue::Transforms(t) => SPValue::Transforms(
            match t {
                Some(v) => Some(transforms_clone(v)),
                None => None,
            },
        ),
    }
}

/// Copy a transform list.
fn transforms_clone(v: &Vec<SPTransformStamped>) -> (r: Vec<SPTransformStamped>)
    ensures
        r.deep_view() == v.deep_view(),
{
    let n = v.len();
    let mut out: Vec<SPTransformStamped> = Vec::new();
    let mut i: usize = 0;
    while i < n
        invariant
            i <= n,
            n == v@.len(),
            out@.len() == i,
            forall|k: int| 0 <= k < i ==> out.deep_view()[k] == v.deep_view()[k],
        decreases n - i,
    {
        let t = &v[i];
        let c = SPTransformStamped {
            active_transform: t.active_transform,
            enable_transform: t.enable_transform,
            time_stamp: t.time_stamp,
            parent_frame_id: t.parent_frame_id.clone(),
            child_frame_id: t.child_frame_id.clone(),
            transform: t.transform,
        };
        out.push(c);
        proof {
            assert(out.deep_view()[i as int] == v.deep_view()[i as int]);
        }
        i = i + 1;
    }
    proof {
        assert(out.deep_view() =~= v.deep_view());
    }
    out
}

/// A key occurs among the entries.
pub open spec fn has_key(es: Seq<(String, SPValue)>, k: Seq<char>) -> bool {
    exists|j: int| 0 <= j < es.len() && (#[trigger] es[j]).0@ == k
}

/// The index of a key among the entries.
pub open spec fn idx_of(es: Seq<(String, SPValue)>, k: Seq<char>) -> int {
    choose|j: int| 0 <= j < es.len() && (#[trigger] es[j]).0@ == k
}

/// The value stored under a key.
pub open spec fn val_of(es: Seq<(String, SPValue)>, k: Seq<char>) -> SPValueV {
    es[idx_of(es, k)].1@
}

/// A snapshot of the key subset owned by one resource.
#[derive(Debug)]
pub struct State {
    pub entries: Vec<(String, SPValue)>,
}

impl State {
    /// Keys are unique.
    pub open spec fn wf(self) -> bool {
        forall|p: int, q: int|
            0 <= p < q < self.entries@.len() ==> (#[trigger] self.entries@[p]).0@ != (
            #[trigger] self.entries@[q]).0@
    }

    /// An empty snapshot.
    pub fn new() -> (r: State)
        ensures
            r.wf(),
            r.entries@.len() == 0,
    {
        State { entries: Vec::new() }
    }
}

/// At a valid index, the key is present and carries that entry's value.
pub proof fn lemma_val_at(es: Seq<(String, SPValue)>, j: int)
    requires
        0 <= j < es.len(),
        forall|p: int, q: int|
            0 <= p < q < es.len() ==> (#[trigger] es[p]).0@ != (#[trigger] es[q]).0@,
    ensures
        has_key(es, es[j].0@),
        val_of(es, es[j].0@) == es[j].1@,
{
    assert(has_key(es, es[j].0@));
    let j2 = idx_of(es, es[j].0@);
    if j2 != j {
        if j2 < j {
            assert(es[j2].0@ != es[j].0@);
        } else {
            assert(es[j].0@ != es[j2].0@);
        }
        assert(false);
    }
}

impl State {
    /// Look a key up in the snapshot.
    pub fn get(&self, key: &String) -> (r: Option<&SPValue>)
        requires
            self.wf(),
        ensures
            r is Some <==> has_key(self.entries@, key@),
            r matches Some(v) ==> v@ == val_of(self.entries@, key@),
    {
        let n = self.entries.len();
        let mut j: usize = 0;
        while j < n
            invariant
                j <= n,
                n == self.entries@.len(),
                self.wf(),
                forall|m: int| 0 <= m < j ==> (#[trigger] self.entries@[m]).0@ != key@,
            decreases n - j,
        {
            if self.entries[j].0 == *key {
                proof {
                    lemma_val_at(self.entries@, j as int);
                }
                return Some(&self.entries[j].1);
            }
            j = j + 1;
        }
        None
    }
}

/// Any index holding the key gives the stored value.
pub proof fn lemma_val_any(es: Seq<(String, SPValue)>, j: int, k: Seq<char>)
    requires
        0 <= j < es.len(),
        es[j].0@ == k,
        forall|p: int, q: int|
            0 <= p < q < es.len() ==> (#[trigger] es[p]).0@ != (#[trigger] es[q]).0@,
    ensures
        has_key(es, k),
        val_of(es, k) == es[j].1@,
{
    assert(has_key(es, k));
    let j2 = idx_of(es, k);
    if j2 != j {
        if j2 < j {
            assert(es[j2].0@ != es[j].0@);
        } else {
            assert(es[j].0@ != es[j2].0@);
        }
        assert(false);
    }
}

/// The key's boolean, if the key holds a known boolean.
pub open spec fn spec_bool_opt(es: Seq<(String, SPValue)>, k: Seq<char>) -> Option<bool> {
    if has_key(es, k) {
        match val_of(es, k) {
            SPValueV::Bool(b) => b,
            _ => None,
        }
    } else {
        None
    }
}

/// The key's integer, if the key holds a known integer.
pub open spec fn spec_int_opt(es: Seq<(String, SPValue)>, k: Seq<char>) -> Option<i64> {
    if has_key(es, k) {
        match val_of(es, k) {
            SPValueV::Int64(i) => i,
            _ => None,
        }
    } else {
        None
    }
}

/// The key's string, if the key holds a known string.
pub open spec fn spec_text_opt(es: Seq<(String, SPValue)>, k: Seq<char>) -> Option<Seq<char>> {
    if has_key(es, k) {
        match val_of(es, k) {
            SPValueV::Text(s) => s,
            _ => None,
        }
    } else {
        None
    }
}

pub open spec fn spec_bool_or(es: Seq<(String, SPValue)>, k: Seq<char>, d: bool) -> bool {
    match spec_bool_opt(es, k) {
        Some(b) => b,
        None => d,
    }
}

pub open spec fn spec_int_or(es: Seq<(String, SPValue)>, k: Seq<char>, d: i64) -> i64 {
    match spec_int_opt(es, k) {
        Some(i) => i,
        None => d,
    }
}

pub open spec fn spec_text_or(es: Seq<(String, SPValue)>, k: Seq<char>, d: Seq<char>) -> Seq<
    char,
> {
    match spec_text_opt(es, k) {
        Some(s) => s,
        None => d,
    }
}

/// The key's value changed between the two snapshots (or appeared).
pub open spec fn changed(
    old_es: Seq<(String, SPValue)>,
    new_es: Seq<(String, SPValue)>,
    k: Seq<char>,
) -> bool {
    !has_key(old_es, k) || val_of(old_es, k) != val_of(new_es, k)
}

impl State {
    /// The boolean under the key, or unknown when absent or mistyped.
    pub fn get_bool_or_unknown(&self, key: &String) -> (r: Option<bool>)
        requires
            self.wf(),
        ensures
            r == spec_bool_opt(self.entries@, key@),
    {
        match self.get(key) {
            Some(SPValue::Bool(b)) => *b,
            _ => None,
        }
    }

    /// The boolean under the key, defaulting to false.
    pub fn get_bool_or_default_to_false(&self, key: &String) -> (r: bool)
        requires
            self.wf(),
        ensures
            r == spec_bool_or(self.entries@, key@, false),
    {
        match self.get_bool_or_unknown(key) {
            Some(b) => b,
            None => false,
        }
    }

    /// The integer under the key, or unknown when absent or mistyped.
    pub fn get_int_or_unknown(&self, key: &String) -> (r: Option<i64>)
        requires
            self.wf(),
        ensures
            r == spec_int_opt(self.entries@, key@),
    {
        match self.get(key) {
            Some(SPValue::Int64(i)) => *i,
            _ => None,
        }
    }

    /// The integer under the key, defaulting to zero.
    pub fn get_int_or_default_to_zero(&self, key: &String) -> (r: i64)
        requires
            self.wf(),
        ensures
            r == spec_int_or(self.entries@, key@, 0),
    {
        match self.get_int_or_unknown(key) {
            Some(i) => i,
            None => 0,
        }
    }

    /// The string under the key, or unknown when absent or mistyped.
    pub fn get_string_or_unknown(&self, key: &String) -> (r: Option<String>)
        requires
            self.wf(),
        ensures
            match r {
                Some(s) => spec_text_opt(self.entries@, key@) == Some(s@),
                None => spec_text_opt(self.entries@, key@) is None,
            },
    {
        match self.get(key) {
            Some(SPValue::Text(s)) => match s {
                Some(t) => Some(t.clone()),
                None => None,
            },
            _ => None,
        }
    }

    /// The string under the key, defaulting to the unknown marker.
    pub fn get_string_or_default_to_unknown(&self, key: &String) -> (r: String)
        requires
            self.wf(),
        ensures
            r@ == spec_text_or(self.entries@, key@, "UNKNOWN"@),
    {
        match self.get_string_or_unknown(key) {
            Some(s) => s,
            None => String::from_str("UNKNOWN"),
        }
    }

    /// A copy of the snapshot with the key bound to the value; other keys
    /// keep their values.
    pub fn update(&self, key: &String, val: &SPValue) -> (r: State)
        requires
            self.wf(),
        ensures
            r.wf(),
            forall|k: Seq<char>|
                #[trigger] has_key(r.entries@, k) <==> (has_key(self.entries@, k) || k == key@),
            val_of(r.entries@, key@) == val@,
            forall|k: Seq<char>|
                has_key(self.entries@, k) && k != key@ ==> val_of(r.entries@, k) == val_of(
                    self.entries@,
                    k,
                ),
    {
        let ghost es = self.entries@;
        let n = self.entries.len();
        let mut out: Vec<(String, SPValue)> = Vec::new();
        let mut found = false;
        let mut j: usize = 0;
        while j < n
            invariant
                j <= n,
                n == es.len(),
                es == self.entries@,
                self.wf(),
                out@.len() == j,
                forall|m: int| 0 <= m < j ==> (#[trigger] out@[m]).0@ == es[m].0@,
                forall|m: int|
                    0 <= m < j ==> (#[trigger] out@[m]).1@ == (if es[m].0@ == key@ {
                        val@
                    } else {
                        es[m].1@
                    }),
                found <==> exists|m: int| 0 <= m < j && (#[trigger] es[m]).0@ == key@,
            decreases n - j,
        {
            if self.entries[j].0 == *key {
                out.push((key.clone(), sp_value_clone(val)));
                found = true;
            } else {
                out.push((self.entries[j].0.clone(), sp_value_clone(&self.entries[j].1)));
            }
            j = j + 1;
        }
        if !found {
            out.push((key.clone(), sp_value_clone(val)));
        }
        let r = State { entries: out };
        proof {
            let os = r.entries@;
            if found {
                assert(os.len() == es.len());
                assert forall|p: int, q: int| 0 <= p < q < os.len() implies (
                #[trigger] os[p]).0@ != (#[trigger] os[q]).0@ by {
                    assert(es[p].0@ != es[q].0@);
                }
                assert forall|k: Seq<char>| #[trigger] has_key(os, k) implies (has_key(es, k) || k
                    == key@) by {
                    let j0 = idx_of(os, k);
                    assert(os[j0].0@ == k);
                    assert(es[j0].0@ == k);
                    assert(has_key(es, k));
                }
                assert forall|k: Seq<char>| has_key(es, k) implies #[trigger] has_key(os, k) by {
                    let j0 = idx_of(es, k);
                    assert(es[j0].0@ == k);
                    assert(os[j0].0@ == k);
                    assert(has_key(os, k));
                }
                let jk = choose|m: int| 0 <= m < es.len() && (#[trigger] es[m]).0@ == key@;
                assert(os[jk].1@ == val@);
                lemma_val_any(os, jk, key@);
                assert forall|k: Seq<char>|
                    has_key(es, k) && k != key@ implies val_of(os, k) == val_of(es, k) by {
                    let j0 = idx_of(es, k);
                    assert(es[j0].0@ == k);
                    lemma_val_any(es, j0, k);
                    assert(os[j0].1@ == es[j0].1@);
                    lemma_val_any(os, j0, k);
                }
            } else {
                assert(os.len() == es.len() + 1);
                assert(os[es.len() as int].0@ == key@);
                assert(os[es.len() as int].1@ == val@);
                assert forall|p: int, q: int| 0 <= p < q < os.len() implies (
                #[trigger] os[p]).0@ != (#[trigger] os[q]).0@ by {
                    if q < es.len() {
                        assert(es[p].0@ != es[q].0@);
                    } else {
                        // the appended key occurs nowhere among the old keys
                        assert(os[p].0@ == es[p].0@);
                    }
                }
                assert forall|k: Seq<char>| #[trigger] has_key(os, k) implies (has_key(es, k) || k
                    == key@) by {
                    let j0 = idx_of(os, k);
                    if j0 < es.len() {
                        assert(es[j0].0@ == k);
                        assert(has_key(es, k));
                    }
                }
                assert forall|k: Seq<char>| has_key(es, k) implies #[trigger] has_key(os, k) by {
                    let j0 = idx_of(es, k);
                    assert(os[j0].0@ == k);
                    assert(has_key(os, k));
                }
                assert(has_key(os, key@));
                lemma_val_any(os, es.len() as int, key@);
                assert forall|k: Seq<char>|
                    has_key(es, k) && k != key@ implies val_of(os, k) == val_of(es, k) by {
                    let j0 = idx_of(es, k);
                    assert(es[j0].0@ == k);
                    lemma_val_any(es, j0, k);
                    assert(os[j0].1@ == es[j0].1@);
                    lemma_val_any(os, j0, k);
                }
            }
        }
        r
    }

    /// The entries of `new_state` whose value differs from this snapshot:
    /// the delta holds exactly the keys whose value actually changed, each
    /// with its new value, and no other key.
    pub fn get_diff_partial_state(&self, new_state: &State) -> (r: State)
        requires
            self.wf(),
            new_state.wf(),
        ensures
            r.wf(),
            forall|k: Seq<char>|
                #[trigger] has_key(r.entries@, k) <==> (has_key(new_state.entries@, k) && changed(
                    self.entries@,
                    new_state.entries@,
                    k,
                )),
            forall|k: Seq<char>|
                has_key(r.entries@, k) ==> val_of(r.entries@, k) == val_of(new_state.entries@, k),
    {
        let ghost olds = self.entries@;
        let ghost news = new_state.entries@;
        let n = new_state.entries.len();
        let mut out: Vec<(String, SPValue)> = Vec::new();
        let mut i: usize = 0;
        while i < n
            invariant
                i <= n,
                n == news.len(),
                olds == self.entries@,
                news == new_state.entries@,
                self.wf(),
                new_state.wf(),
                forall|p: int, q: int|
                    0 <= p < q < out@.len() ==> (#[trigger] out@[p]).0@ != (#[trigger] out@[q]).0@,
                forall|k: Seq<char>|
                    #[trigger] has_key(out@, k) <==> ((exists|j: int|
                        0 <= j < i && (#[trigger] news[j]).0@ == k) && changed(olds, news, k)),
                forall|k: Seq<char>| has_key(out@, k) ==> val_of(out@, k) == val_of(news, k),
            decreases n - i,
        {
            let e = &new_state.entries[i];
            proof {
                lemma_val_any(news, i as int, news[i as int].0@);
            }
            let keep = match self.get(&e.0) {
                Some(old_v) => !sp_value_eq(old_v, &e.1),
                None => true,
            };
            if keep {
                proof {
                    if has_key(out@, e.0@) {
                        let j0 = choose|j: int|
                            0 <= j < i && (#[trigger] news[j]).0@ == e.0@;
                        assert(news[j0].0@ != news[i as int].0@);
                        assert(false);
                    }
                }
                let ghost before = out@;
                out.push((e.0.clone(), sp_value_clone(&e.1)));
                proof {
                    let os = out@;
                    assert forall|p: int, q: int| 0 <= p < q < os.len() implies (
                    #[trigger] os[p]).0@ != (#[trigger] os[q]).0@ by {
                        if q < before.len() {
                            assert(before[p].0@ != before[q].0@);
                        } else {
                            assert(os[p].0@ == before[p].0@);
                            if os[p].0@ == e.0@ {
                                assert(has_key(before, e.0@));
                            }
                        }
                    }
                    assert forall|k: Seq<char>| #[trigger] has_key(os, k) implies ((exists|j: int|
                        0 <= j < i + 1 && (#[trigger] news[j]).0@ == k) && changed(olds, news, k))
                        by {
                        let j0 = idx_of(os, k);
                        if j0 < before.len() {
                            assert(before[j0].0@ == k);
                            assert(has_key(before, k));
                        } else {
                            assert(k == e.0@);
                            assert(news[i as int].0@ == k);
                        }
                    }
                    assert forall|k: Seq<char>|
                        ((exists|j: int| 0 <= j < i + 1 && (#[trigger] news[j]).0@ == k)
                            && changed(olds, news, k)) implies #[trigger] has_key(os, k) by {
                        let j0 = choose|j: int| 0 <= j < i + 1 && (#[trigger] news[j]).0@ == k;
                        if j0 < i {
                            assert(has_key(before, k));
                            let j1 = idx_of(before, k);
                            assert(os[j1].0@ == k);
                            assert(has_key(os, k));
                        } else {
                            assert(os[before.len() as int].0@ == k);
                            assert(has_key(os, k));
                        }
                    }
                    assert forall|k: Seq<char>|
                        has_key(os, k) implies val_of(os, k) == val_of(news, k) by {
                        let j0 = idx_of(os, k);
                        assert(os[j0].0@ == k);
                        if j0 < before.len() {
                            lemma_val_any(before, j0, k);
                            lemma_val_any(os, j0, k);
                        } else {
                            lemma_val_any(os, j0, k);
                            assert(os[j0].1@ == news[i as int].1@);
                            lemma_val_any(news, i as int, k);
                        }
                    }
                }
            } else {
                proof {
                    assert forall|k: Seq<char>| #[trigger] has_key(out@, k) implies ((exists|
                        j: int,
                    | 0 <= j < i + 1 && (#[trigger] news[j]).0@ == k) && changed(olds, news, k))
                        by {}
                    assert forall|k: Seq<char>|
                        ((exists|j: int| 0 <= j < i + 1 && (#[trigger] news[j]).0@ == k)
                            && changed(olds, news, k)) implies #[trigger] has_key(out@, k) by {
                        let j0 = choose|j: int| 0 <= j < i + 1 && (#[trigger] news[j]).0@ == k;
                        if j0 == i {
                            assert(val_of(news, k) == news[i as int].1@);
                            assert(!changed(olds, news, k));
                        }
                    }
                }
            }
            i = i + 1;
        }
        proof {
            assert forall|k: Seq<char>|
                ((exists|j: int| 0 <= j < n && (#[trigger] news[j]).0@ == k) <==> has_key(
                    news,
                    k,
                )) by {}
        }
        State { entries: out }
    }
}

} // verus!
