//! The configuration-document model.
//!
//! A configuration document is a flat list of typed leaves, each addressed
//! by a section, a leaf name and an attribute (most leaves only carry a
//! "value" attribute; the resolution leaf also carries "min"). Every read
//! has a documented default: a missing or type-mismatched leaf degrades to
//! its default instead of failing the compilation.

use vstd::prelude::*;

use crate::fixed::Fix;

verus! {

/// A typed configuration leaf value.
#[derive(Debug)]
pub enum ConfigValue {
    Bool(bool),
    Int(i64),
    Dec(Fix),
    Text(String),
    Res(i64, i64),
}

/// The mathematical value of a configuration leaf.
pub enum ConfigValueV {
    Bool(bool),
    Int(i64),
    Dec(Fix),
    Text(Seq<char>),
    Res(i64, i64),
}

impl View for ConfigValue {
    type V = ConfigValueV;

    open spec fn view(&self) -> ConfigValueV {
        match self {
            ConfigValue::Bool(b) => ConfigValueV::Bool(*b),
            ConfigValue::Int(i) => ConfigValueV::Int(*i),
            ConfigValue::Dec(d) => ConfigValueV::Dec(*d),
            ConfigValue::Text(s) => ConfigValueV::Text(s@),
            ConfigValue::Res(w, h) => ConfigValueV::Res(*w, *h),
        }
    }
}

/// One leaf of a configuration document.
#[derive(Debug)]
pub struct ConfigEntry {
    pub section: String,
    pub name: String,
    pub attr: String,
    pub value: ConfigValue,
}

/// A configuration document: the leaves of one file.
#[derive(Debug)]
pub struct ConfigDoc {
    pub entries: Vec<ConfigEntry>,
}

impl ConfigDoc {
    /// A document with no leaves: every read gives its default.
    pub fn new() -> (r: ConfigDoc)
        ensures
            r.entries@.len() == 0,
    {
        ConfigDoc { entries: Vec::new() }
    }
}

/// The first leaf under (section, name, attr), if any.
pub open spec fn spec_cfg(
    es: Seq<ConfigEntry>,
    s: Seq<char>,
    n: Seq<char>,
    a: Seq<char>,
) -> Option<ConfigValueV>
    decreases es.len(),
{
    if es.len() == 0 {
        None
    } else if es.first().section@ == s && es.first().name@ == n && es.first().attr@ == a {
        Some(es.first().value@)
    } else {
        spec_cfg(es.drop_first(), s, n, a)
    }
}

/// The boolean under (section, name, "value"), or the default.
pub open spec fn spec_cfg_bool(es: Seq<ConfigEntry>, s: Seq<char>, n: Seq<char>, d: bool) -> bool {
    match spec_cfg(es, s, n, "value"@) {
        Some(ConfigValueV::Bool(b)) => b,
        _ => d,
    }
}

/// The nonnegative integer under (section, name, "value"), or the default.
pub open spec fn spec_cfg_u64(es: Seq<ConfigEntry>, s: Seq<char>, n: Seq<char>, d: u64) -> u64 {
    match spec_cfg(es, s, n, "value"@) {
        Some(ConfigValueV::Int(i)) => if i >= 0 {
            i as u64
        } else {
            d
        },
        _ => d,
    }
}

/// The integer under (section, name, "value"), or the default.
pub open spec fn spec_cfg_i64(es: Seq<ConfigEntry>, s: Seq<char>, n: Seq<char>, d: i64) -> i64 {
    match spec_cfg(es, s, n, "value"@) {
        Some(ConfigValueV::Int(i)) => i,
        _ => d,
    }
}

/// The decimal under (section, name, "value"), or the default. An integer
/// leaf small enough to convert exactly also serves.
pub open spec fn spec_cfg_dec(es: Seq<ConfigEntry>, s: Seq<char>, n: Seq<char>, d: Fix) -> Fix {
    match spec_cfg(es, s, n, "value"@) {
        Some(ConfigValueV::Dec(f)) => f,
        Some(ConfigValueV::Int(i)) => if -9223372 <= i && i <= 9223372 {
            Fix::spec_new(i * crate::fixed::SCALE)
        } else {
            d
        },
        _ => d,
    }
}

/// The string under (section, name, "value"), or the default.
pub open spec fn spec_cfg_text(
    es: Seq<ConfigEntry>,
    s: Seq<char>,
    n: Seq<char>,
    d: Seq<char>,
) -> Seq<char> {
    match spec_cfg(es, s, n, "value"@) {
        Some(ConfigValueV::Text(t)) => t,
        _ => d,
    }
}

/// The resolution pair under (section, name, attr), if present.
pub open spec fn spec_cfg_res(
    es: Seq<ConfigEntry>,
    s: Seq<char>,
    n: Seq<char>,
    a: Seq<char>,
) -> Option<(i64, i64)> {
    match spec_cfg(es, s, n, a) {
        Some(ConfigValueV::Res(w, h)) => Some((w, h)),
        _ => None,
    }
}

/// The string under a root leaf (empty section and attribute), or the
/// default.
pub open spec fn spec_root_text(es: Seq<ConfigEntry>, n: Seq<char>, d: Seq<char>) -> Seq<char> {
    match spec_cfg(es, Seq::empty(), n, Seq::empty()) {
        Some(ConfigValueV::Text(t)) => t,
        _ => d,
    }
}

impl ConfigDoc {
    /// Find the first leaf under (section, name, attr).
    pub fn lookup(&self, section: &str, name: &str, attr: &str) -> (r: Option<&ConfigValue>)
        ensures
            match r {
                Some(v) => spec_cfg(self.entries@, section@, name@, attr@) == Some(v@),
                None => spec_cfg(self.entries@, section@, name@, attr@) is None,
            },
    {
        let s = section.to_owned();
        let n = name.to_owned();
        let a = attr.to_owned();
        let len = self.entries.len();
        let mut j: usize = 0;
        proof {
            assert(self.entries@.skip(0) =~= self.entries@);
        }
        while j < len
            invariant
                j <= len,
                len == self.entries@.len(),
                s@ == section@,
                n@ == name@,
                a@ == attr@,
                spec_cfg(self.entries@, section@, name@, attr@) == spec_cfg(
                    self.entries@.skip(j as int),
                    section@,
                    name@,
                    attr@,
                ),
            decreases len - j,
        {
            let e = &self.entries[j];
            proof {
                assert(self.entries@.skip(j as int).first() == self.entries@[j as int]);
                assert(self.entries@.skip(j as int).drop_first() =~= self.entries@.skip(
                    j as int + 1,
                ));
            }
            if e.section == s && e.name == n && e.attr == a {
                return Some(&e.value);
            }
            j = j + 1;
        }
        None
    }

    /// The boolean under (section, name, "value"), or the default.
    pub fn get_bool_or(&self, section: &str, name: &str, d: bool) -> (r: bool)
        ensures
            r == spec_cfg_bool(self.entries@, section@, name@, d),
    {
        match self.lookup(section, name, "value") {
            Some(ConfigValue::Bool(b)) => *b,
            _ => d,
        }
    }

    /// The nonnegative integer under (section, name, "value"), or the
    /// default.
    pub fn get_u64_or(&self, section: &str, name: &str, d: u64) -> (r: u64)
        ensures
            r == spec_cfg_u64(self.entries@, section@, name@, d),
    {
        match self.lookup(section, name, "value") {
            Some(ConfigValue::Int(i)) => if *i >= 0 {
                *i as u64
            } else {
                d
            },
            _ => d,
        }
    }

    /// The integer under (section, name, "value"), or the default.
    pub fn get_i64_or(&self, section: &str, name: &str, d: i64) -> (r: i64)
        ensures
            r == spec_cfg_i64(self.entries@, section@, name@, d),
    {
        match self.lookup(section, name, "value") {
            Some(ConfigValue::Int(i)) => *i,
            _ => d,
        }
    }

    /// The decimal under (section, name, "value"), or the default.
    pub fn get_dec_or(&self, section: &str, name: &str, d: Fix) -> (r: Fix)
        ensures
            r == spec_cfg_dec(self.entries@, section@, name@, d),
    {
        match self.lookup(section, name, "value") {
            Some(ConfigValue::Dec(f)) => *f,
            Some(ConfigValue::Int(i)) => if -9223372 <= *i && *i <= 9223372 {
                Fix { units: *i * crate::fixed::SCALE }
            } else {
                d
            },
            _ => d,
        }
    }

    /// The string under (section, name, "value"), or the default.
    pub fn get_text_or(&self, section: &str, name: &str, d: &str) -> (r: String)
        ensures
            r@ == spec_cfg_text(self.entries@, section@, name@, d@),
    {
        match self.lookup(section, name, "value") {
            Some(ConfigValue::Text(t)) => t.clone(),
            _ => d.to_owned(),
        }
    }

    /// The resolution pair under (section, name, attr), if present.
    pub fn get_res(&self, section: &str, name: &str, attr: &str) -> (r: Option<(i64, i64)>)
        ensures
            r == spec_cfg_res(self.entries@, section@, name@, attr@),
    {
        match self.lookup(section, name, attr) {
            Some(ConfigValue::Res(w, h)) => Some((*w, *h)),
            _ => None,
        }
    }

    /// The string under a root leaf, or the default.
    pub fn get_root_text_or(&self, name: &str, d: &str) -> (r: String)
        ensures
            r@ == spec_root_text(self.entries@, name@, d@),
    {
        let len = self.entries.len();
        let n = name.to_owned();
        let mut j: usize = 0;
        proof {
            assert(self.entries@.skip(0) =~= self.entries@);
        }
        while j < len
            invariant
                j <= len,
                len == self.entries@.len(),
                n@ == name@,
                spec_cfg(self.entries@, Seq::empty(), name@, Seq::empty()) == spec_cfg(
                    self.entries@.skip(j as int),
                    Seq::empty(),
                    name@,
                    Seq::empty(),
                ),
            decreases len - j,
        {
            let e = &self.entries[j];
            proof {
                assert(self.entries@.skip(j as int).first() == self.entries@[j as int]);
                assert(self.entries@.skip(j as int).drop_first() =~= self.entries@.skip(
                    j as int + 1,
                ));
            }
            if e.section.as_str().is_empty() && e.attr.as_str().is_empty() && e.name == n {
                proof {
                    assert(e.section@ =~= Seq::<char>::empty());
                    assert(e.attr@ =~= Seq::<char>::empty());
                }
                match &e.value {
                    ConfigValue::Text(t) => {
                        return t.clone();
                    },
                    _ => {
                        return d.to_owned();
                    },
                }
            }
            j = j + 1;
        }
        d.to_owned()
    }
}

} // verus!
