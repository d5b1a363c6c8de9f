//! Interpreting the text that the service manager's status queries print:
//! enablement and activity states and `Key=Value` property lines. The
//! commands themselves run outside the library; only their output is
//! interpreted here.

use vstd::prelude::*;

verus! {

use crate::strutil::{spec_trim, trim, string_eq_str};
use crate::schedule::{spec_split, split_char};

/// The status of one scheduler timer unit.
#[derive(Debug, Clone)]
pub struct TimerStatus {
    pub name: String,
    pub enabled: bool,
    pub active: bool,
    pub next_run: Option<String>,
    pub last_run: Option<String>,
    pub last_result: Option<String>,
}

/// The mount state of one path.
#[derive(Debug, Clone)]
pub struct MountStatus {
    pub mounted: bool,
    pub path: String,
    pub device: Option<String>,
    pub fs_type: Option<String>,
}

/// Whether an `is-enabled` query's output means the unit is enabled: the
/// trimmed output is exactly `enabled`.
pub fn parse_is_enabled(output: &str) -> (r: bool)
    ensures
        r == (spec_trim(output@) == "enabled"@),
{
    let t = trim(output);
    string_eq_str(&t, "enabled")
}

/// Whether an `is-active` query's output means the unit is active: the
/// trimmed output is exactly `active`.
pub fn parse_is_active(output: &str) -> (r: bool)
    ensures
        r == (spec_trim(output@) == "active"@),
{
    let t = trim(output);
    string_eq_str(&t, "active")
}

/// The value of a `Key=Value` property line, or nothing when the line has
/// no `=`.
pub open spec fn spec_show_value(s: Seq<char>) -> Option<Seq<char>> {
    let parts = spec_split(spec_trim(s), '=');
    if parts.len() < 2 {
        None
    } else {
        Some(spec_trim(parts[1]))
    }
}

/// A property value, with empty and `n/a` values treated as absent.
pub open spec fn spec_show_property(s: Seq<char>) -> Option<Seq<char>> {
    match spec_show_value(s) {
        Some(v) => if v.len() == 0 || v == "n/a"@ {
            None
        } else {
            Some(v)
        },
        None => None,
    }
}

/// Read the value out of a `Key=Value` property line.
pub fn parse_show_value(output: &str) -> (r: Option<String>)
    ensures
        match r {
            Some(v) => spec_show_value(output@) matches Some(sv) && v@ == sv,
            None => spec_show_value(output@) is None,
        },
{
    let line = trim(output);
    let parts = split_char(line.as_str(), '=');
    if parts.len() < 2 {
        proof {
            assert(parts@.map_values(|x: String| x@).len() == parts@.len());
        }
        return None;
    }
    proof {
        assert(parts@.map_values(|x: String| x@)[1] == parts@[1]@);
    }
    Some(trim(parts[1].as_str()))
}

/// Read a property value, treating empty and `n/a` values as absent.
pub fn parse_show_property(output: &str) -> (r: Option<String>)
    ensures
        match r {
            Some(v) => spec_show_property(output@) matches Some(sv) && v@ == sv,
            None => spec_show_property(output@) is None,
        },
{
    match parse_show_value(output) {
        Some(v) => {
            if v.as_str().unicode_len() == 0 || string_eq_str(&v, "n/a") {
                None
            } else {
                Some(v)
            }
        },
        None => None,
    }
}

} // verus!
