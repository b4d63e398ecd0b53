//! Configuration precedence: file over environment over autodetection.

use vstd::prelude::*;
use vstd::string::StringExecFns;
use crate::text::{chars_of, string_of, trim, trim_spec};

verus! {

/// The trimmed value, or `None` when absent or blank.
pub open spec fn spec_non_empty_opt(v: Option<Seq<char>>) -> Option<Seq<char>> {
    match v {
        None => None,
        Some(s) => if trim_spec(s).len() == 0 {
            None
        } else {
            Some(trim_spec(s))
        },
    }
}

/// Trims an optional setting; a blank value counts as absent.
pub fn non_empty_opt(value: Option<&str>) -> (r: Option<String>)
    ensures
        match r {
            Some(s) => value is Some && trim_spec(value->0@).len() > 0 && s@ == trim_spec(
                value->0@,
            ),
            None => value is None || trim_spec(value->0@).len() == 0,
        },
{
    match value {
        None => None,
        Some(raw) => {
            let cs = chars_of(raw);
            let t = trim(&cs);
            if t.len() == 0 {
                None
            } else {
                Some(string_of(&t))
            }
        },
    }
}

/// The value configuration resolution selects: the first non-blank of the
/// config-file value, the environment value and the autodetected value, in
/// that order of precedence.
pub open spec fn spec_first_from_precedence(
    file_value: Option<Seq<char>>,
    env_value: Option<Seq<char>>,
    autodetect_value: Option<Seq<char>>,
) -> Option<Seq<char>> {
    if spec_non_empty_opt(file_value) is Some {
        spec_non_empty_opt(file_value)
    } else if spec_non_empty_opt(env_value) is Some {
        spec_non_empty_opt(env_value)
    } else {
        spec_non_empty_opt(autodetect_value)
    }
}

/// The view of an optional string slice.
pub open spec fn opt_str_view(v: Option<&str>) -> Option<Seq<char>> {
    match v {
        None => None,
        Some(s) => Some(s@),
    }
}

/// Picks the effective configuration value: file first, then environment,
/// then autodetection; blank values are skipped.
pub fn first_from_precedence(
    file_value: Option<&str>,
    env_value: Option<&str>,
    autodetect_value: Option<&str>,
) -> (r: Option<String>)
    ensures
        match r {
            Some(s) => spec_first_from_precedence(
                opt_str_view(file_value),
                opt_str_view(env_value),
                opt_str_view(autodetect_value),
            ) matches Some(t) && s@ == t,
            None => spec_first_from_precedence(
                opt_str_view(file_value),
                opt_str_view(env_value),
                opt_str_view(autodetect_value),
            ) is None,
        },
{
    let first = non_empty_opt(file_value);
    if first.is_some() {
        return first;
    }
    let second = non_empty_opt(env_value);
    if second.is_some() {
        return second;
    }
    non_empty_opt(autodetect_value)
}

} // verus!
