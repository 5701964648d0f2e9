//! Trace ids and durations found in a log message.
//!
//! A duration is a decimal number with a unit; turning it into milliseconds is
//! floating-point work that the application does with the two texts found here.
use vstd::prelude::*;
use crate::foreign::{regex_captures, regex_captures_of, opt_view};

verus! {

/// A trace, request or correlation id: the key, a separator and 16 to 36 hex digits
/// or dashes (the id is group 1).
pub const TRACE_ID_PATTERN: &'static str = r"(?i)(?:trace|request|correlation)[-_]?(?:id)?[^a-zA-Z0-9_-]+([a-f0-9-]{16,36})";

/// A duration, cost or time: the key, a separator, a decimal number (group 1) and
/// its unit (group 2).
pub const DURATION_PATTERN: &'static str = r"(?i)(?:duration|taken|cost|time)[^a-zA-Z0-9]+(\d+(?:\.\d+)?)\s*(ms|s|us|μs|ns)";

/// Group `k` of the first match of `pattern` in `text`, if the pattern matches and
/// the group took part.
pub open spec fn captured_group(pattern: Seq<char>, text: Seq<char>, k: int) -> Option<Seq<char>> {
    match regex_captures_of(pattern, text) {
        Some(g) => if 0 <= k < g.len() { g[k] } else { None },
        None => None,
    }
}

/// The trace id of a message: group 1 of the first match of `TRACE_ID_PATTERN`.
pub open spec fn trace_id_spec(content: Seq<char>) -> Option<Seq<char>> {
    captured_group(TRACE_ID_PATTERN@, content, 1)
}

/// The number and the unit of the first duration in a message, as written.
pub open spec fn duration_spec(content: Seq<char>) -> Option<(Seq<char>, Seq<char>)> {
    match (captured_group(DURATION_PATTERN@, content, 1), captured_group(DURATION_PATTERN@, content, 2)) {
        (Some(v), Some(u)) => Some((v, u)),
        _ => None,
    }
}

fn group_of(caps: &Vec<Option<String>>, k: usize) -> (r: Option<String>)
    ensures
        opt_view(r) == (if k < caps@.len() { opt_view(caps@[k as int]) } else { None }),
{
    if k < caps.len() {
        match &caps[k] {
            Some(s) => Some(s.clone()),
            None => None,
        }
    } else {
        None
    }
}

/// The trace id that the message carries, if any.
pub fn extract_trace_id(content: &str) -> (r: Option<String>)
    ensures
        opt_view(r) == trace_id_spec(content@),
{
    match regex_captures(TRACE_ID_PATTERN, content) {
        Some(caps) => {
            let r = group_of(&caps, 1);
            proof {
                let g = caps@.map_values(|o: Option<String>| opt_view(o));
                if 1 < caps@.len() {
                    assert(g[1] == opt_view(caps@[1]));
                }
            }
            r
        },
        None => None,
    }
}

/// The number and the unit of the first duration that the message states, both as
/// written (the unit in the case of the message).
pub fn extract_duration(content: &str) -> (r: Option<(String, String)>)
    ensures
        match r {
            Some((v, u)) => duration_spec(content@) == Some((v@, u@)),
            None => duration_spec(content@) is None,
        },
{
    match regex_captures(DURATION_PATTERN, content) {
        Some(caps) => {
            let v = group_of(&caps, 1);
            let u = group_of(&caps, 2);
            proof {
                let g = caps@.map_values(|o: Option<String>| opt_view(o));
                if 1 < caps@.len() {
                    assert(g[1] == opt_view(caps@[1]));
                }
                if 2 < caps@.len() {
                    assert(g[2] == opt_view(caps@[2]));
                }
            }
            match (v, u) {
                (Some(v), Some(u)) => Some((v, u)),
                _ => None,
            }
        },
        None => None,
    }
}

} // verus!
