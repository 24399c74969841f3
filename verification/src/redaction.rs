//! Scrubbing secrets out of operator text before it is stored. The scrubber is handed in by the
//! caller; what it makes of a text is opaque here.
use vstd::prelude::*;
use crate::text::{self, Text};

verus! {

/// Whether the scrubber may make `safe` of `raw`.
pub open spec fn redacts<R: Fn(&str) -> String>(redact: R, raw: Text, safe: Text) -> bool {
    exists|s: &str, o: String| s@ == raw && o@ == safe && #[trigger] call_ensures(redact, (s,), o)
}

/// The same of a text that may be missing.
pub open spec fn redacts_opt<R: Fn(&str) -> String>(redact: R, raw: Option<Text>, safe: Option<Text>) -> bool {
    match (raw, safe) {
        (Some(r), Some(s)) => redacts(redact, r, s),
        (None, None) => true,
        _ => false,
    }
}

/// Whether the scrubber takes every text.
pub open spec fn total<R: Fn(&str) -> String>(redact: R) -> bool {
    forall|s: &str| call_requires(redact, (s,))
}

pub fn scrub<R: Fn(&str) -> String>(redact: &R, raw: &str) -> (r: String)
    requires
        total(*redact),
    ensures
        redacts(*redact, raw@, r@),
{
    redact(raw)
}

pub fn scrub_opt<R: Fn(&str) -> String>(redact: &R, raw: Option<&str>) -> (r: Option<String>)
    requires
        total(*redact),
    ensures
        redacts_opt(*redact, text::opt_slice(raw), text::opt_text(r)),
{
    match raw {
        Some(s) => Some(scrub(redact, s)),
        None => None,
    }
}

} // verus!
