//! Logging settings: which values of `TVSCREENER_DEBUG` turn debug logging
//! on, and the filter directive installed when `RUST_LOG` gives none.
use vstd::prelude::*;
use crate::text::{lower_seq, str_eq, to_lower, trim, trim_seq};

verus! {

/// Whether a `TVSCREENER_DEBUG` value is truthy: trimmed and ASCII
/// lower-cased, one of `1`, `true`, `yes`, `on`.
pub open spec fn truthy_spec(v: Seq<char>) -> bool {
    let t = lower_seq(trim_seq(v));
    t == "1"@ || t == "true"@ || t == "yes"@ || t == "on"@
}

/// Whether a `TVSCREENER_DEBUG` value turns debug logging on.
pub fn debug_value_enabled(value: &str) -> (r: bool)
    ensures
        r == truthy_spec(value@),
{
    let t = trim(value);
    let l = to_lower(t.as_str());
    str_eq(l.as_str(), "1") || str_eq(l.as_str(), "true") || str_eq(l.as_str(), "yes") || str_eq(
        l.as_str(),
        "on",
    )
}

/// The log filter directive used when `RUST_LOG` sets none:
/// `tvscreener=debug,info` in debug mode, else `info`.
pub fn default_log_directive(debug: bool) -> (r: &'static str)
    ensures
        r@ == if debug {
            "tvscreener=debug,info"@
        } else {
            "info"@
        },
{
    if debug {
        "tvscreener=debug,info"
    } else {
        "info"
    }
}

} // verus!
