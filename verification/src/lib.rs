//! Verified core of the replayable L4 LLM-API proxy.

use vstd::prelude::*;

pub mod config;
pub mod forward;
pub mod headers;
pub mod json;
pub mod text;
pub mod trace;

verus! {

/// Package version reported by the proxy.
pub const PROXY_VERSION: &'static str = "0.1.0";

/// Returns the running proxy version string.
pub fn version() -> (v: &'static str)
    ensures
        v@ == PROXY_VERSION@,
        v@.len() > 0,
{
    proof {
        reveal_strlit("0.1.0");
    }
    PROXY_VERSION
}

} // verus!
