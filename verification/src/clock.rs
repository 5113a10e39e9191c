//! Wall-clock access. Everything time-dependent in the library takes the
//! current time as an argument; this is the one place that reads it.

use vstd::prelude::*;

verus! {

/// Seconds since the Unix epoch, read from `SystemTime::now()`
/// (0 if the clock is before the epoch). Nothing is promised of the value:
/// it depends on the machine's clock.
#[verifier::external_body]
pub(crate) fn now_secs() -> u64 {
    std::time::SystemTime::now().duration_since(std::time::UNIX_EPOCH).unwrap_or_default().as_secs()
}

} // verus!
