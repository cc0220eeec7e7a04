//! The wall clock.

use vstd::prelude::*;

verus! {

/// Calls `time::get_time` and returns the seconds since the epoch that it
/// reports. Trusted, and nothing is claimed of the value: the clock may
/// show any second, and may run backwards.
#[verifier::external_body]
pub(crate) fn now_seconds() -> (seconds: i64) {
    time::get_time().sec
}

} // verus!
