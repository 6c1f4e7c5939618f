//! The wall clock.

use vstd::prelude::*;

verus! {

/// Calls `time::now` and takes the seconds of its `to_timespec`: the current
/// time in whole seconds since the Unix epoch. The value depends on the clock,
/// so nothing is stated of it.
#[verifier::external_body]
pub(crate) fn now_seconds() -> i64 {
    time::now().to_timespec().sec
}

} // verus!
