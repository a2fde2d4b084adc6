//! The time of day.

use vstd::prelude::*;

verus! {

/// Calls `chrono::Utc::now` and takes its `timestamp`: the seconds since the
/// epoch by the clock of the machine. Nothing is assumed of the value.
#[verifier::external_body]
pub(crate) fn unix_now() -> (now: i64)
{
    chrono::Utc::now().timestamp()
}

} // verus!
