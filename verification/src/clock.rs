//! The wall clock.

use vstd::prelude::*;

verus! {

/// Reads the wall clock through `chrono::Utc::now` and takes its
/// `timestamp`: whole seconds since the Unix epoch. Nothing is claimed about
/// the result, which differs from call to call. `Utc::now` does not return
/// when the system clock is set before the epoch.
#[verifier::external_body]
pub(crate) fn utc_timestamp() -> i64 {
    chrono::Utc::now().timestamp()
}

/// The seconds of a timestamp as an unsigned count; a time before the epoch
/// counts as the epoch itself.
pub open spec fn seconds_of(stamp: i64) -> u64 {
    if stamp < 0 {
        0
    } else {
        stamp as u64
    }
}

/// Converts a timestamp to an unsigned count of seconds.
pub fn unsigned_seconds(stamp: i64) -> (secs: u64)
    ensures
        secs == seconds_of(stamp),
{
    if stamp < 0 {
        0
    } else {
        stamp as u64
    }
}

} // verus!
