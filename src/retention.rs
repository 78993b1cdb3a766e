//! The retention rule: pastes unchanged for thirty days are reclaimed.

use vstd::prelude::*;

verus! {

/// Seconds in a day.
pub const DAY_SECS: u64 = 86400;

/// Age, in seconds since the last change, beyond which a paste is reclaimed.
pub const RETENTION_SECS: u64 = 30 * DAY_SECS;

/// Seconds between two sweeps.
pub const SWEEP_INTERVAL_SECS: u64 = DAY_SECS;

/// Whether a paste last changed at `modified` is past retention at `now`
/// (both in seconds); a change stamped after `now` is never past it.
pub open spec fn expired(now: u64, modified: u64) -> bool {
    now > modified && now - modified > RETENTION_SECS
}

/// Returns whether a paste last changed at `modified` is past retention at
/// `now`.
pub fn is_expired(now: u64, modified: u64) -> (r: bool)
    ensures
        r == expired(now, modified),
{
    now > modified && now - modified > RETENTION_SECS
}

} // verus!
