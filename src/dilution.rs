//! Time window of the dilution (share-price growth) model.

use vstd::prelude::*;

verus! {

/// Window assumed when the last update time is unknown or not in the past: seven days.
pub const DILUTION_FALLBACK_SECS: u64 = 604800;

/// Shortest window over which growth is annualised: one hour.
pub const DILUTION_MIN_SECS: u64 = 3600;

/// Longest window over which growth is annualised: thirty days.
pub const DILUTION_MAX_SECS: u64 = 2592000;

/// The window, in seconds, between the vault's last update and the snapshot.
pub open spec fn dilution_time_delta(last_update: u64, snapshot_timestamp: u64) -> u64 {
    if snapshot_timestamp == 0 || last_update == 0 || last_update >= snapshot_timestamp {
        DILUTION_FALLBACK_SECS
    } else {
        let d = (snapshot_timestamp - last_update) as u64;
        if d < DILUTION_MIN_SECS {
            DILUTION_MIN_SECS
        } else if d > DILUTION_MAX_SECS {
            DILUTION_MAX_SECS
        } else {
            d
        }
    }
}

/// Seconds over which the growth of a meta-vault is annualised: the elapsed
/// time since its last update, clamped to one hour .. thirty days, or seven
/// days when that time is unknown.
pub fn calc_dilution_time_delta(last_update: u64, snapshot_timestamp: u64) -> (r: u64)
    ensures
        r == dilution_time_delta(last_update, snapshot_timestamp),
        r == DILUTION_FALLBACK_SECS || (DILUTION_MIN_SECS <= r && r <= DILUTION_MAX_SECS),
{
    if snapshot_timestamp == 0 {
        return DILUTION_FALLBACK_SECS;
    }
    if last_update == 0 || last_update >= snapshot_timestamp {
        return DILUTION_FALLBACK_SECS;
    }
    let mut time_delta: u64 = snapshot_timestamp - last_update;
    if time_delta < DILUTION_MIN_SECS {
        time_delta = DILUTION_MIN_SECS;
    }
    if time_delta > DILUTION_MAX_SECS {
        time_delta = DILUTION_MAX_SECS;
    }
    time_delta
}

} // verus!
