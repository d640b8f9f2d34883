//! Time windows of the telemetry history.

use vstd::prelude::*;

verus! {

/// The first timestamp of a history window of `seconds` ending `now`.
pub fn history_start(now: i64, seconds: i64) -> (t: i64)
    requires
        i64::MIN <= now - seconds <= i64::MAX,
    ensures
        t == now - seconds,
{
    now - seconds
}

/// Seconds in a day.
pub open spec fn day_seconds() -> int {
    86400
}

/// The timestamp before which history is pruned, keeping `retention_days`
/// days before `now`.
pub fn prune_cutoff(now: i64, retention_days: u32) -> (t: i64)
    requires
        now - retention_days * day_seconds() >= i64::MIN,
    ensures
        t == now - retention_days * day_seconds(),
{
    now - (retention_days as i64) * 86400
}

} // verus!
