//! Budgets for requests to a running daemon.

use vstd::prelude::*;

verus! {

/// The longest duration a request can be given, `Duration::MAX`, in
/// nanoseconds.
pub const DURATION_MAX_NANOS: u128 = 18_446_744_073_709_551_615_999_999_999;

/// The per-request budget for reads from the daemon: ten seconds.
pub const DAEMON_REQUEST_NANOS: u128 = 10_000_000_000;

/// The budget for a forced poll through the daemon: two runs of the
/// source's own command (its timeout, in nanoseconds) plus the ordinary
/// request budget, saturating at `Duration::MAX`.
pub open spec fn spec_poll_timeout(source_timeout: int) -> int {
    if 2 * source_timeout + DAEMON_REQUEST_NANOS > DURATION_MAX_NANOS {
        DURATION_MAX_NANOS as int
    } else {
        2 * source_timeout + DAEMON_REQUEST_NANOS
    }
}

pub fn poll_timeout(source_timeout: u128) -> (r: u128)
    requires
        source_timeout <= DURATION_MAX_NANOS,
    ensures
        r == spec_poll_timeout(source_timeout as int),
{
    let doubled = source_timeout * 2;
    let sum = doubled + DAEMON_REQUEST_NANOS;
    if sum > DURATION_MAX_NANOS {
        DURATION_MAX_NANOS
    } else {
        sum
    }
}

} // verus!
