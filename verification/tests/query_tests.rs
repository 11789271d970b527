use barduck::query::{poll_timeout, DAEMON_REQUEST_NANOS, DURATION_MAX_NANOS};
use std::time::Duration;

#[test]
fn poll_timeout_covers_two_source_timeouts_plus_the_request_budget() {
    assert_eq!(poll_timeout(Duration::from_secs(30).as_nanos()), Duration::from_secs(70).as_nanos());
    assert!(
        poll_timeout(Duration::from_secs(1).as_nanos()) > DAEMON_REQUEST_NANOS,
        "even a fast source gets more than the read budget"
    );
    assert!(poll_timeout(Duration::MAX.as_nanos()) > DAEMON_REQUEST_NANOS);
}

#[test]
fn poll_timeout_saturates_at_the_longest_duration() {
    assert_eq!(DURATION_MAX_NANOS, Duration::MAX.as_nanos());
    assert_eq!(poll_timeout(Duration::MAX.as_nanos()), Duration::MAX.as_nanos());
    assert_eq!(poll_timeout(0), DAEMON_REQUEST_NANOS);
}
