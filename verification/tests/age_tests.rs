use barduck::age::ago;

#[test]
fn never_updated() {
    assert_eq!(ago(1_000_000, 0), None);
}

#[test]
fn just_now() {
    assert_eq!(ago(1_000_000, 999_500), Some("just now".into()));
}

#[test]
fn seconds() {
    assert_eq!(ago(1_012_000, 1_000_000), Some("12s ago".into()));
}

#[test]
fn rounds_down_to_minutes() {
    assert_eq!(ago(1_629_000, 1_000_000), Some("10m ago".into()));
}

#[test]
fn rounds_down_to_hours() {
    assert_eq!(ago(1_000_000 + 3_600_000 * 3 + 59_000, 1_000_000), Some("3h ago".into()));
}

#[test]
fn rounds_down_to_days() {
    assert_eq!(ago(1_000_000 + 86_400_000 * 2 + 3_600_000, 1_000_000), Some("2d ago".into()));
}

#[test]
fn a_future_time_counts_as_now() {
    assert_eq!(ago(1_000, 5_000), Some("just now".into()));
}
