use barduck::db::{
    history_limit, is_lock_conflict, logs_limit, merge_newest_first, panic_message,
    sort_newest_first, LogRow, Origin, PanicPayload, DEFAULT_HISTORY_LIMIT, MAX_HISTORY_LIMIT,
    MAX_LOGS_LIMIT,
};

#[test]
fn panic_message_extracts_str_payload() {
    assert_eq!(panic_message(&PanicPayload::Str("boom")), "boom");
}

#[test]
fn panic_message_extracts_string_payload() {
    let s = String::from("boom");
    assert_eq!(panic_message(&PanicPayload::Owned(&s)), "boom");
}

#[test]
fn panic_message_falls_back_for_other_payloads() {
    assert_eq!(panic_message(&PanicPayload::Other), "<non-string panic payload>");
}

#[test]
fn origin_reads_leniently() {
    assert_eq!(Origin::from_db("push"), Origin::Push);
    assert_eq!(Origin::from_db("poll"), Origin::Poll);
    assert_eq!(Origin::from_db("future"), Origin::Poll);
    assert_eq!(Origin::Push.as_str(), "push");
    assert_eq!(Origin::default_origin(), Origin::Poll);
}

#[test]
fn logs_limit_is_clamped_not_passed_through_unbounded() {
    assert_eq!(logs_limit(-1), 1);
    assert_eq!(logs_limit(0), 1);
    assert_eq!(logs_limit(50), 50);
    assert_eq!(logs_limit(i64::MAX), MAX_LOGS_LIMIT);
    assert_eq!(history_limit(None), DEFAULT_HISTORY_LIMIT);
    assert_eq!(history_limit(Some(1_000_000)), MAX_HISTORY_LIMIT);
    assert_eq!(history_limit(Some(-5)), 1);
}

#[test]
fn lock_conflicts_are_recognized_by_message() {
    assert!(is_lock_conflict("IO Error: Could not set lock on file: Conflicting lock is held"));
    assert!(is_lock_conflict("Could not read enough bytes from file"));
    assert!(!is_lock_conflict("table readings does not exist"));
}

fn row(source: &str, ts_ms: i64) -> LogRow {
    LogRow {
        source: source.into(),
        ts_ms,
        ts: String::new(),
        duration_ms: 0,
        error: None,
        value: None,
        unit: None,
        origin: Origin::Poll,
    }
}

#[test]
fn merged_logs_are_newest_first_and_ties_keep_their_order() {
    let rows = vec![row("a", 1), row("b", 3), row("c", 2), row("d", 3)];
    let sorted = sort_newest_first(rows.clone());
    assert_eq!(sorted.iter().map(|r| r.source.as_str()).collect::<Vec<_>>(), vec!["b", "d", "c", "a"]);
    let merged = merge_newest_first(rows, 2);
    assert_eq!(merged.iter().map(|r| r.source.as_str()).collect::<Vec<_>>(), vec!["b", "d"]);
}
