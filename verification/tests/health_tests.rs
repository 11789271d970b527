use barduck::config::{Config, Level, SourceCfg, Threshold};
use barduck::db::{LogRow, Origin};
use barduck::health::{assemble, is_stale, last_success_for, recent_for, Health};
use barduck::num::Num;

const MIN: u128 = 60_000_000_000;

fn source(name: &str, interval: Option<u128>, cron: Option<&str>) -> SourceCfg {
    SourceCfg::Query {
        name: name.into(),
        title: None,
        interval,
        cron: cron.map(Into::into),
        retry_interval: None,
        timeout: 30_000_000_000,
        unit: None,
        setup: None,
        format: None,
        thresholds: Vec::new(),
        history_points: None,
        show_history: None,
        show_in: None,
        value_type: None,
        command: "echo 0".into(),
        children: None,
    }
}

fn ingest_source(name: &str, expected_interval: u128) -> SourceCfg {
    SourceCfg::Ingest {
        name: name.into(),
        title: None,
        expected_interval,
        unit: None,
        format: None,
        thresholds: Vec::new(),
        history_points: None,
        show_history: None,
        show_in: None,
        value_type: None,
    }
}

fn stream(name: &str) -> SourceCfg {
    SourceCfg::Stream {
        name: name.into(),
        title: None,
        timeout: 30_000_000_000,
        unit: None,
        setup: None,
        format: None,
        thresholds: Vec::new(),
        history_points: None,
        show_history: None,
        show_in: None,
        value_type: None,
        command: "tail -f /dev/null".into(),
        expected_interval: MIN,
        retry_interval: None,
    }
}

/// Seconds as the millisecond ages `is_stale` takes.
fn secs(s: i128) -> Option<i128> {
    Some(s * 1000)
}

#[test]
fn ingest_source_within_window_is_not_stale() {
    let s = ingest_source("webhook", MIN);
    assert!(!is_stale(secs(30), Some(&s), 5 * MIN));
}

#[test]
fn ingest_source_past_expected_interval_is_stale() {
    let s = ingest_source("webhook", MIN);
    assert!(is_stale(secs(90 * 60), Some(&s), 5 * MIN));
}

#[test]
fn ingest_source_at_boundary_is_not_stale() {
    let s = ingest_source("webhook", MIN);
    assert!(!is_stale(secs(59), Some(&s), 5 * MIN));
}

#[test]
fn interval_source_within_window_is_not_stale() {
    let s = source("cpu", Some(5 * MIN), None);
    assert!(!is_stale(secs(6 * 60), Some(&s), 5 * MIN));
}

#[test]
fn interval_source_past_second_missed_call_is_stale() {
    let s = source("cpu", Some(5 * MIN), None);
    assert!(is_stale(secs(11 * 60), Some(&s), 5 * MIN));
}

#[test]
fn cron_source_with_no_success_yet_is_stale() {
    let s = source("backup", None, Some("0 0 3 * * *"));
    assert!(is_stale(None, Some(&s), 5 * MIN));
}

#[test]
fn cron_source_with_an_old_success_is_not_stale() {
    let s = source("backup", None, Some("0 0 3 * * *"));
    assert!(!is_stale(secs(365 * 24 * 60 * 60), Some(&s), 5 * MIN));
}

#[test]
fn unknown_source_falls_back_to_the_given_interval() {
    assert!(is_stale(secs(11 * 60), None, 5 * MIN));
    assert!(!is_stale(secs(6 * 60), None, 5 * MIN));
}

#[test]
fn stream_silence_past_expected_interval_is_stale() {
    let s = stream("ticks");
    assert!(is_stale(secs(61), Some(&s), 5 * MIN));
}

#[test]
fn stream_value_within_expected_interval_is_not_stale() {
    let s = stream("ticks");
    assert!(!is_stale(secs(30), Some(&s), 5 * MIN));
}

fn log(ts_ms: i64, error: Option<&str>) -> LogRow {
    LogRow {
        source: "cpu".into(),
        ts_ms,
        ts: format!("t{ts_ms}"),
        duration_ms: 1,
        error: error.map(Into::into),
        value: None,
        unit: None,
        origin: Origin::Poll,
    }
}

fn band(bound: f64, level: Level) -> Threshold {
    Threshold { bound: Num::from_bits(bound.to_bits()), level }
}

#[test]
fn consecutive_failures_flip_to_failing() {
    let mut s = source("cpu", Some(5 * MIN), None);
    if let SourceCfg::Query { thresholds, .. } = &mut s {
        *thresholds = vec![band(1.0, Level::Green), band(2.0, Level::Red)];
    }
    let mut cfg = Config::default_config();
    cfg.sources = vec![s];
    let recent = vec![log(30, Some("x")), log(20, Some("y")), log(10, Some("z")), log(5, None)];
    let ok = log(5, None);
    let h = assemble(&cfg, "cpu", &recent, Some(&ok), 40, None);
    assert_eq!(h.consecutive_failures, 3);
    assert_eq!(h.status, Health::Failing);
    assert_eq!(h.last_success_ts.as_deref(), Some("t5"));
    assert_eq!(h.thresholds.len(), 2);

    let h = assemble(&cfg, "cpu", &recent[1..], Some(&ok), 40, Some(Vec::new()));
    assert_eq!(h.consecutive_failures, 2);
    assert_eq!(h.status, Health::Healthy);
    assert!(h.thresholds.is_empty(), "a live override wins over declared bands");

    let h = assemble(&cfg, "cpu", &[], None, 40, None);
    assert_eq!(h.status, Health::Stale, "never succeeded");
}

fn log_of(source: &str, ts_ms: i64, error: Option<&str>) -> LogRow {
    LogRow { source: source.into(), ..log(ts_ms, error) }
}

#[test]
fn batch_splits_into_each_sources_newest_attempts() {
    let batch = vec![
        log_of("a", 9, Some("x")),
        log_of("b", 8, None),
        log_of("a", 7, None),
        log_of("a", 6, Some("y")),
        log_of("b", 5, Some("z")),
    ];
    let a = recent_for(&batch, "a", 2);
    assert_eq!(a.iter().map(|l| l.ts_ms).collect::<Vec<_>>(), vec![9, 7]);
    let b = recent_for(&batch, "b", 5);
    assert_eq!(b.iter().map(|l| l.ts_ms).collect::<Vec<_>>(), vec![8, 5]);
    assert!(recent_for(&batch, "c", 3).is_empty());
    assert_eq!(last_success_for(&batch, "a").map(|l| l.ts_ms), Some(7));
    assert_eq!(last_success_for(&batch, "b").map(|l| l.ts_ms), Some(8));
    assert!(last_success_for(&batch, "c").is_none());
}

#[test]
fn batched_inputs_agree_with_one_sources_inputs() {
    let batch = vec![
        log_of("recovered", 4, None),
        log_of("failing", 3, Some("boom")),
        log_of("recovered", 2, Some("boom")),
        log_of("failing", 1, Some("boom")),
    ];
    let alone: Vec<LogRow> = batch.iter().filter(|l| l.source == "recovered").cloned().collect();
    let from_batch = recent_for(&batch, "recovered", 2);
    let from_alone = recent_for(&alone, "recovered", 2);
    let stamps = |v: &[LogRow]| v.iter().map(|l| (l.ts_ms, l.error.clone())).collect::<Vec<_>>();
    assert_eq!(stamps(&from_batch), stamps(&from_alone));
    assert_eq!(stamps(&from_batch), vec![(4, None), (2, Some("boom".to_string()))]);
    assert_eq!(
        last_success_for(&batch, "recovered").map(|l| l.ts_ms),
        last_success_for(&alone, "recovered").map(|l| l.ts_ms)
    );
}
