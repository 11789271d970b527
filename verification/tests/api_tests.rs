use barduck::api::{check_ingest, check_poll_request, theme_ok, IngestCheck, LogsQuery, PollCheck};
use barduck::config::{Config, SourceCfg};

#[test]
fn logs_query_accepts_repeated_source_keys() {
    let q = LogsQuery::parse("limit=3&source=disk-root").unwrap();
    assert_eq!(q.limit, Some(3));
    assert_eq!(q.source, vec!["disk-root".to_string()]);

    let q = LogsQuery::parse("source=a&limit=5&source=b").unwrap();
    assert_eq!(q.limit, Some(5));
    assert_eq!(q.source, vec!["a".to_string(), "b".to_string()]);
}

#[test]
fn logs_query_defaults_and_ignores_unknown_parameters() {
    let q = LogsQuery::parse("").unwrap();
    assert_eq!(q.limit, None);
    assert!(q.source.is_empty());

    let q = LogsQuery::parse("unknown=1&source=a").unwrap();
    assert_eq!(q.source, vec!["a".to_string()]);
}

#[test]
fn logs_query_rejects_an_unparseable_limit() {
    let err = LogsQuery::parse("limit=many").unwrap_err();
    assert!(err.contains("limit"), "error should name the field: {err}");
}

#[test]
fn logs_query_last_limit_wins_and_decodes_values() {
    let q = LogsQuery::parse("limit=1&limit=-7&source=disk%20root").unwrap();
    assert_eq!(q.limit, Some(-7));
    assert_eq!(q.source, vec!["disk root".to_string()]);
}

#[test]
fn logs_query_limit_error_carries_the_integer_message() {
    let err = LogsQuery::parse("limit=").unwrap_err();
    assert_eq!(err, "invalid `limit` ``: cannot parse integer from empty string");
    let err = LogsQuery::parse("limit=99999999999999999999").unwrap_err();
    assert_eq!(err, "invalid `limit` `99999999999999999999`: number too large to fit in target type");
}

fn source(name: &str, stream: bool) -> SourceCfg {
    if stream {
        SourceCfg::Stream {
            name: name.into(),
            title: None,
            timeout: 30_000_000_000,
            unit: None,
            setup: None,
            format: None,
            thresholds: Vec::new(),
            history_points: None,
            show_history: None,
            show_in: None,
            value_type: None,
            command: "tail -f log".into(),
            expected_interval: 60_000_000_000,
            retry_interval: None,
        }
    } else {
        SourceCfg::Query {
            name: name.into(),
            title: None,
            interval: None,
            cron: None,
            retry_interval: None,
            timeout: 30_000_000_000,
            unit: None,
            setup: None,
            format: None,
            thresholds: Vec::new(),
            history_points: None,
            show_history: None,
            show_in: None,
            value_type: None,
            command: "echo 0".into(),
            children: None,
        }
    }
}

#[test]
fn poll_request_checks_name_and_kind() {
    let mut cfg = Config::default_config();
    cfg.sources = vec![source("cpu", false), source("ticks", true)];
    match check_poll_request(&cfg, "nope") {
        PollCheck::Unknown(m) => assert_eq!(m, "unknown source `nope`"),
        other => panic!("unexpected {other:?}"),
    }
    match check_poll_request(&cfg, "ticks") {
        PollCheck::Unpollable(m) => {
            assert_eq!(m, "source `ticks` is collected continuously, not by fetching")
        }
        other => panic!("unexpected {other:?}"),
    }
    match check_poll_request(&cfg, "cpu") {
        PollCheck::Pollable(i) => assert_eq!(i, 0),
        other => panic!("unexpected {other:?}"),
    }
}

#[test]
fn only_dark_and_light_are_themes() {
    assert!(theme_ok("dark"));
    assert!(theme_ok("light"));
    assert!(!theme_ok("Dark"));
    assert!(!theme_ok(""));
}

#[test]
fn theme_class_reads_only_an_explicit_choice() {
    use_theme_class();
}

fn use_theme_class() {
    assert_eq!(barduck::api::theme_class(Some("dark")), "dark");
    assert_eq!(barduck::api::theme_class(Some("light")), "light");
    assert_eq!(barduck::api::theme_class(Some("sepia")), "");
    assert_eq!(barduck::api::theme_class(None), "");
    assert_eq!(barduck::api::THEME_COOKIE, "bd_theme");
}

fn pushed(source: &str, value: &str, thresholds: Option<usize>) -> barduck::source::IngestItem {
    let band = |bound: f64| barduck::config::Threshold {
        bound: barduck::num::Num::from_bits(bound.to_bits()),
        level: barduck::config::Level::Green,
    };
    barduck::source::IngestItem {
        source: source.into(),
        value: barduck::source::IngestValue::Text(value.into()),
        ts: None,
        thresholds: thresholds.map(|n| (0..n).map(|i| band(i as f64)).collect()),
    }
}

#[test]
fn ingest_check_answers_unknown_refused_or_accepted() {
    let mut cfg = Config::default_config();
    cfg.sources = vec![source("cpu", false), source("ticks", true)];
    let arrival = (5_000, "2024-01-01T00:00:05+00:00".to_string());
    match check_ingest(&cfg, &pushed("nope", "1", None), arrival.clone(), None) {
        IngestCheck::Unknown(m) => assert_eq!(m, "unknown source `nope`"),
        other => panic!("unexpected {other:?}"),
    }
    match check_ingest(&cfg, &pushed("ticks", "7", Some(1)), arrival.clone(), None) {
        IngestCheck::Refused(m) => assert_eq!(m, "source `ticks` needs at least 2 thresholds to form bands"),
        other => panic!("unexpected {other:?}"),
    }
    match check_ingest(&cfg, &pushed("ticks", "7", Some(2)), arrival.clone(), None) {
        IngestCheck::Accepted(i, p) => {
            assert_eq!(i, 1);
            assert_eq!(p.value, "7");
            assert_eq!((p.ts_ms, p.ts.as_str()), (5_000, "2024-01-01T00:00:05+00:00"));
            assert_eq!(p.threshold.map(|t| t.len()), Some(2));
        }
        other => panic!("unexpected {other:?}"),
    }
}
