use barduck::collector::PollOutcome;
use barduck::config::{Config, SourceCfg, ValueFormat};
use barduck::db::{LogRow, Origin, ReadingRow};
use barduck::report::{
    fill_units, filter_named, is_text_source, one_line, poll_failure, poll_targets, short_value,
    split_text_rows, truncate,
};

fn reading(source: &str, value: &str) -> ReadingRow {
    ReadingRow {
        source: source.into(),
        value: value.into(),
        number: None,
        unit: None,
        ts_ms: 0,
        ts: String::new(),
    }
}

fn query(name: &str, format: Option<ValueFormat>, unit: Option<&str>) -> SourceCfg {
    SourceCfg::Query {
        name: name.into(),
        title: None,
        interval: None,
        cron: None,
        retry_interval: None,
        timeout: 30_000_000_000,
        unit: unit.map(Into::into),
        setup: None,
        format,
        thresholds: Vec::new(),
        history_points: None,
        show_history: None,
        show_in: None,
        value_type: None,
        command: "echo 0".into(),
        children: None,
    }
}

#[test]
fn source_filter_is_noop_when_empty_and_filters_otherwise() {
    let rows = vec![reading("a", "1"), reading("b", "2")];
    assert_eq!(filter_named(rows.clone(), &[]).len(), 2);
    let filtered = filter_named(rows, &["b".into()]);
    assert_eq!(filtered.len(), 1);
    assert_eq!(filtered[0].source, "b");
}

#[test]
fn one_line_keeps_short_values_and_collapses_prose() {
    assert_eq!(one_line("42"), "42");
    assert_eq!(one_line("# Weekly report\n\nHours: 36.5"), "# Weekly report…");
    assert_eq!(one_line(&"x".repeat(80)), format!("{}…", "x".repeat(60)));
}

#[test]
fn one_line_trims_and_marks_a_second_line() {
    assert_eq!(one_line("  padded \r\n"), "padded");
    assert_eq!(one_line("first\r\nsecond"), "first…");
    assert_eq!(one_line(""), "");
}

#[test]
fn short_value_collapses_whitespace_and_cuts_long_values() {
    assert_eq!(short_value("  a \n\t b  "), "a b");
    assert_eq!(short_value(&"y".repeat(40)), "y".repeat(40));
    assert_eq!(short_value(&"y".repeat(41)), format!("{}…", "y".repeat(39)));
}

#[test]
fn truncate_keeps_the_first_characters() {
    assert_eq!(truncate("héllo", 2), "hé");
    assert_eq!(truncate("abc", 10), "abc");
}

#[test]
fn text_sources_are_set_aside() {
    let mut cfg = Config::default_config();
    cfg.sources = vec![query("notes", Some(ValueFormat::Markdown), None), query("cpu", None, None)];
    assert!(is_text_source(&cfg, "notes"));
    assert!(!is_text_source(&cfg, "cpu"));
    assert!(!is_text_source(&cfg, "nope"));
    let rows = vec![reading("cpu", "1"), reading("notes", "# hi"), reading("cpu", "2")];
    let (values, text) = split_text_rows(&cfg, rows.clone(), false);
    assert_eq!(values.iter().map(|r| r.value.as_str()).collect::<Vec<_>>(), vec!["1", "2"]);
    assert_eq!(text.len(), 1);
    let (_, text) = split_text_rows(&cfg, rows, true);
    assert!(text.is_empty());
}

#[test]
fn poll_validates_every_name_before_polling_any() {
    let mut cfg = Config::default_config();
    cfg.sources = vec![query("a", None, None), query("b", None, None)];
    assert_eq!(poll_targets(&cfg, &["b".into(), "a".into()]).unwrap(), vec![1, 0]);
    let err = poll_targets(&cfg, &["a".into(), "typo".into()]).unwrap_err();
    assert_eq!(err, "unknown source `typo`");
}

#[test]
fn log_rows_take_their_unit_from_config() {
    let mut cfg = Config::default_config();
    cfg.sources = vec![query("disk", None, Some("%"))];
    let row = |s: &str| LogRow {
        source: s.into(),
        ts_ms: 1,
        ts: "t".into(),
        duration_ms: 3,
        error: None,
        value: Some("5".into()),
        unit: None,
        origin: Origin::Poll,
    };
    let mut rows = vec![row("disk"), row("gone")];
    fill_units(&cfg, &mut rows);
    assert_eq!(rows[0].unit.as_deref(), Some("%"));
    assert_eq!(rows[1].unit, None);
}

#[test]
fn poll_failure_names_the_first_failed_source() {
    let ok = PollOutcome::composite_root_ok("a");
    let bad = PollOutcome::failed("b", "boom".into());
    assert_eq!(poll_failure(&[ok.clone()]), None);
    assert_eq!(poll_failure(&[ok, bad]).as_deref(), Some("poll failed for `b`: boom"));
}
