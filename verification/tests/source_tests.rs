use barduck::config::{
    expand_composites, level_for, validate, ChildDecl, Config, Level, SourceCfg, Threshold,
    UiView, ValueFormat, ValueType,
};
use barduck::num::Num;
use barduck::source::{parse_jsonl_row, parse_output, resolve_ingest_ts, Json, JsonlRow, JsonlTs};

const SECOND: u128 = 1_000_000_000;

fn num(f: f64) -> Num {
    Num::from_bits(f.to_bits())
}

/// A JSON number's epoch split: whole seconds (floored) and the remaining
/// nanoseconds, as an ingest or row timestamp reads it.
fn epoch_split(f: f64) -> Option<(i64, u32)> {
    if !f.is_finite() {
        return None;
    }
    let whole = f.floor();
    #[allow(clippy::cast_possible_truncation, clippy::cast_sign_loss)]
    let nanos = ((f - whole) * 1_000_000_000.0).round() as u32;
    #[allow(clippy::cast_possible_truncation)]
    Some((whole as i64, nanos))
}

fn number(f: f64) -> Json {
    Json::Number { value: num(f), epoch: epoch_split(f) }
}

fn to_json(v: &serde_json::Value) -> Json {
    match v {
        serde_json::Value::Null => Json::Null,
        serde_json::Value::Bool(b) => Json::Bool(*b),
        serde_json::Value::Number(n) => number(n.as_f64().unwrap()),
        serde_json::Value::String(s) => Json::Str(s.clone()),
        serde_json::Value::Array(a) => Json::Array(a.iter().map(to_json).collect()),
        serde_json::Value::Object(o) => {
            Json::Object(o.iter().map(|(k, v)| (k.clone(), to_json(v))).collect())
        }
    }
}

fn row(text: &str) -> Vec<(String, Json)> {
    let v: serde_json::Value = serde_json::from_str(text).unwrap();
    match to_json(&v) {
        Json::Object(o) => o,
        _ => panic!("not an object: {text}"),
    }
}

fn parse_row(text: &str) -> Result<JsonlRow, String> {
    parse_jsonl_row("s", &row(text))
}

fn output_json(text: &str) -> Option<Json> {
    serde_json::from_str::<serde_json::Value>(text.trim()).ok().map(|v| to_json(&v))
}

fn secs(ms: i64) -> f64 {
    #[allow(clippy::cast_precision_loss)]
    let f = ms as f64 / 1000.0;
    f
}

/// Resolves an epoch-seconds timestamp the way a pushed item's is.
fn epoch_to_ts(f: f64) -> Result<(f64, String), String> {
    resolve_ingest_ts(Some(&number(f)), (0, "arrival".into()), "s").map(|(ms, ts)| (secs(ms), ts))
}

#[test]
fn full_row_parses_value_ts_and_thresholds() {
    let r = parse_row(
        r#"{"value":"ok","ts":"2026-09-09T12:00:00Z","threshold":[{"bound":1.0,"level":"green"},{"bound":2.0,"level":"red"}]}"#,
    )
    .unwrap();
    assert_eq!(r.value, "ok");
    let (epoch, ts) = r.ts.unwrap().resolve((0, "fallback".into()));
    assert!(secs(epoch) > 1_780_000_000.0, "epoch should be Sep 2026, got {epoch}");
    assert!(ts.contains("2026-09-09"), "unexpected ts: {ts}");
    assert_eq!(r.threshold.unwrap().len(), 2);
}

#[test]
fn minimal_row_has_no_ts_or_thresholds() {
    let r = parse_row(r#"{"value":"ok"}"#).unwrap();
    assert_eq!(r.value, "ok");
    assert!(r.ts.is_none());
    assert!(r.threshold.is_none());
}

#[test]
fn unknown_field_fails_the_row() {
    let err = parse_row(r#"{"value":"ok","color":"blue"}"#).unwrap_err();
    assert!(err.contains("color"), "error should name the field: {err}");
}

#[test]
fn missing_or_non_string_value_fails_the_row() {
    parse_row(r#"{"ts":"2026-09-09T12:00:00Z"}"#).unwrap_err();
    parse_row(r#"{"value":42}"#).unwrap_err();
}

#[test]
fn invalid_threshold_degrades_to_none() {
    let r = parse_row(
        r#"{"value":"ok","threshold":[{"bound":1.0,"level":"blue"},{"bound":2.0,"level":"red"}]}"#,
    )
    .unwrap();
    assert!(r.threshold.is_none());
    let r = parse_row(r#"{"value":"ok","threshold":[{"bound":1.0,"level":"red"}]}"#).unwrap();
    assert!(r.threshold.is_none());
}

#[test]
fn unusable_ts_degrades_to_none() {
    let r = parse_row(r#"{"value":"ok","ts":true}"#).unwrap();
    assert!(r.ts.is_none());
}

#[test]
fn epoch_ts_resolves_to_utc() {
    let r = parse_row(r#"{"value":"ok","ts":1000.5}"#).unwrap();
    let (epoch, ts) = r.ts.unwrap().resolve((0, "fallback".into()));
    assert!((secs(epoch) - 1000.5).abs() < 0.001, "got {epoch}");
    assert!(ts.contains("1970-01-01"), "unexpected ts: {ts}");
}

#[test]
fn pre_epoch_fractional_ts_resolves_correctly() {
    let r = parse_row(r#"{"value":"ok","ts":-1.5}"#).unwrap();
    let (epoch, ts) = r.ts.unwrap().resolve((0, "fallback".into()));
    assert!((secs(epoch) - (-1.5)).abs() < 0.001, "got {epoch}");
    assert!(ts.starts_with("1969-12-31T23:59:58.5"), "expected 23:59:58.5, got {ts}");
}

#[test]
fn level_for_resolves_bands_independently_of_declaration_order() {
    let reading = |s: &str| s.trim().parse::<f64>().ok().map(num);
    let ascending = [
        Threshold { bound: num(60.0), level: Level::Green },
        Threshold { bound: num(85.0), level: Level::Yellow },
        Threshold { bound: num(100.0), level: Level::Red },
    ];
    let mut shuffled = ascending.to_vec();
    shuffled.reverse();
    for bands in [&ascending[..], &shuffled[..]] {
        assert_eq!(level_for(bands, reading("10")), Some(Level::Green));
        assert_eq!(level_for(bands, reading("60")), Some(Level::Green), "boundary is ≤");
        assert_eq!(level_for(bands, reading("60.5")), Some(Level::Yellow));
        assert_eq!(level_for(bands, reading("100")), Some(Level::Red));
        assert_eq!(
            level_for(bands, reading("999")),
            Some(Level::Red),
            "above every bound falls to the highest band"
        );
        assert_eq!(level_for(bands, reading("  42  ")), Some(Level::Green));
        assert_eq!(level_for(bands, reading("n/a")), None);
    }
    assert_eq!(level_for(&[], reading("1")), None);
}

#[test]
fn epoch_to_ts_handles_pre_epoch_fractional_seconds() {
    let (epoch, ts) = epoch_to_ts(-1.5).unwrap();
    assert!((epoch - (-1.5)).abs() < 0.001, "got epoch {epoch}");
    assert!(ts.starts_with("1969-12-31T23:59:58.5"), "expected 23:59:58.5, got {ts}");
}

#[test]
fn epoch_to_ts_handles_positive_fractional_seconds() {
    let (epoch, ts) = epoch_to_ts(1.5).unwrap();
    assert!((epoch - 1.5).abs() < 0.001, "got epoch {epoch}");
    assert!(ts.starts_with("1970-01-01T00:00:01.5"), "got {ts}");
}

#[test]
fn epoch_to_ts_handles_whole_seconds_either_side_of_the_epoch() {
    assert!((epoch_to_ts(-1.0).unwrap().0 - (-1.0)).abs() < 0.001);
    assert!((epoch_to_ts(0.0).unwrap().0).abs() < 0.001);
    assert!((epoch_to_ts(1.0).unwrap().0 - 1.0).abs() < 0.001);
}

#[test]
fn epoch_to_ts_rejects_non_finite() {
    assert!(epoch_to_ts(f64::NAN).is_err());
    assert!(epoch_to_ts(f64::INFINITY).is_err());
}

#[test]
fn ingest_ts_errors_name_the_source_and_the_problem() {
    let arrival = (7, "arr".to_string());
    let err = resolve_ingest_ts(Some(&Json::Str("yesterday".into())), arrival.clone(), "cpu").unwrap_err();
    assert_eq!(err, "ingest `ts` for `cpu` is not RFC 3339: `yesterday`");
    let err = resolve_ingest_ts(Some(&Json::Bool(true)), arrival.clone(), "cpu").unwrap_err();
    assert_eq!(err, "ingest `ts` for `cpu` must be epoch seconds or RFC 3339");
    let err = resolve_ingest_ts(Some(&number(f64::NAN)), arrival.clone(), "cpu").unwrap_err();
    assert_eq!(err, "ingest `ts` for `cpu` is not a finite number");
    assert_eq!(resolve_ingest_ts(None, arrival.clone(), "cpu").unwrap(), arrival);
    assert_eq!(resolve_ingest_ts(Some(&Json::Null), arrival.clone(), "cpu").unwrap(), arrival);
}

#[test]
fn plain_and_json_values_pass_through_as_is() {
    let arrival = (7000, "arr".to_string());
    for text in ["42%", "{\"load\": 0.42, \"cores\": 8}", "[1,2]", "123"] {
        let p = parse_output("s", text, output_json(text), arrival.clone()).unwrap();
        assert_eq!(p.value, text.trim(), "plain output changed: {text}");
        assert!((secs(p.ts_ms) - 7.0).abs() < 0.001, "arrival ts changed");
        assert!(p.threshold.is_none());
    }
}

#[test]
fn plain_output_is_trimmed() {
    let p = parse_output("s", "  42 \n", None, (1, "a".into())).unwrap();
    assert_eq!(p.value, "42");
    assert_eq!(p.ts, "a");
}

#[test]
fn jsonl_object_applies_structurally() {
    let arrival = (7000, "arr".to_string());
    let text = r#"{"value":"42%","ts":"2026-09-09T12:00:00Z"}"#;
    let p = parse_output("s", text, output_json(text), arrival).unwrap();
    assert_eq!(p.value, "42%");
    assert!(secs(p.ts_ms) > 1_780_000_000.0);
    assert!(p.threshold.is_none());
}

#[test]
fn invalid_rows_fail() {
    let arrival = (7000, "arr".to_string());
    let text = r#"{"value":"ok","color":"blue"}"#;
    parse_output("s", text, output_json(text), arrival.clone()).unwrap_err();
    let text = r#"{"value":42}"#;
    parse_output("s", text, output_json(text), arrival).unwrap_err();
}

fn child(name: &str) -> ChildDecl {
    ChildDecl {
        name: name.into(),
        title: None,
        unit: None,
        format: None,
        thresholds: Vec::new(),
        history_points: None,
        show_history: None,
        show_in: None,
        value_type: None,
    }
}

fn query(name: &str, command: &str, children: Option<Vec<ChildDecl>>) -> SourceCfg {
    SourceCfg::Query {
        name: name.into(),
        title: None,
        interval: Some(10 * SECOND),
        cron: None,
        retry_interval: None,
        timeout: 30 * SECOND,
        unit: None,
        setup: None,
        format: None,
        thresholds: Vec::new(),
        history_points: None,
        show_history: None,
        show_in: None,
        value_type: None,
        command: command.into(),
        children,
    }
}

fn config_of(sources: Vec<SourceCfg>) -> Config {
    let mut cfg = Config::default_config();
    cfg.sources = sources;
    cfg
}

/// A `load` query root (`cat`, every 10s) with the given children, adjusted by `f`.
fn composite_cfg(children: &[&str], f: impl FnOnce(&mut SourceCfg)) -> Config {
    let mut root = query("load", "cat", Some(children.iter().map(|c| child(c)).collect()));
    f(&mut root);
    config_of(vec![root])
}

fn find<'a>(cfg: &'a Config, name: &str) -> &'a SourceCfg {
    cfg.sources.iter().find(|s| s.name() == name).unwrap()
}

#[test]
fn composite_expands_children_into_addressable_sources() {
    let mut cfg = composite_cfg(&["1m", "5m", "15m"], |_| {});
    expand_composites(&mut cfg).unwrap();
    assert_eq!(cfg.sources.len(), 4);
    for full in ["load::1m", "load::5m", "load::15m"] {
        let c = find(&cfg, full);
        assert!(c.is_child());
        assert_eq!(c.parent(), Some("load"));
    }
    assert!(cfg.sources[0].is_composite());
}

#[test]
fn composite_duplicate_full_name_is_rejected() {
    let mut cfg = config_of(vec![
        query("load", "cat", Some(vec![child("1m")])),
        query("load::1m", "echo 0", None),
    ]);
    expand_composites(&mut cfg).unwrap();
    let err = validate(&cfg).unwrap_err().message();
    assert!(err.contains("load::1m"), "{err}");
}

#[test]
fn composite_child_name_with_separator_is_rejected() {
    let mut cfg = composite_cfg(&["1m::x"], |_| {});
    let err = expand_composites(&mut cfg).unwrap_err().message();
    assert!(err.contains("1m::x"), "{err}");
}

#[test]
fn composite_empty_children_list_is_rejected() {
    let mut cfg = composite_cfg(&[], |_| {});
    let err = expand_composites(&mut cfg).unwrap_err().message();
    assert!(err.contains("empty"), "{err}");
}

#[test]
fn composite_root_declaring_per_value_field_is_rejected() {
    let setters: Vec<Box<dyn Fn(&mut SourceCfg)>> = vec![
        Box::new(|s| {
            if let SourceCfg::Query { unit, .. } = s {
                *unit = Some("x".into());
            }
        }),
        Box::new(|s| {
            if let SourceCfg::Query { thresholds, .. } = s {
                *thresholds = vec![
                    Threshold { bound: num(1.0), level: Level::Green },
                    Threshold { bound: num(2.0), level: Level::Red },
                ];
            }
        }),
        Box::new(|s| {
            if let SourceCfg::Query { value_type, .. } = s {
                *value_type = Some(ValueType::Double);
            }
        }),
        Box::new(|s| {
            if let SourceCfg::Query { format, .. } = s {
                *format = Some(ValueFormat::Markdown);
            }
        }),
        Box::new(|s| {
            if let SourceCfg::Query { show_history, .. } = s {
                *show_history = Some(false);
            }
        }),
    ];
    for set in setters {
        let mut cfg = composite_cfg(&["1m"], |s| set(s));
        let err = expand_composites(&mut cfg).unwrap_err().message();
        assert!(err.contains("must not declare"), "{err}");
    }
}

#[test]
fn composite_root_operational_fields_remain_valid() {
    let mut cfg = composite_cfg(&["1m"], |s| {
        if let SourceCfg::Query { title, show_in, timeout, .. } = s {
            *title = Some("Load".into());
            *show_in = Some(UiView::Tui);
            *timeout = 5 * SECOND;
        }
    });
    expand_composites(&mut cfg).unwrap();
    validate(&cfg).unwrap();
}

#[test]
fn explicit_child_type_is_rejected() {
    let mut cfg = config_of(vec![SourceCfg::Child {
        name: "x".into(),
        parent: "load".into(),
        title: None,
        unit: None,
        format: None,
        thresholds: Vec::new(),
        history_points: None,
        show_history: None,
        show_in: None,
        value_type: None,
        effective_interval: 10 * SECOND,
        cron: None,
        timeout: 30 * SECOND,
    }]);
    let err = expand_composites(&mut cfg).unwrap_err().message();
    assert!(err.contains("child"), "{err}");
}

#[test]
fn composite_children_denormalize_parent_schedule_and_timeout() {
    let mut cfg = composite_cfg(&["1m"], |s| {
        if let SourceCfg::Query { timeout, .. } = s {
            *timeout = 7 * SECOND;
        }
    });
    expand_composites(&mut cfg).unwrap();
    let one = find(&cfg, "load::1m");
    assert_eq!(one.effective_interval(), 10 * SECOND);
    assert_eq!(one.timeout(), 7 * SECOND);
    assert_eq!(one.cron(), None);
    assert_eq!(one.interval(), None, "a child reports no schedule of its own");

    let mut root = query("backup", "cat", Some(vec![child("a")]));
    if let SourceCfg::Query { interval, cron, .. } = &mut root {
        *interval = None;
        *cron = Some("0 0 3 * * *".into());
    }
    let mut cron_cfg = config_of(vec![root]);
    expand_composites(&mut cron_cfg).unwrap();
    assert_eq!(find(&cron_cfg, "backup::a").cron(), Some("0 0 3 * * *"));
}

#[test]
fn failed_expansion_leaves_the_configuration_unchanged() {
    let mut cfg = composite_cfg(&["ok", "bad::name"], |_| {});
    let before = cfg.sources.len();
    expand_composites(&mut cfg).unwrap_err();
    assert_eq!(cfg.sources.len(), before);
    assert!(cfg.sources[0].is_composite());
}

#[test]
fn nan_reading_has_no_band() {
    let bands = [
        Threshold { bound: num(60.0), level: Level::Green },
        Threshold { bound: num(85.0), level: Level::Yellow },
        Threshold { bound: num(100.0), level: Level::Red },
    ];
    let reading = "NaN".trim().parse::<f64>().ok().map(num);
    assert!(reading.is_some(), "the text NaN reads as a number");
    assert_eq!(level_for(&bands, reading), None);
}

#[test]
fn epoch_timestamps_resolve_to_whole_milliseconds() {
    let (ms, ts) = JsonlTs::Epoch(1_700_000_000, 250_600_000).resolve((0, "fallback".into()));
    assert_eq!(ms, 1_700_000_000_250);
    assert!(ts.starts_with("2023-11-14T22:13:20.2506"), "{ts}");
    let (ms, ts) = JsonlTs::Epoch(i64::MAX, 0).resolve((42, "fallback".into()));
    assert_eq!((ms, ts.as_str()), (42, "fallback"));
}
