use barduck::collector::{
    composite_fanout, CompositeRun, advance_wait, collectible, control_routes, cron_delay, first_tick_delay, next_cron_delay,
    child_outcome, pick_outcome, poll_plan, stream_step, PollPlan, unpollable_reason, PollOutcome, StreamAction, StreamEvent,
    CRON_FALLBACK_NANOS,
};
use barduck::config::{expand_composites, ChildDecl, Config, SourceCfg};
use barduck::db::{LogRow, Origin};
use barduck::source::{IngestItem, IngestValue, ParsedOutput};

const SECOND: u128 = 1_000_000_000;
const MINUTE_NANOS: u128 = 60 * SECOND;

fn log_at(ts_ms: i64, error: Option<&str>) -> LogRow {
    LogRow {
        source: "cpu".into(),
        ts_ms,
        ts: String::new(),
        duration_ms: 5,
        error: error.map(Into::into),
        value: None,
        unit: None,
        origin: Origin::Poll,
    }
}

fn query(name: &str, children: Option<Vec<&str>>) -> SourceCfg {
    SourceCfg::Query {
        name: name.into(),
        title: None,
        interval: None,
        cron: None,
        retry_interval: None,
        timeout: 30 * SECOND,
        unit: None,
        setup: None,
        format: None,
        thresholds: Vec::new(),
        history_points: None,
        show_history: None,
        show_in: None,
        value_type: None,
        command: "echo 0".into(),
        children: children.map(|cs| {
            cs.into_iter()
                .map(|c| ChildDecl {
                    name: c.into(),
                    title: None,
                    unit: None,
                    format: None,
                    thresholds: Vec::new(),
                    history_points: None,
                    show_history: None,
                    show_in: None,
                    value_type: None,
                })
                .collect()
        }),
    }
}

fn stream(name: &str) -> SourceCfg {
    SourceCfg::Stream {
        name: name.into(),
        title: None,
        timeout: 30 * SECOND,
        unit: None,
        setup: None,
        format: None,
        thresholds: Vec::new(),
        history_points: None,
        show_history: None,
        show_in: None,
        value_type: None,
        command: "cat".into(),
        expected_interval: 60 * SECOND,
        retry_interval: None,
    }
}

fn ingest(name: &str) -> SourceCfg {
    SourceCfg::Ingest {
        name: name.into(),
        title: None,
        expected_interval: 60 * SECOND,
        unit: None,
        format: None,
        thresholds: Vec::new(),
        history_points: None,
        show_history: None,
        show_in: None,
        value_type: None,
    }
}

fn now_ms() -> i64 {
    let d = std::time::SystemTime::now().duration_since(std::time::UNIX_EPOCH).unwrap();
    i64::try_from(d.as_millis()).unwrap()
}

#[test]
fn cron_delay_targets_the_next_occurrence() {
    let delay = next_cron_delay("* * * * * *", now_ms());
    assert!(delay <= SECOND, "a per-second cron should fire within a second: {delay}ns");
}

#[test]
fn cron_delay_falls_back_when_no_future_occurrence() {
    // The largest instant chrono represents: no occurrence comes after it.
    let far_future = chrono::DateTime::<chrono::Utc>::MAX_UTC.timestamp_millis();
    assert_eq!(next_cron_delay("* * * * * *", far_future), MINUTE_NANOS);
}

#[test]
fn cron_delay_waits_until_the_occurrence() {
    assert_eq!(cron_delay(Some(1_500), 1_000), 500_000_000);
    assert_eq!(cron_delay(Some(1_000), 1_000), 0);
    assert_eq!(cron_delay(Some(999), 1_000), CRON_FALLBACK_NANOS);
    assert_eq!(cron_delay(None, 1_000), CRON_FALLBACK_NANOS);
    assert_eq!(CRON_FALLBACK_NANOS, MINUTE_NANOS);
}

#[test]
fn daily_cron_waits_until_the_next_three_oclock() {
    // 2024-01-01T02:00:00Z; the next 03:00:00 is an hour later.
    let now = 1_704_074_400_000;
    assert_eq!(next_cron_delay("0 0 3 * * *", now), 3600 * SECOND);
}

#[test]
fn first_tick_runs_at_once_without_history_or_when_overdue() {
    assert_eq!(first_tick_delay(None, 10_000, 60 * SECOND, 5 * SECOND), 0);
    let ok = log_at(0, None);
    assert_eq!(first_tick_delay(Some(&ok), 60_000, 60 * SECOND, 5 * SECOND), 0);
    assert_eq!(first_tick_delay(Some(&ok), 90_000, 60 * SECOND, 5 * SECOND), 0);
}

#[test]
fn first_tick_waits_out_the_rest_of_the_window() {
    let ok = log_at(0, None);
    assert_eq!(first_tick_delay(Some(&ok), 20_000, 60 * SECOND, 5 * SECOND), 40 * SECOND);
    let failed = log_at(0, Some("boom"));
    assert_eq!(first_tick_delay(Some(&failed), 2_000, 60 * SECOND, 5 * SECOND), 3 * SECOND);
    // A last attempt stamped in the future waits the whole window plus the gap.
    assert_eq!(first_tick_delay(Some(&ok), -1_000, 60 * SECOND, 5 * SECOND), 61 * SECOND);
}

#[test]
fn advance_wait_picks_retry_after_failure() {
    assert_eq!(advance_wait(true, 60, 5), 5);
    assert_eq!(advance_wait(false, 60, 5), 60);
}

#[test]
fn stream_steps_follow_each_event() {
    match stream_step(StreamEvent::SpawnFailed("no such file".into())) {
        StreamAction::Finish(Some(m)) => assert_eq!(m, "stream spawn: no such file"),
        other => panic!("unexpected {other:?}"),
    }
    match stream_step(StreamEvent::Line("{\"value\":\"1\"}".into())) {
        StreamAction::Ingest(l) => assert_eq!(l, "{\"value\":\"1\"}"),
        other => panic!("unexpected {other:?}"),
    }
    assert!(matches!(stream_step(StreamEvent::OutputEnded), StreamAction::AwaitExit));
    match stream_step(StreamEvent::ReadFailed("broken pipe".into())) {
        StreamAction::FailThenAwaitExit(m) => assert_eq!(m, "stream read: broken pipe"),
        other => panic!("unexpected {other:?}"),
    }
    assert!(matches!(stream_step(StreamEvent::ShutdownRequested), StreamAction::Stop));
    assert!(matches!(
        stream_step(StreamEvent::Exited { success: true, status: "exit status: 0".into() }),
        StreamAction::Finish(None)
    ));
    match stream_step(StreamEvent::Exited { success: false, status: "exit status: 3".into() }) {
        StreamAction::Finish(Some(m)) => assert_eq!(m, "stream exited: exit status: 3"),
        other => panic!("unexpected {other:?}"),
    }
    match stream_step(StreamEvent::WaitFailed("gone".into())) {
        StreamAction::Finish(Some(m)) => assert_eq!(m, "stream wait: gone"),
        other => panic!("unexpected {other:?}"),
    }
}

#[test]
fn poll_outcome_carries_the_documented_fields() {
    let parsed = ParsedOutput {
        value: "42".into(),
        ts_ms: 1_000_500,
        ts: "2024-01-01T00:00:00+00:00".into(),
        threshold: None,
    };
    let ok = PollOutcome::stored("cpu", &parsed);
    assert_eq!(ok.source, "cpu");
    assert!(ok.success);
    assert_eq!(ok.value.as_deref(), Some("42"));
    assert_eq!(ok.ts.as_deref(), Some("2024-01-01T00:00:00+00:00"));
    assert!(ok.error.is_none());

    let failed = PollOutcome::failed("cpu", "boom".into());
    assert!(!failed.success);
    assert_eq!(failed.error.as_deref(), Some("boom"));
    assert!(failed.value.is_none() && failed.ts.is_none());

    let root = PollOutcome::composite_root_ok("load");
    assert!(root.success && root.value.is_none() && root.error.is_none());
}

#[test]
fn pick_outcome_answers_root_child_or_unknown() {
    let root = PollOutcome::composite_root_ok("load");
    let children = vec![
        PollOutcome::failed("load::1m", "bad".into()),
        PollOutcome::composite_root_ok("load::5m"),
    ];
    let r = pick_outcome("load", "load", root.clone_outcome(), Vec::new());
    assert_eq!(r.source, "load");
    assert!(r.success);
    let r = pick_outcome("load::1m", "load", root.clone_outcome(), children);
    assert_eq!(r.source, "load::1m");
    assert_eq!(r.error.as_deref(), Some("bad"));
    let r = pick_outcome("load::9m", "load", root, Vec::new());
    assert!(!r.success);
    assert_eq!(r.error.as_deref(), Some("not a declared child of this composite"));
}

#[test]
fn collector_runs_a_task_for_queries_and_streams_only() {
    let mut cfg = Config::default_config();
    cfg.sources = vec![query("cpu", None), ingest("hook"), stream("log"), query("load", Some(vec!["1m"]))];
    expand_composites(&mut cfg).unwrap();
    assert_eq!(collectible(&cfg), vec![0, 2, 3]);
    assert!(unpollable_reason(&cfg.sources[1]).is_some());
    assert!(unpollable_reason(&cfg.sources[0]).is_none());
}

#[test]
fn control_routes_send_children_to_their_root() {
    let mut cfg = Config::default_config();
    cfg.sources = vec![query("cpu", None), stream("log"), query("load", Some(vec!["1m", "5m"]))];
    expand_composites(&mut cfg).unwrap();
    let routes = control_routes(&cfg).unwrap();
    let pairs: Vec<(String, String)> = routes.into_iter().map(|r| (r.name, r.task)).collect();
    assert_eq!(
        pairs,
        vec![
            ("cpu".to_string(), "cpu".to_string()),
            ("load".to_string(), "load".to_string()),
            ("load::1m".to_string(), "load".to_string()),
            ("load::5m".to_string(), "load".to_string()),
        ]
    );
}

fn item(source: &str, value: &str) -> IngestItem {
    IngestItem { source: source.into(), value: IngestValue::Text(value.into()), ts: None, thresholds: None }
}

fn declared() -> Vec<String> {
    vec!["load::1m".to_string(), "load::5m".to_string(), "load::15m".to_string()]
}

#[test]
fn composite_fanout_locates_each_declared_childs_item() {
    let run = CompositeRun::Output(Ok(vec![item("load::5m", "0.5"), item("load::1m", "0.1"), item("load::1m", "9")]));
    let found = composite_fanout(&declared(), &run).unwrap();
    assert_eq!(found, vec![Some(1), Some(0), None], "first item per child; a missing child gets none");
}

#[test]
fn composite_fanout_fails_root_and_children_together() {
    let f = composite_fanout(&declared(), &CompositeRun::CommandFailed("exit status: 2".into())).unwrap_err();
    assert_eq!(f.root, "exit status: 2");
    assert_eq!(f.children, "composite command failed");
    let f = composite_fanout(&declared(), &CompositeRun::TimedOut("30s".into())).unwrap_err();
    assert_eq!(f.root, "timed out after 30s");
    assert_eq!(f.children, "composite command timed out");
    let f = composite_fanout(&declared(), &CompositeRun::Output(Err("expected value".into()))).unwrap_err();
    assert_eq!(f.root, "composite output is not a JSON array of ingest items: expected value");
    assert_eq!(f.children, "composite output was malformed");
    let run = CompositeRun::Output(Ok(vec![item("load::1m", "1"), item("load::2m", "2"), item("x", "3")]));
    let f = composite_fanout(&declared(), &run).unwrap_err();
    assert_eq!(f.root, "composite output names unknown child `load::2m`");
    assert_eq!(f.children, "a sibling entry failed validation");
}

#[test]
fn poll_plan_routes_children_through_their_root() {
    let mut cfg = Config::default_config();
    cfg.sources = vec![query("cpu", None), query("load", Some(vec!["1m"]))];
    expand_composites(&mut cfg).unwrap();
    let child = cfg.sources.iter().position(|s| s.name() == "load::1m").unwrap();
    let root = cfg.sources.iter().position(|s| s.name() == "load").unwrap();
    assert!(matches!(poll_plan(&cfg, &cfg.sources[child]), PollPlan::ThroughRoot(i) if i == root));
    assert!(matches!(poll_plan(&cfg, &cfg.sources[root]), PollPlan::Composite));
    assert!(matches!(poll_plan(&cfg, &cfg.sources[0]), PollPlan::Own));

    let orphan = cfg.sources[child].clone();
    cfg.sources.retain(|s| s.name() != "load");
    match poll_plan(&cfg, &orphan) {
        PollPlan::MissingRoot(m) => assert_eq!(m, "composite root `load` not found"),
        other => panic!("expected a missing root, got {other:?}"),
    }
}

#[test]
fn child_outcome_picks_the_child_or_reports_it_missing() {
    let children = vec![
        PollOutcome::failed("load::1m", "bad".into()),
        PollOutcome::composite_root_ok("load::5m"),
    ];
    let r = child_outcome("load::1m", children);
    assert_eq!(r.source, "load::1m");
    assert_eq!(r.error.as_deref(), Some("bad"));
    let r = child_outcome("load::15m", vec![PollOutcome::composite_root_ok("load::5m")]);
    assert_eq!(r.source, "load::15m");
    assert!(!r.success);
    assert_eq!(r.error.as_deref(), Some("child missing from composite result"));
}
