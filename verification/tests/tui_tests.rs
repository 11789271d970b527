use barduck::config::{Cell, Config, GroupItem, LayoutCfg, Level, SourceCfg, TuiWidth, UiView};
use barduck::db::ReadingRow;
use barduck::health::{Health, SourceHealth};
use barduck::tui::model::{apply_outcome, build_panel, Outcome, Panel, Slot, UiState};
use barduck::tui::view::{
    content_rect, lines, panel_widget, plain_label, quit_requested, KeyCode, KeyEvent, Rect,
};

fn key(code: KeyCode) -> Option<KeyEvent> {
    Some(KeyEvent { code, press: true, control: false })
}

#[test]
fn quit_keys_are_recognized() {
    assert!(quit_requested(key(KeyCode::Char('q'))));
    assert!(quit_requested(key(KeyCode::Esc)));
    assert!(quit_requested(Some(KeyEvent { code: KeyCode::Char('c'), press: true, control: true })));
    assert!(!quit_requested(key(KeyCode::Char('c'))));
    assert!(!quit_requested(key(KeyCode::Char('x'))));
    assert!(!quit_requested(key(KeyCode::Other)));
    assert!(!quit_requested(None));
    assert!(!quit_requested(Some(KeyEvent { code: KeyCode::Char('q'), press: false, control: false })));
}

#[test]
fn plain_label_only_for_non_healthy() {
    assert_eq!(plain_label(Health::Healthy), "");
    assert_eq!(plain_label(Health::Failing), " [failing]");
    assert_eq!(plain_label(Health::Stale), " [stale]");
}

fn area() -> Rect {
    Rect { x: 0, y: 0, width: 220, height: 40 }
}

#[test]
fn auto_width_stays_narrow_for_few_columns() {
    let rect = content_rect(area(), &TuiWidth::Named("auto".into()), 2);
    assert!(rect.width < area().width, "2 columns should not fill a 220-wide terminal");
    assert_eq!(rect.width, 60);
    assert_eq!(rect.x, 80);
}

#[test]
fn auto_width_grows_with_more_columns_but_stays_capped() {
    let narrow = content_rect(area(), &TuiWidth::Named("auto".into()), 2);
    let wide = content_rect(area(), &TuiWidth::Named("auto".into()), 6);
    assert!(wide.width > narrow.width, "more columns should use more space");
    assert!(wide.width <= area().width, "auto width must never exceed the terminal");
}

#[test]
fn fixed_width_caps_at_terminal_width() {
    let rect = content_rect(area(), &TuiWidth::Fixed(300), 2);
    assert_eq!(rect.width, 220, "fixed width larger than the terminal should be capped");
}

#[test]
fn empty_rows_keep_full_width() {
    let rect = content_rect(area(), &TuiWidth::Named("auto".into()), 0);
    assert_eq!(rect, area(), "nothing to size around should leave the area unchanged");
}

fn query(name: &str, show_in: Option<UiView>) -> SourceCfg {
    SourceCfg::Query {
        name: name.into(),
        title: None,
        interval: None,
        cron: None,
        retry_interval: None,
        timeout: 30_000_000_000,
        unit: None,
        setup: None,
        format: None,
        thresholds: Vec::new(),
        history_points: None,
        show_history: None,
        show_in,
        value_type: None,
        command: "echo 0".into(),
        children: None,
    }
}

fn cfg_with(sources: Vec<SourceCfg>, cells: Vec<Cell>) -> Config {
    let mut cfg = Config::default_config();
    cfg.sources = sources;
    cfg.layouts = vec![LayoutCfg { title: "L".into(), rows: vec![cells] }];
    barduck::config::validate(&cfg).unwrap();
    cfg
}

fn only_slot(cfg: &Config) -> Slot {
    let mut state = UiState { error: None, rows: Vec::new() };
    apply_outcome(cfg, Outcome::Data(Vec::new(), Vec::new()), &mut state);
    state.rows.remove(0).remove(0)
}

#[test]
fn hidden_source_cell_renders_as_space() {
    let cfg = cfg_with(vec![query("a", Some(UiView::Web))], vec![Cell::Source("a".into())]);
    let slot = only_slot(&cfg);
    assert!(slot.main.is_none());
}

#[test]
fn hidden_group_members_are_omitted() {
    let cfg = cfg_with(
        vec![query("a", Some(UiView::Web)), query("b", None)],
        vec![Cell::Group {
            title: Some("g".into()),
            main: Some(GroupItem::Id("a".into())),
            secondary: vec![GroupItem::Id("a".into()), GroupItem::Id("b".into())],
            table: vec![GroupItem::Labeled { id: "b".into(), label: "Bee".into() }],
        }],
    );
    let slot = only_slot(&cfg);
    assert!(slot.main.is_none());
    assert_eq!(slot.secondary.len(), 1);
    assert_eq!(slot.table[0].name, "Bee");
    assert_eq!(slot.group_title.as_deref(), Some("g"));
}

#[test]
fn failed_refresh_keeps_the_last_slots() {
    let cfg = cfg_with(vec![query("a", None)], vec![Cell::Source("a".into())]);
    let mut state = UiState { error: None, rows: Vec::new() };
    apply_outcome(&cfg, Outcome::Data(Vec::new(), Vec::new()), &mut state);
    apply_outcome(&cfg, Outcome::Failed("daemon down".into()), &mut state);
    assert_eq!(state.error.as_deref(), Some("daemon down"));
    assert_eq!(state.rows.len(), 1);
    apply_outcome(&cfg, Outcome::Data(Vec::new(), Vec::new()), &mut state);
    assert_eq!(state.error, None);
}

#[test]
fn panel_shows_the_latest_reading_and_health() {
    let cfg = cfg_with(vec![query("cpu", None)], vec![Cell::Source("cpu".into())]);
    let latest = vec![ReadingRow {
        source: "cpu".into(),
        value: "42".into(),
        number: None,
        unit: Some("%".into()),
        ts_ms: 5,
        ts: "t".into(),
    }];
    let healths = vec![SourceHealth {
        source: "cpu".into(),
        status: Health::Failing,
        consecutive_failures: 3,
        last_success_ts: None,
        thresholds: Vec::new(),
    }];
    let p = build_panel(&cfg, &latest, &healths, "cpu", Some("CPU"));
    assert_eq!(p.name, "CPU");
    assert_eq!(p.value, "42");
    assert_eq!(p.unit, "%");
    assert_eq!(p.status, Health::Failing);
    let missing = build_panel(&cfg, &[], &[], "cpu", None);
    assert_eq!(missing.value, "—");
    assert_eq!(missing.status, Health::Stale);
    assert_eq!(missing.name, "cpu");
}

fn tpanel(name: &str, value: &str, status: Health, level: Option<Level>) -> Panel {
    Panel { name: name.into(), value: value.into(), unit: String::new(), status, level, ts_ms: 0 }
}

#[test]
fn single_panel_splits_value_on_newlines() {
    let slot = Slot {
        span: 1,
        group_title: None,
        main: Some(tpanel("notes", "a\nb\nc", Health::Healthy, Some(Level::Red))),
        secondary: Vec::new(),
        table: Vec::new(),
        text: None,
    };
    let view = panel_widget(&slot, 0);
    assert_eq!(view.lines.len(), 3);
    assert_eq!(view.lines[1][0].text, "b");
    assert_eq!(view.title.text, " notes [healthy] ");
    assert_eq!(view.border, Some(Level::Red));
}

#[test]
fn text_panel_splits_on_newlines() {
    let slot = Slot {
        span: 1,
        group_title: Some("Links".into()),
        main: None,
        secondary: Vec::new(),
        table: Vec::new(),
        text: Some("one\ntwo".into()),
    };
    let view = panel_widget(&slot, 0);
    assert_eq!(view.title.text, " Links ");
    assert_eq!(view.lines.iter().map(|l| l[0].text.clone()).collect::<Vec<_>>(), vec!["one", "two"]);
    assert!(view.wrap);
}

#[test]
fn group_panel_unbanded_member_colors_red_with_plain_label() {
    let slot = Slot {
        span: 1,
        group_title: Some("g".into()),
        main: None,
        secondary: Vec::new(),
        table: vec![tpanel("disk", "90", Health::Failing, None)],
        text: None,
    };
    let view = panel_widget(&slot, 0);
    assert_eq!(view.border, Some(Level::Red));
    let line = &view.lines[0];
    assert_eq!(line[0].text, "disk: ");
    assert_eq!(line[1].style.fg, Some(Level::Red));
    assert_eq!(line[3].text, " [failing]");
}

#[test]
fn lines_follow_str_lines() {
    assert_eq!(lines("a\r\nb\n"), vec!["a", "b"]);
    assert!(lines("").is_empty());
    assert_eq!(lines("\n"), vec![""]);
    assert_eq!(lines("x\r"), vec!["x\r"]);
}
