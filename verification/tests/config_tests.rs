use barduck::config::{
    apply_env_overrides_from, accent_color, default_interval, default_retry_interval,
    source_visible_in, status_color, validate, visible_items, worst_color, Cell, Config,
    GroupItem, LayoutCfg, Level, SourceCfg, TuiWidth, UiView, ValueType,
};
use barduck::health::Health;

const SECOND: u128 = 1_000_000_000;

fn query(name: &str) -> SourceCfg {
    SourceCfg::Query {
        name: name.into(),
        title: None,
        interval: None,
        cron: None,
        retry_interval: None,
        timeout: 30 * SECOND,
        unit: None,
        setup: None,
        format: None,
        thresholds: Vec::new(),
        history_points: None,
        show_history: None,
        show_in: None,
        value_type: None,
        command: "echo 0".into(),
        children: None,
    }
}

/// The `cpu` query source, adjusted by `f`.
fn cpu_with(f: impl FnOnce(&mut SourceCfg)) -> SourceCfg {
    let mut s = query("cpu");
    f(&mut s);
    s
}

fn set_interval(s: &mut SourceCfg, v: u128) {
    if let SourceCfg::Query { interval, .. } = s {
        *interval = Some(v);
    }
}

fn set_cron(s: &mut SourceCfg, v: &str) {
    if let SourceCfg::Query { cron, .. } = s {
        *cron = Some(v.into());
    }
}

fn set_retry(s: &mut SourceCfg, v: u128) {
    if let SourceCfg::Query { retry_interval, .. } = s {
        *retry_interval = Some(v);
    }
}

fn set_show_in(s: &mut SourceCfg, v: UiView) {
    if let SourceCfg::Query { show_in, .. } = s {
        *show_in = Some(v);
    }
}

fn config_with(sources: Vec<SourceCfg>, layouts: Vec<LayoutCfg>) -> Config {
    let mut cfg = Config::default_config();
    cfg.sources = sources;
    cfg.layouts = layouts;
    cfg
}

fn one_cell_layout(cell: Cell) -> LayoutCfg {
    LayoutCfg { title: "L".into(), rows: vec![vec![cell]] }
}

fn group(title: Option<&str>, main: Option<&str>, secondary: &[&str], table: &[&str]) -> Cell {
    Cell::Group {
        title: title.map(Into::into),
        main: main.map(|m| GroupItem::Id(m.into())),
        secondary: secondary.iter().map(|s| GroupItem::Id((*s).into())).collect(),
        table: table.iter().map(|s| GroupItem::Id((*s).into())).collect(),
    }
}

fn group_config(cell: Cell) -> Config {
    config_with(vec![query("cpu")], vec![one_cell_layout(cell)])
}

fn err_text(cfg: &Config) -> String {
    validate(cfg).unwrap_err().message()
}

fn pairs(p: &[(&str, &str)]) -> Vec<(String, String)> {
    p.iter().map(|(k, v)| ((*k).to_string(), (*v).to_string())).collect()
}

// Scenarios shared by both copies of the configuration tests.

fn check_invalid_tui_width_string_rejected() {
    let mut cfg = Config::default_config();
    cfg.tui_width = TuiWidth::Named("wide".into());
    let err = err_text(&cfg);
    assert!(err.contains("wide"), "error should name the invalid value: {err}");
}

fn check_zero_tui_width_rejected() {
    let mut cfg = Config::default_config();
    cfg.tui_width = TuiWidth::Fixed(0);
    let err = err_text(&cfg);
    assert!(err.contains("tui_width"), "error should name the field: {err}");
}

fn check_show_history_false_parses() {
    let cfg = config_with(
        vec![cpu_with(|s| {
            if let SourceCfg::Query { show_history, .. } = s {
                *show_history = Some(false);
            }
        })],
        Vec::new(),
    );
    validate(&cfg).unwrap();
    assert_eq!(cfg.sources[0].show_history(), Some(false));
}

fn check_humantime_duration_parses_and_applies() {
    let cfg = config_with(
        vec![cpu_with(|s| {
            set_interval(s, 300 * SECOND);
            if let SourceCfg::Query { timeout, .. } = s {
                *timeout = 30 * SECOND;
            }
        })],
        Vec::new(),
    );
    validate(&cfg).unwrap();
    assert_eq!(cfg.sources[0].interval(), Some(300 * SECOND));
    assert_eq!(cfg.sources[0].timeout(), 30 * SECOND);
}

fn check_cron_schedule_accepted() {
    let cfg = config_with(vec![cpu_with(|s| set_cron(s, "0 0 3 * * *"))], Vec::new());
    validate(&cfg).unwrap();
    assert_eq!(cfg.sources[0].cron(), Some("0 0 3 * * *"));
    assert_eq!(cfg.sources[0].interval(), None);
}

fn check_effective_interval_falls_back_to_default_when_unset() {
    let s = cpu_with(|s| set_cron(s, "0 0 3 * * *"));
    assert_eq!(s.effective_interval(), default_interval());
}

fn check_effective_retry_interval_falls_back_to_default_when_unset() {
    assert_eq!(query("cpu").effective_retry_interval(), default_retry_interval());
}

fn check_effective_retry_interval_uses_declared_value() {
    let cfg = config_with(vec![cpu_with(|s| set_retry(s, 10 * SECOND))], Vec::new());
    validate(&cfg).unwrap();
    assert_eq!(cfg.sources[0].effective_retry_interval(), 10 * SECOND);
}

fn check_both_interval_and_cron_rejected() {
    let cfg = config_with(
        vec![cpu_with(|s| {
            set_interval(s, 300 * SECOND);
            set_cron(s, "0 */5 * * * *");
        })],
        Vec::new(),
    );
    let err = err_text(&cfg);
    assert!(err.contains("interval") && err.contains("cron"), "error should name both fields: {err}");
}

fn check_zero_retry_interval_rejected() {
    let cfg = config_with(vec![cpu_with(|s| set_retry(s, 0))], Vec::new());
    let err = err_text(&cfg);
    assert!(err.contains("retry_interval"), "error should name the field: {err}");
}

fn check_retry_interval_with_cron_rejected() {
    let cfg = config_with(
        vec![cpu_with(|s| {
            set_cron(s, "0 */5 * * * *");
            set_retry(s, 10 * SECOND);
        })],
        Vec::new(),
    );
    let err = err_text(&cfg);
    assert!(
        err.contains("retry_interval") && err.contains("cron"),
        "error should name both fields: {err}"
    );
}

fn check_interval_and_retry_interval_together_accepted() {
    let cfg = config_with(
        vec![cpu_with(|s| {
            set_interval(s, 300 * SECOND);
            set_retry(s, 10 * SECOND);
        })],
        Vec::new(),
    );
    validate(&cfg).unwrap();
    assert_eq!(cfg.sources[0].effective_retry_interval(), 10 * SECOND);
}

fn check_invalid_cron_expression_rejected() {
    let cfg = config_with(vec![cpu_with(|s| set_cron(s, "not a cron"))], Vec::new());
    let err = err_text(&cfg);
    assert!(err.contains("cron"), "error should mention the invalid cron expression: {err}");
}

fn check_group_cell_span_and_title() {
    let cell = Cell::Group {
        title: Some("ihor".into()),
        main: None,
        secondary: Vec::new(),
        table: vec![GroupItem::Id("a".into())],
    };
    assert_eq!(cell.span(), 1);
    assert_eq!(cell.pane_title(), Some("ihor"));
}

fn check_text_cell_span_title_and_source_names() {
    let cell = Cell::Text {
        title: Some("Links".into()),
        format: Some("markdown".into()),
        text: "- [GitHub](https://github.com)".into(),
    };
    assert_eq!(cell.span(), 1);
    assert_eq!(cell.pane_title(), Some("Links"));
    assert!(cell.source_names().is_empty(), "a text cell has no backing source");
}

fn check_text_cell_without_title_has_no_pane_title() {
    let cell = Cell::Text { title: None, format: None, text: "note".into() };
    assert_eq!(cell.pane_title(), None);
}

fn check_valid_text_cell_accepted() {
    let cfg = config_with(
        Vec::new(),
        vec![one_cell_layout(Cell::Text { title: None, format: None, text: "hi".into() })],
    );
    validate(&cfg).unwrap();
}

fn check_text_cell_empty_text_rejected() {
    let cfg = config_with(
        Vec::new(),
        vec![one_cell_layout(Cell::Text {
            title: Some("Links".into()),
            format: None,
            text: String::new(),
        })],
    );
    let err = err_text(&cfg);
    assert!(err.contains("empty text"), "error should mention the empty text panel: {err}");
}

fn check_text_cell_invalid_format_rejected() {
    let cfg = config_with(
        Vec::new(),
        vec![one_cell_layout(Cell::Text {
            title: None,
            format: Some("yaml".into()),
            text: "hi".into(),
        })],
    );
    let err = err_text(&cfg);
    assert!(err.contains("yaml"), "error should name the invalid format: {err}");
}

fn check_accent_color_prioritizes_health_over_a_stale_band() {
    assert_eq!(accent_color(Some(Level::Green), Health::Failing), Some(Level::Red));
    assert_eq!(accent_color(Some(Level::Green), Health::Stale), Some(Level::Yellow));
    assert_eq!(accent_color(None, Health::Failing), Some(Level::Red));
    assert_eq!(accent_color(None, Health::Stale), Some(Level::Yellow));
    assert_eq!(accent_color(Some(Level::Red), Health::Healthy), Some(Level::Red));
    assert_eq!(accent_color(None, Health::Healthy), None);
}

fn check_status_color_falls_back_to_green_when_accent_color_is_none() {
    assert_eq!(status_color(None, Health::Healthy), Level::Green);
    assert_eq!(status_color(None, Health::Failing), Level::Red);
}

fn check_worst_color_ranks_red_over_yellow_over_green() {
    assert_eq!(worst_color(&[Level::Green, Level::Yellow, Level::Red]), Level::Red);
    assert_eq!(worst_color(&[Level::Green, Level::Yellow]), Level::Yellow);
    assert_eq!(worst_color(&[Level::Green, Level::Green]), Level::Green);
    assert_eq!(worst_color(&[]), Level::Green);
}

fn check_group_item_explicit_label_none_for_bare_id() {
    assert_eq!(GroupItem::Id("vds-base1".into()).explicit_label(), None);
    assert_eq!(
        GroupItem::Labeled { id: "vds-base1".into(), label: "days left".into() }.explicit_label(),
        Some("days left")
    );
}

fn check_group_cell_source_names_lists_every_member() {
    let cell = Cell::Group {
        title: Some("ihor".into()),
        main: Some(GroupItem::Id("a".into())),
        secondary: vec![GroupItem::Labeled { id: "b".into(), label: "B".into() }],
        table: vec![GroupItem::Id("c".into())],
    };
    assert_eq!(cell.source_names(), vec!["a", "b", "c"]);
}

fn check_valid_group_cell_accepted() {
    validate(&group_config(group(Some("ihor"), None, &[], &["cpu"]))).unwrap();
}

fn check_valid_group_cell_with_only_main_accepted() {
    validate(&group_config(group(Some("ihor"), Some("cpu"), &[], &[]))).unwrap();
}

fn check_group_cell_combining_main_secondary_table_accepted() {
    validate(&group_config(group(Some("ihor"), Some("cpu"), &["cpu"], &["cpu"]))).unwrap();
}

fn check_group_cell_empty_title_rejected() {
    let err = err_text(&group_config(group(Some(""), None, &[], &["cpu"])));
    assert!(err.contains("empty title"), "error should mention empty title: {err}");
}

fn check_group_cell_without_title_accepted() {
    validate(&group_config(group(None, None, &["cpu"], &[]))).unwrap();
}

fn check_group_cell_with_no_sections_rejected() {
    let err = err_text(&group_config(group(Some("ihor"), None, &[], &[])));
    assert!(err.contains("main/secondary/table"), "error should mention the empty group: {err}");
}

fn check_group_cell_unknown_source_in_main_rejected() {
    let err = err_text(&group_config(group(Some("ihor"), Some("nope"), &[], &[])));
    assert!(err.contains("nope"), "error should name the unknown source: {err}");
}

fn check_group_cell_unknown_source_in_secondary_rejected() {
    let err = err_text(&group_config(group(Some("ihor"), None, &["nope"], &[])));
    assert!(err.contains("nope"), "error should name the unknown source: {err}");
}

fn check_group_cell_unknown_source_in_table_rejected() {
    let err = err_text(&group_config(group(Some("ihor"), None, &[], &["nope"])));
    assert!(err.contains("nope"), "error should name the unknown source: {err}");
}

fn check_env_var_overrides_config_file_value() {
    let mut cfg = Config::default_config();
    cfg.listen = "127.0.0.1:8420".into();
    apply_env_overrides_from(&mut cfg, &pairs(&[("BARDUCK_LISTEN", "0.0.0.0:9000")])).unwrap();
    assert_eq!(cfg.listen, "0.0.0.0:9000");
}

fn check_env_var_overrides_default() {
    let mut cfg = Config::default_config();
    apply_env_overrides_from(&mut cfg, &pairs(&[("BARDUCK_HISTORY_POINTS", "100")])).unwrap();
    assert_eq!(cfg.history_points, 100);
}

fn check_no_env_var_leaves_config_value_unchanged() {
    let mut cfg = Config::default_config();
    cfg.failure_threshold = 5;
    apply_env_overrides_from(&mut cfg, &pairs(&[])).unwrap();
    assert_eq!(cfg.failure_threshold, 5);
}

fn check_unparseable_env_override_rejected() {
    let mut cfg = Config::default_config();
    let err = apply_env_overrides_from(&mut cfg, &pairs(&[("BARDUCK_INTERVAL", "not-a-duration")]))
        .unwrap_err()
        .message();
    assert!(err.contains("BARDUCK_INTERVAL"), "error should name the variable: {err}");
}

fn check_value_type_defaults_to_string_when_unset() {
    let cfg = config_with(vec![query("cpu")], Vec::new());
    validate(&cfg).unwrap();
    assert_eq!(cfg.sources[0].value_type(), None);
    assert_eq!(cfg.sources[0].effective_value_type(), ValueType::String);
}

fn check_value_type_bigint_double_json_parse() {
    for expected in [ValueType::Bigint, ValueType::Double, ValueType::Json] {
        let cfg = config_with(
            vec![cpu_with(|s| {
                if let SourceCfg::Query { value_type, .. } = s {
                    *value_type = Some(expected);
                }
            })],
            Vec::new(),
        );
        validate(&cfg).unwrap();
        assert_eq!(cfg.sources[0].effective_value_type(), expected);
    }
}

fn check_show_in_defaults_to_visible_everywhere() {
    let cfg = config_with(vec![query("cpu")], Vec::new());
    validate(&cfg).unwrap();
    assert_eq!(cfg.sources[0].show_in(), None);
    assert!(cfg.sources[0].visible_in(UiView::Tui));
    assert!(cfg.sources[0].visible_in(UiView::Web));
}

fn check_show_in_restricts_to_one_view() {
    let cfg = config_with(vec![cpu_with(|s| set_show_in(s, UiView::Tui))], Vec::new());
    validate(&cfg).unwrap();
    assert!(cfg.sources[0].visible_in(UiView::Tui));
    assert!(!cfg.sources[0].visible_in(UiView::Web));
}

fn check_source_visible_in_true_for_unknown_source() {
    let cfg = Config::default_config();
    assert!(source_visible_in(&cfg, "nope", UiView::Tui));
}

fn check_source_visible_in_matches_source_show_in() {
    let cfg = config_with(vec![cpu_with(|s| set_show_in(s, UiView::Web))], Vec::new());
    assert!(!source_visible_in(&cfg, "cpu", UiView::Tui));
    assert!(source_visible_in(&cfg, "cpu", UiView::Web));
}

fn check_visible_items_omits_hidden_members() {
    let mut a = query("a");
    set_show_in(&mut a, UiView::Web);
    let cfg = config_with(vec![a, query("b")], Vec::new());
    let items = vec![GroupItem::Id("a".into()), GroupItem::Id("b".into())];
    let visible = visible_items(&cfg, &items, UiView::Tui);
    assert_eq!(visible.iter().map(|i| i.id()).collect::<Vec<_>>(), vec!["b"]);
}

fn check_visible_items_empty_when_all_members_hidden() {
    let cfg = config_with(vec![cpu_with(|s| set_show_in(s, UiView::Web))], Vec::new());
    let items = vec![GroupItem::Id("cpu".into())];
    assert!(visible_items(&cfg, &items, UiView::Tui).is_empty());
}

#[test]
fn config_invalid_tui_width_string_rejected() { check_invalid_tui_width_string_rejected(); }
#[test]
fn mod_invalid_tui_width_string_rejected() { check_invalid_tui_width_string_rejected(); }
#[test]
fn config_zero_tui_width_rejected() { check_zero_tui_width_rejected(); }
#[test]
fn mod_zero_tui_width_rejected() { check_zero_tui_width_rejected(); }
#[test]
fn config_show_history_false_parses() { check_show_history_false_parses(); }
#[test]
fn mod_show_history_false_parses() { check_show_history_false_parses(); }
#[test]
fn config_humantime_duration_parses_and_applies() { check_humantime_duration_parses_and_applies(); }
#[test]
fn mod_humantime_duration_parses_and_applies() { check_humantime_duration_parses_and_applies(); }
#[test]
fn config_cron_schedule_accepted() { check_cron_schedule_accepted(); }
#[test]
fn mod_cron_schedule_accepted() { check_cron_schedule_accepted(); }
#[test]
fn config_effective_interval_falls_back_to_default_when_unset() { check_effective_interval_falls_back_to_default_when_unset(); }
#[test]
fn mod_effective_interval_falls_back_to_default_when_unset() { check_effective_interval_falls_back_to_default_when_unset(); }
#[test]
fn config_effective_retry_interval_falls_back_to_default_when_unset() { check_effective_retry_interval_falls_back_to_default_when_unset(); }
#[test]
fn mod_effective_retry_interval_falls_back_to_default_when_unset() { check_effective_retry_interval_falls_back_to_default_when_unset(); }
#[test]
fn config_effective_retry_interval_uses_declared_value() { check_effective_retry_interval_uses_declared_value(); }
#[test]
fn mod_effective_retry_interval_uses_declared_value() { check_effective_retry_interval_uses_declared_value(); }
#[test]
fn config_both_interval_and_cron_rejected() { check_both_interval_and_cron_rejected(); }
#[test]
fn mod_both_interval_and_cron_rejected() { check_both_interval_and_cron_rejected(); }
#[test]
fn config_zero_retry_interval_rejected() { check_zero_retry_interval_rejected(); }
#[test]
fn mod_zero_retry_interval_rejected() { check_zero_retry_interval_rejected(); }
#[test]
fn config_retry_interval_with_cron_rejected() { check_retry_interval_with_cron_rejected(); }
#[test]
fn mod_retry_interval_with_cron_rejected() { check_retry_interval_with_cron_rejected(); }
#[test]
fn config_interval_and_retry_interval_together_accepted() { check_interval_and_retry_interval_together_accepted(); }
#[test]
fn mod_interval_and_retry_interval_together_accepted() { check_interval_and_retry_interval_together_accepted(); }
#[test]
fn config_invalid_cron_expression_rejected() { check_invalid_cron_expression_rejected(); }
#[test]
fn mod_invalid_cron_expression_rejected() { check_invalid_cron_expression_rejected(); }
#[test]
fn config_group_cell_span_and_title() { check_group_cell_span_and_title(); }
#[test]
fn mod_group_cell_span_and_title() { check_group_cell_span_and_title(); }
#[test]
fn config_text_cell_span_title_and_source_names() { check_text_cell_span_title_and_source_names(); }
#[test]
fn mod_text_cell_span_title_and_source_names() { check_text_cell_span_title_and_source_names(); }
#[test]
fn config_text_cell_without_title_has_no_pane_title() { check_text_cell_without_title_has_no_pane_title(); }
#[test]
fn mod_text_cell_without_title_has_no_pane_title() { check_text_cell_without_title_has_no_pane_title(); }
#[test]
fn config_valid_text_cell_accepted() { check_valid_text_cell_accepted(); }
#[test]
fn mod_valid_text_cell_accepted() { check_valid_text_cell_accepted(); }
#[test]
fn config_text_cell_empty_text_rejected() { check_text_cell_empty_text_rejected(); }
#[test]
fn mod_text_cell_empty_text_rejected() { check_text_cell_empty_text_rejected(); }
#[test]
fn config_text_cell_invalid_format_rejected() { check_text_cell_invalid_format_rejected(); }
#[test]
fn mod_text_cell_invalid_format_rejected() { check_text_cell_invalid_format_rejected(); }
#[test]
fn config_accent_color_prioritizes_health_over_a_stale_band() { check_accent_color_prioritizes_health_over_a_stale_band(); }
#[test]
fn mod_accent_color_prioritizes_health_over_a_stale_band() { check_accent_color_prioritizes_health_over_a_stale_band(); }
#[test]
fn config_status_color_falls_back_to_green_when_accent_color_is_none() { check_status_color_falls_back_to_green_when_accent_color_is_none(); }
#[test]
fn mod_status_color_falls_back_to_green_when_accent_color_is_none() { check_status_color_falls_back_to_green_when_accent_color_is_none(); }
#[test]
fn config_worst_color_ranks_red_over_yellow_over_green() { check_worst_color_ranks_red_over_yellow_over_green(); }
#[test]
fn mod_worst_color_ranks_red_over_yellow_over_green() { check_worst_color_ranks_red_over_yellow_over_green(); }
#[test]
fn config_group_item_explicit_label_none_for_bare_id() { check_group_item_explicit_label_none_for_bare_id(); }
#[test]
fn mod_group_item_explicit_label_none_for_bare_id() { check_group_item_explicit_label_none_for_bare_id(); }
#[test]
fn config_group_cell_source_names_lists_every_member() { check_group_cell_source_names_lists_every_member(); }
#[test]
fn mod_group_cell_source_names_lists_every_member() { check_group_cell_source_names_lists_every_member(); }
#[test]
fn config_valid_group_cell_accepted() { check_valid_group_cell_accepted(); }
#[test]
fn mod_valid_group_cell_accepted() { check_valid_group_cell_accepted(); }
#[test]
fn config_valid_group_cell_with_only_main_accepted() { check_valid_group_cell_with_only_main_accepted(); }
#[test]
fn mod_valid_group_cell_with_only_main_accepted() { check_valid_group_cell_with_only_main_accepted(); }
#[test]
fn config_group_cell_combining_main_secondary_table_accepted() { check_group_cell_combining_main_secondary_table_accepted(); }
#[test]
fn mod_group_cell_combining_main_secondary_table_accepted() { check_group_cell_combining_main_secondary_table_accepted(); }
#[test]
fn config_group_cell_empty_title_rejected() { check_group_cell_empty_title_rejected(); }
#[test]
fn mod_group_cell_empty_title_rejected() { check_group_cell_empty_title_rejected(); }
#[test]
fn config_group_cell_without_title_accepted() { check_group_cell_without_title_accepted(); }
#[test]
fn mod_group_cell_without_title_accepted() { check_group_cell_without_title_accepted(); }
#[test]
fn config_group_cell_with_no_sections_rejected() { check_group_cell_with_no_sections_rejected(); }
#[test]
fn mod_group_cell_with_no_sections_rejected() { check_group_cell_with_no_sections_rejected(); }
#[test]
fn config_group_cell_unknown_source_in_main_rejected() { check_group_cell_unknown_source_in_main_rejected(); }
#[test]
fn mod_group_cell_unknown_source_in_main_rejected() { check_group_cell_unknown_source_in_main_rejected(); }
#[test]
fn config_group_cell_unknown_source_in_secondary_rejected() { check_group_cell_unknown_source_in_secondary_rejected(); }
#[test]
fn mod_group_cell_unknown_source_in_secondary_rejected() { check_group_cell_unknown_source_in_secondary_rejected(); }
#[test]
fn config_group_cell_unknown_source_in_table_rejected() { check_group_cell_unknown_source_in_table_rejected(); }
#[test]
fn mod_group_cell_unknown_source_in_table_rejected() { check_group_cell_unknown_source_in_table_rejected(); }
#[test]
fn config_env_var_overrides_config_file_value() { check_env_var_overrides_config_file_value(); }
#[test]
fn mod_env_var_overrides_config_file_value() { check_env_var_overrides_config_file_value(); }
#[test]
fn config_env_var_overrides_default() { check_env_var_overrides_default(); }
#[test]
fn mod_env_var_overrides_default() { check_env_var_overrides_default(); }
#[test]
fn config_no_env_var_leaves_config_value_unchanged() { check_no_env_var_leaves_config_value_unchanged(); }
#[test]
fn mod_no_env_var_leaves_config_value_unchanged() { check_no_env_var_leaves_config_value_unchanged(); }
#[test]
fn config_unparseable_env_override_rejected() { check_unparseable_env_override_rejected(); }
#[test]
fn mod_unparseable_env_override_rejected() { check_unparseable_env_override_rejected(); }
#[test]
fn value_type_defaults_to_string_when_unset() { check_value_type_defaults_to_string_when_unset(); }
#[test]
fn value_type_bigint_double_json_parse() { check_value_type_bigint_double_json_parse(); }
#[test]
fn config_show_in_defaults_to_visible_everywhere() { check_show_in_defaults_to_visible_everywhere(); }
#[test]
fn mod_show_in_defaults_to_visible_everywhere() { check_show_in_defaults_to_visible_everywhere(); }
#[test]
fn config_show_in_restricts_to_one_view() { check_show_in_restricts_to_one_view(); }
#[test]
fn mod_show_in_restricts_to_one_view() { check_show_in_restricts_to_one_view(); }
#[test]
fn config_source_visible_in_true_for_unknown_source() { check_source_visible_in_true_for_unknown_source(); }
#[test]
fn mod_source_visible_in_true_for_unknown_source() { check_source_visible_in_true_for_unknown_source(); }
#[test]
fn config_source_visible_in_matches_source_show_in() { check_source_visible_in_matches_source_show_in(); }
#[test]
fn mod_source_visible_in_matches_source_show_in() { check_source_visible_in_matches_source_show_in(); }
#[test]
fn config_visible_items_omits_hidden_members() { check_visible_items_omits_hidden_members(); }
#[test]
fn mod_visible_items_omits_hidden_members() { check_visible_items_omits_hidden_members(); }
#[test]
fn config_visible_items_empty_when_all_members_hidden() { check_visible_items_empty_when_all_members_hidden(); }
#[test]
fn mod_visible_items_empty_when_all_members_hidden() { check_visible_items_empty_when_all_members_hidden(); }

#[test]
fn decimal_text_reads_back_as_the_same_number() {
    for n in [0u64, 7, 42, 1000, u64::from(u32::MAX)] {
        let text = barduck::text::u64_to_string(n);
        assert_eq!(text, n.to_string());
        assert_eq!(u64::from(barduck::config::parse_env_u32("BARDUCK_X", &text).unwrap()), n);
    }
    assert!(barduck::config::parse_env_u32("BARDUCK_X", &barduck::text::u64_to_string(u64::from(u32::MAX) + 1)).is_err());
}

#[test]
fn worst_color_of_parts_and_with_green() {
    let a = [Level::Green, Level::Yellow];
    let b = [Level::Green];
    let ab: Vec<Level> = a.iter().chain(b.iter()).copied().collect();
    assert_eq!(worst_color(&ab), worst_color(&[worst_color(&a), worst_color(&b)]));
    assert_eq!(worst_color(&[Level::Red, Level::Green]), worst_color(&[worst_color(&[Level::Red]), worst_color(&[Level::Green])]));
    let mut with_green = a.to_vec();
    with_green.push(Level::Green);
    assert_eq!(worst_color(&with_green), worst_color(&a));
    assert_eq!(worst_color(&[Level::Green]), worst_color(&[]));
}

#[test]
fn env_duration_with_too_many_digits_is_refused() {
    let mut cfg = Config::default_config();
    let before = cfg.interval;
    let err = apply_env_overrides_from(
        &mut cfg,
        &pairs(&[("BARDUCK_INTERVAL", "18446744073709551615s 1000000000ns")]),
    )
    .unwrap_err()
    .message();
    assert!(err.contains("BARDUCK_INTERVAL"), "error should name the variable: {err}");
    assert_eq!(cfg.interval, before);
}

#[test]
fn env_duration_with_eleven_digits_is_accepted() {
    let mut cfg = Config::default_config();
    apply_env_overrides_from(&mut cfg, &pairs(&[("BARDUCK_INTERVAL", "99999999999s")])).unwrap();
    assert_eq!(cfg.interval, 99_999_999_999 * SECOND);
}

#[test]
fn layout_problems_name_rows_counted_from_one() {
    let first = config_with(
        vec![query("cpu")],
        vec![LayoutCfg { title: "L".into(), rows: vec![vec![Cell::Source("nope".into())]] }],
    );
    let err = validate(&first).unwrap_err().message();
    assert!(err.contains("layout `L` row 1"), "{err}");
    let second = config_with(
        vec![query("cpu")],
        vec![LayoutCfg {
            title: "L".into(),
            rows: vec![vec![Cell::Source("cpu".into())], vec![Cell::Source("nope".into())]],
        }],
    );
    let err = validate(&second).unwrap_err().message();
    assert!(err.contains("layout `L` row 2"), "{err}");
}
