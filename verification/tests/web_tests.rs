use barduck::config::Level;
use barduck::health::Health;
use barduck::web::markdown::{browser_normalized, is_safe_url, neutralize, render_markdown, MdEvent};
use barduck::web::panels::{
    border_style_for_color, column_starts, css_property_name, full_style_for_color,
    padded_history, style_override_to_css, style_string, text_style_for_color, Panel, Slot,
};
use barduck::config::{Cell, GroupItem, LayoutCfg, UiView, ValueFormat};
use barduck::web::grid::{collect_grids, columns_fit, overall_status, summary_chips};

#[test]
fn is_safe_url_accepts_allowlisted_and_relative_urls() {
    for url in [
        "http://example.com",
        "HTTPS://example.com",
        "mailto:a@example.com",
        "/relative/path",
        "#fragment",
        "?query=1",
        "plain-text-not-a-url",
    ] {
        assert!(is_safe_url(url), "expected safe: {url}");
    }
}

#[test]
fn is_safe_url_rejects_dangerous_schemes() {
    for url in [
        "javascript:alert(1)",
        "JaVaScRiPt:alert(1)",
        "data:text/html,<script>alert(1)</script>",
        "vbscript:msgbox(1)",
        "file:///etc/passwd",
    ] {
        assert!(!is_safe_url(url), "expected unsafe: {url}");
    }
}

#[test]
fn is_safe_url_rejects_schemes_hidden_by_stripped_characters() {
    for url in [
        "\tjavascript:alert(1)",
        "\njavascript:alert(1)",
        "java\tscript:alert(1)",
        "java\nscript:alert(1)",
        " \u{1}javascript:alert(1)",
        "\rdata:text/html,<script>alert(1)</script>",
    ] {
        assert!(!is_safe_url(url), "expected unsafe: {url:?}");
    }
}

#[test]
fn browser_normalized_strips_controls_as_the_browser_does() {
    assert_eq!(browser_normalized(" \u{1}java\tscr\nipt:x"), "javascript:x");
    assert_eq!(browser_normalized("a b"), "a b");
    let once = browser_normalized("\t \u{2}http://x");
    assert_eq!(browser_normalized(&once), once);
}

#[test]
fn style_string_no_override() {
    let result = style_string("grid-row: 1; grid-column: 2", "");
    assert_eq!(result, "grid-row: 1; grid-column: 2");
}

#[test]
fn style_string_with_override() {
    let result = style_string("grid-row: 1", "font-family: monospace");
    assert_eq!(result, "grid-row: 1; font-family: monospace");
}

#[test]
fn style_string_leading_semicolon_stripped() {
    let result = style_string("; grid-row: 1; grid-column: 3", "font-family: monospace");
    assert_eq!(result, "grid-row: 1; grid-column: 3; font-family: monospace");
}

#[test]
fn style_string_no_double_semicolons() {
    let result = style_string("grid-row: 1; ", "font-family: monospace;");
    assert!(!result.contains(";;"));
}

#[test]
fn style_string_trailing_semicolon_on_extra_stripped() {
    let result = style_string("grid-row: 1", "font-family: monospace;");
    assert_eq!(result, "grid-row: 1; font-family: monospace");
}

#[test]
fn css_property_name_converts_underscores_to_hyphens() {
    assert_eq!(css_property_name("font_family"), "font-family");
    assert_eq!(css_property_name("grid-column"), "grid-column");
}

#[test]
fn style_override_to_css_converts_keys_and_terminates_each_declaration() {
    let map = vec![("font_family".to_string(), "monospace".to_string())];
    let css = style_override_to_css(Some(&map));
    assert_eq!(css, "font-family: monospace;");
}

#[test]
fn style_override_to_css_empty_for_none_or_empty_map() {
    assert_eq!(style_override_to_css(None), "");
    assert_eq!(style_override_to_css(Some(&[])), "");
}

#[test]
fn slot_style_combines_base_and_override_as_valid_css() {
    let map = vec![("font_family".to_string(), "monospace".to_string())];
    let result = style_string("grid-row: 1; grid-column: 3 / span 1", &style_override_to_css(Some(&map)));
    assert_eq!(result, "grid-row: 1; grid-column: 3 / span 1; font-family: monospace");
}

#[test]
fn style_override_keeps_declaration_order() {
    let map = vec![
        ("font_size".to_string(), "12px".to_string()),
        ("color".to_string(), "red".to_string()),
    ];
    assert_eq!(style_override_to_css(Some(&map)), "font-size: 12px; color: red;");
}

#[test]
fn status_styles_use_the_status_tokens() {
    assert_eq!(full_style_for_color(None), "");
    assert!(full_style_for_color(Some(Level::Red)).starts_with("border-color:var(--status-red-border)"));
    assert_eq!(border_style_for_color(Level::Yellow), "border-color:var(--status-yellow-border)");
    assert_eq!(text_style_for_color(Some(Level::Green)), "color:var(--status-green-text)");
    assert_eq!(text_style_for_color(None), "");
}

fn panel(source: &str, status: Health, level: Option<Level>) -> Panel {
    Panel {
        source: source.into(),
        name: source.to_uppercase(),
        value: "42".into(),
        unit: "%".into(),
        status,
        level,
        format: ValueFormat::Text,
        ts_ms: 1_000,
        history: Vec::new(),
    }
}

#[test]
fn panel_texts_follow_status() {
    let p = panel("cpu", Health::Healthy, Some(Level::Yellow));
    assert_eq!(p.value_and_unit(), "42 %");
    assert_eq!(p.secondary_text(), "42 %");
    assert_eq!(p.plain_label(), None);
    assert_eq!(p.level_color(), Level::Yellow);
    let f = panel("cpu", Health::Failing, None);
    assert_eq!(f.secondary_text(), "FAILING");
    assert_eq!(f.plain_label(), Some("failing"));
    assert_eq!(f.chip_style(), "background-color:var(--status-red-border);color:var(--status-red-chip-fg)");
    assert_eq!(f.updated_ago(13_000), "12s ago");
    let mut never = panel("x", Health::Stale, None);
    never.ts_ms = 0;
    assert_eq!(never.updated_ago(13_000), "never");
}

#[test]
fn group_card_border_is_the_worst_member() {
    let slot = Slot {
        span: 1,
        col_start: 1,
        group_title: Some("g".into()),
        main: Some(panel("a", Health::Healthy, None)),
        secondary: vec![panel("b", Health::Stale, None)],
        table: vec![panel("c", Health::Healthy, Some(Level::Green))],
        text: None,
    };
    assert_eq!(slot.group_status_style(), "border-color:var(--status-yellow-border)");
    assert_eq!(slot.anchor(), Some("a"));
    let empty = Slot { span: 1, col_start: 1, group_title: None, main: None, secondary: Vec::new(), table: Vec::new(), text: None };
    assert_eq!(empty.anchor(), None);
}

#[test]
fn history_bar_pads_with_neutral_segments() {
    assert_eq!(padded_history(vec![Some(Level::Red)], 3), vec![None, None, Some(Level::Red)]);
    assert_eq!(padded_history(vec![Some(Level::Red), None], 1), vec![Some(Level::Red), None]);
}

#[test]
fn cells_start_after_the_spans_before_them() {
    let row = vec![
        Cell::Source("a".into()),
        Cell::Space { kind: "space".into(), colspan: Some(3) },
        Cell::Source("b".into()),
    ];
    assert_eq!(column_starts(&row), vec![1, 2, 5]);
}

#[test]
fn javascript_scheme_link_is_neutralized() {
    let html = render_markdown("[click me](javascript:alert(document.cookie))");
    assert!(
        !html.to_lowercase().contains("javascript:"),
        "javascript: scheme leaked into rendered HTML: {html}"
    );
}

#[test]
fn unsafe_schemes_neutralized_for_links_and_images() {
    for md in [
        "[x](data:text/html,<script>alert(1)</script>)",
        "![x](javascript:alert(1))",
        "[x](VBScript:msgbox(1))",
    ] {
        let html = render_markdown(md);
        assert!(
            !html.to_lowercase().contains("javascript:")
                && !html.to_lowercase().contains("data:")
                && !html.to_lowercase().contains("vbscript:"),
            "unsafe scheme leaked into rendered HTML for {md:?}: {html}"
        );
    }
}

#[test]
fn safe_link_schemes_pass_through() {
    for (md, want_fragment) in [
        ("[site](https://example.com/page)", "https://example.com/page"),
        ("[mail](mailto:a@example.com)", "mailto:a@example.com"),
        ("[rel](/dashboard)", "/dashboard"),
        ("[anchor](#panel-cpu)", "#panel-cpu"),
    ] {
        let html = render_markdown(md);
        assert!(
            html.contains(want_fragment),
            "expected {want_fragment:?} in rendered HTML for {md:?}: {html}"
        );
    }
}

#[test]
fn character_reference_hidden_scheme_is_neutralized() {
    for md in [
        "[x](&#9;javascript:alert&#40;1&#41;)",
        "[x](java&#9;script:alert&#40;1&#41;)",
        "![x](&#10;javascript:alert&#40;1&#41;)",
    ] {
        let html = render_markdown(md);
        let flat: String = html
            .to_lowercase()
            .chars()
            .filter(|c| !matches!(c, '\t' | '\n' | '\r'))
            .collect();
        assert!(!flat.contains("javascript:"), "javascript: survived for {md:?}: {html}");
    }
}

#[test]
fn raw_html_is_escaped_not_rendered() {
    let html = render_markdown("<script>alert(1)</script>text");
    assert!(!html.contains("<script>"));
}

#[test]
fn markdown_renders_tables_and_emphasis() {
    let html = render_markdown("*hi*\n\n| a | b |\n|---|---|\n| 1 | 2 |\n");
    assert!(html.contains("<em>hi</em>"), "{html}");
    assert!(html.contains("<table>"), "{html}");
}

#[test]
fn neutralize_turns_raw_html_into_text() {
    match neutralize(MdEvent::RawHtml("<b>".to_string())) {
        MdEvent::Text(t) => assert_eq!(t, "<b>"),
        _ => panic!("raw HTML should become text"),
    }
}

fn grid_source(name: &str, bands: bool, show_in: Option<UiView>) -> barduck::config::SourceCfg {
    barduck::config::SourceCfg::Query {
        name: name.into(),
        title: None,
        interval: None,
        cron: None,
        retry_interval: None,
        timeout: 30_000_000_000,
        unit: None,
        setup: None,
        format: None,
        thresholds: if bands {
            vec![
                barduck::config::Threshold { bound: grid_num(50.0), level: Level::Green },
                barduck::config::Threshold { bound: grid_num(90.0), level: Level::Red },
            ]
        } else {
            Vec::new()
        },
        history_points: Some(3),
        show_history: None,
        show_in,
        value_type: None,
        command: "echo 0".into(),
        children: None,
    }
}

fn grid_num(f: f64) -> barduck::num::Num {
    barduck::num::Num::from_bits(f.to_bits())
}

fn grid_reading(source: &str, value: f64, ts_ms: i64) -> barduck::db::ReadingRow {
    barduck::db::ReadingRow {
        source: source.into(),
        value: value.to_string(),
        number: Some(grid_num(value)),
        unit: None,
        ts_ms,
        ts: String::new(),
    }
}

fn grid_health(source: &str, status: Health, bands: &barduck::config::SourceCfg) -> barduck::health::SourceHealth {
    barduck::health::SourceHealth {
        source: source.into(),
        status,
        consecutive_failures: 0,
        last_success_ts: None,
        thresholds: bands.thresholds().to_vec(),
    }
}

fn grid_config() -> barduck::config::Config {
    let mut cfg = barduck::config::Config::default_config();
    cfg.sources = vec![
        grid_source("cpu", true, None),
        grid_source("mem", false, None),
        grid_source("tui_only", false, Some(UiView::Tui)),
    ];
    cfg.layouts = vec![LayoutCfg {
        title: "Main".into(),
        rows: vec![
            vec![
                Cell::Source("cpu".into()),
                Cell::Space { kind: "space".into(), colspan: Some(2) },
                Cell::Text { title: Some("Notes".into()), format: Some("markdown".into()), text: "*hi*".into() },
            ],
            vec![
                Cell::Group {
                    title: Some("Box".into()),
                    main: Some(GroupItem::Labeled { id: "mem".into(), label: "Memory".into() }),
                    secondary: vec![GroupItem::Id("tui_only".into()), GroupItem::Id("cpu".into())],
                    table: Vec::new(),
                },
                Cell::Source("tui_only".into()),
            ],
        ],
    }];
    cfg
}

#[test]
fn collect_grids_places_slots_and_builds_panels() {
    let cfg = grid_config();
    let latest = vec![grid_reading("cpu", 95.0, 1_000), grid_reading("mem", 10.0, 2_000)];
    let healths = vec![grid_health("cpu", Health::Healthy, &cfg.sources[0])];
    let recent = vec![(
        "cpu".to_string(),
        vec![grid_reading("cpu", 10.0, 1), grid_reading("cpu", 95.0, 2)],
    )];
    let grids = collect_grids(&cfg, &latest, &healths, &recent);
    assert_eq!(grids.len(), 1);
    let g = &grids[0];
    assert_eq!(g.title, "Main");
    assert_eq!(g.columns, 4);
    assert_eq!(g.rows.len(), 2);

    let row0 = &g.rows[0];
    assert_eq!(row0.iter().map(|s| s.col_start).collect::<Vec<_>>(), vec![1, 2, 4]);
    let cpu = row0[0].main.as_ref().unwrap();
    assert_eq!(cpu.name, "cpu");
    assert_eq!(cpu.value, "95");
    assert_eq!(cpu.status, Health::Healthy);
    assert_eq!(cpu.level, Some(Level::Red));
    assert_eq!(cpu.history, vec![None, Some(Level::Green), Some(Level::Red)]);
    assert!(row0[1].main.is_none() && row0[1].text.is_none());
    assert_eq!(row0[1].span, 2);
    let (format, text) = row0[2].text.clone().unwrap();
    assert_eq!(format, ValueFormat::Markdown);
    assert_eq!(text, "*hi*");
    assert_eq!(row0[2].group_title.as_deref(), Some("Notes"));

    let row1 = &g.rows[1];
    let main = row1[0].main.as_ref().unwrap();
    assert_eq!(main.name, "Memory");
    assert_eq!(main.status, Health::Stale, "no health entry reads as stale");
    assert_eq!(main.level, None);
    assert!(main.history.is_empty());
    assert_eq!(row1[0].secondary.len(), 1, "a member hidden from the web is left out");
    assert_eq!(row1[0].secondary[0].source, "cpu");
    assert!(row1[1].main.is_none(), "a hidden single source leaves an empty slot");

    let chips = summary_chips(&grids);
    let names: Vec<(&str, &str)> = chips.iter().map(|c| (c.name.as_str(), c.anchor.as_str())).collect();
    assert_eq!(names, vec![("cpu", "cpu"), ("Memory", "mem"), ("cpu", "mem")]);
    assert_eq!(overall_status(&chips), Level::Red);
}

#[test]
fn log_cells_show_outcome_duration_value_and_error() {
    use_log_cells();
}

fn use_log_cells() {
    let ok = barduck::db::LogRow {
        source: "cpu".into(),
        ts_ms: 0,
        ts: "2024-01-01T00:00:00+00:00".into(),
        duration_ms: 42,
        error: None,
        value: Some("0.5".into()),
        unit: None,
        origin: barduck::db::Origin::Poll,
    };
    let c = barduck::web::panels::log_cells(&ok);
    assert_eq!((c.time.as_str(), c.ok, c.outcome, c.duration.as_str()), ("2024-01-01T00:00:00+00:00", true, "ok", "42 ms"));
    assert_eq!((c.value.as_str(), c.error.as_str()), ("0.5", ""));
    let failed = barduck::db::LogRow { error: Some("boom".into()), value: None, duration_ms: -3, ..ok.clone_row() };
    let c = barduck::web::panels::log_cells(&failed);
    assert_eq!((c.ok, c.outcome, c.duration.as_str()), (false, "failed", "-3 ms"));
    assert_eq!((c.value.as_str(), c.error.as_str()), ("—", "boom"));
    assert_eq!(barduck::text::i64_to_string(i64::MIN), i64::MIN.to_string());
}

#[test]
fn style_string_never_starts_or_ends_with_a_semicolon() {
    assert_eq!(style_string("", "font-family: monospace"), "font-family: monospace");
    assert_eq!(style_string(" ; ", "; color: red;"), "color: red");
    assert_eq!(style_string("grid-row: 1", ";"), "grid-row: 1");
    assert_eq!(style_string("", ""), "");
}

#[test]
fn columns_fit_refuses_a_row_wider_than_the_machine_counts() {
    let mut cfg = barduck::config::Config::default_config();
    cfg.layouts = vec![LayoutCfg {
        title: "L".into(),
        rows: vec![vec![Cell::Space { kind: "gap".into(), colspan: Some(3) }]],
    }];
    assert!(columns_fit(&cfg));
    cfg.layouts[0].rows.push(vec![Cell::Space { kind: "gap".into(), colspan: Some(usize::MAX) }]);
    assert!(!columns_fit(&cfg));
}
