//! The web dashboard's grid: each panel's data and history bar, the kind
//! of card each slot draws, and the summary strip of chips.

use vstd::prelude::*;
use crate::config::Config;
use crate::config::layout::{Cell, LayoutCfg, ValueFormat, cell_span, layout_columns, row_width, rows_of};
use crate::config::source::{
    GroupItem, Level, Threshold, UiView, derefs, find_source, find_source_index, group_item_id,
    opt_view, source_visible_in, spec_level_for, spec_source_visible_in, spec_status_color,
    spec_worst_color, src_format, src_history_points, src_show_history, visible_filter,
    visible_items, level_for, worst_color,
};
use crate::db::ReadingRow;
use crate::health::{Health, SourceHealth};
use crate::tui::model::{find_health, find_reading, health_index, item_label, panel_label, reading_index};
use crate::web::panels::{Panel, Slot, padded_history, slot_members, spec_padded_history};
use crate::text::{cat, str_eq};

verus! {

/// How many recent readings a panel's history bar shows, or `None` when it
/// shows none: a bar needs bands and a known source that does not turn it
/// off; its length is the source's own `history_points`, else the
/// configuration's.
pub open spec fn spec_history_points(cfg: Config, name: Seq<char>, has_bands: bool) -> Option<u32> {
    match find_source(cfg.sources@, name) {
        Some(s) => if has_bands && src_show_history(s) != Some(false) {
            match src_history_points(s) {
                Some(n) => Some(n),
                None => Some(cfg.history_points),
            }
        } else {
            None
        },
        None => None,
    }
}

pub fn history_points_for(cfg: &Config, name: &str, has_bands: bool) -> (r: Option<u32>)
    ensures
        r == spec_history_points(*cfg, name@, has_bands),
        find_source(cfg.sources@, name@) matches Some(s) && src_show_history(s) == Some(false)
            ==> r is None,
{
    match find_source_index(&cfg.sources, name) {
        Some(i) => {
            let s = &cfg.sources[i];
            if has_bands && s.show_history() != Some(false) {
                match s.history_points() {
                    Some(n) => Some(n),
                    None => Some(cfg.history_points),
                }
            } else {
                None
            }
        },
        None => None,
    }
}

/// The bands of the recent readings (oldest first).
pub open spec fn bands_of(bands: Seq<Threshold>, recent: Seq<ReadingRow>) -> Seq<Option<Level>> {
    recent.map_values(|r: ReadingRow| spec_level_for(bands, r.number))
}

/// Whether `p` is the web panel for `name`: label, latest value and unit,
/// health (stale when unknown), the value's band, the source's format
/// (text by default), the reading's time, and — when the source shows a
/// bar of `n` readings — the bands of `recent` padded to `n`.
pub open spec fn web_panel_for(
    p: Panel,
    cfg: Config,
    latest: Seq<ReadingRow>,
    health: Option<SourceHealth>,
    name: Seq<char>,
    title: Option<Seq<char>>,
    recent: Seq<ReadingRow>,
) -> bool {
    let row = find_reading(latest, name);
    let bands: Seq<Threshold> = match health {
        Some(h) => h.thresholds@,
        None => Seq::empty(),
    };
    &&& p.source@ == name
    &&& p.name@ == panel_label(cfg, name, title)
    &&& p.value@ == (match row {
        Some(r) => r.value@,
        None => "—"@,
    })
    &&& p.unit@ == (match row {
        Some(r) => match r.unit {
            Some(u) => u@,
            None => Seq::empty(),
        },
        None => Seq::empty(),
    })
    &&& p.status == (match health {
        Some(h) => h.status,
        None => Health::Stale,
    })
    &&& p.level == (match row {
        Some(r) => if bands.len() > 0 {
            spec_level_for(bands, r.number)
        } else {
            None
        },
        None => None,
    })
    &&& p.format == (match find_source(cfg.sources@, name) {
        Some(s) => match src_format(s) {
            Some(f) => f,
            None => ValueFormat::Text,
        },
        None => ValueFormat::Text,
    })
    &&& p.ts_ms == (match row {
        Some(r) => r.ts_ms,
        None => 0,
    })
    &&& p.history@ == (match spec_history_points(cfg, name, bands.len() > 0) {
        Some(n) => spec_padded_history(bands_of(bands, recent), n as nat),
        None => Seq::empty(),
    })
}

fn segment_bands(bands: &[Threshold], recent: &[ReadingRow]) -> (r: Vec<Option<Level>>)
    ensures
        r@ == bands_of(bands@, recent@),
{
    let mut out: Vec<Option<Level>> = Vec::new();
    let mut i: usize = 0;
    while i < recent.len()
        invariant
            i <= recent@.len(),
            out@ == bands_of(bands@, recent@.take(i as int)),
        decreases recent.len() - i,
    {
        out.push(level_for(bands, recent[i].number));
        assert(bands_of(bands@, recent@.take(i + 1)) =~= bands_of(bands@, recent@.take(i as int)).push(
            spec_level_for(bands@, recent@[i as int].number),
        ));
        i = i + 1;
    }
    assert(recent@.take(i as int) =~= recent@);
    out
}

/// Builds one web panel for `name` from the latest readings, its health
/// (when known) and its recent readings (oldest first; only read when it
/// shows a history bar).
pub fn build_panel(
    cfg: &Config,
    latest: &[ReadingRow],
    health: Option<&SourceHealth>,
    name: &str,
    title_override: Option<&str>,
    recent: &[ReadingRow],
) -> (p: Panel)
    ensures
        web_panel_for(
            p,
            *cfg,
            latest@,
            match health {
                Some(h) => Some(*h),
                None => None,
            },
            name@,
            match title_override {
                Some(t) => Some(t@),
                None => None,
            },
            recent@,
        ),
{
    let row = reading_index(latest, name);
    let src = find_source_index(&cfg.sources, name);
    let label: String = match title_override {
        Some(t) => t.to_owned(),
        None => match src {
            Some(i) => match cfg.sources[i].display_title() {
                Some(t) => t.to_owned(),
                None => name.to_owned(),
            },
            None => name.to_owned(),
        },
    };
    let empty: Vec<Threshold> = Vec::new();
    let bands: &[Threshold] = match health {
        Some(h) => h.thresholds.as_slice(),
        None => empty.as_slice(),
    };
    let level = match row {
        Some(i) => if bands.len() > 0 {
            level_for(bands, latest[i].number)
        } else {
            None
        },
        None => None,
    };
    let history = match history_points_for(cfg, name, bands.len() > 0) {
        Some(n) => padded_history(segment_bands(bands, recent), n),
        None => Vec::new(),
    };
    let format = match src {
        Some(i) => match cfg.sources[i].format() {
            Some(f) => f,
            None => ValueFormat::Text,
        },
        None => ValueFormat::Text,
    };
    proof {
        reveal_strlit("—");
    }
    Panel {
        source: name.to_owned(),
        name: label,
        value: match row {
            Some(i) => latest[i].value.clone(),
            None => "—".to_owned(),
        },
        unit: match row {
            Some(i) => match &latest[i].unit {
                Some(u) => u.clone(),
                None => String::new(),
            },
            None => String::new(),
        },
        status: match health {
            Some(h) => h.status,
            None => Health::Stale,
        },
        level,
        format,
        ts_ms: match row {
            Some(i) => latest[i].ts_ms,
            None => 0,
        },
        history,
    }
}

/// The recent readings held for source `name` (the first entry naming it),
/// none when there is no such entry.
pub open spec fn find_recent(recent: Seq<(String, Vec<ReadingRow>)>, name: Seq<char>) -> Seq<ReadingRow>
    decreases recent.len(),
{
    if recent.len() == 0 {
        Seq::empty()
    } else if recent[0].0@ == name {
        recent[0].1@
    } else {
        find_recent(recent.drop_first(), name)
    }
}

fn recent_for<'a>(recent: &'a [(String, Vec<ReadingRow>)], name: &str) -> (r: &'a [ReadingRow])
    ensures
        r@ == find_recent(recent@, name@),
{
    let mut i: usize = 0;
    assert(recent@.skip(0) =~= recent@);
    while i < recent.len()
        invariant
            i <= recent@.len(),
            find_recent(recent@.skip(i as int), name@) == find_recent(recent@, name@),
        decreases recent.len() - i,
    {
        assert(recent@.skip(i as int).drop_first() =~= recent@.skip(i + 1));
        assert(recent@.skip(i as int)[0] == recent@[i as int]);
        if str_eq(recent[i].0.as_str(), name) {
            return recent[i].1.as_slice();
        }
        i = i + 1;
    }
    &[]
}

/// Whether `p` is the web panel for `name`, its health and recent readings
/// looked up by name.
pub open spec fn web_panel_at(
    p: Panel,
    cfg: Config,
    latest: Seq<ReadingRow>,
    healths: Seq<SourceHealth>,
    recent: Seq<(String, Vec<ReadingRow>)>,
    name: Seq<char>,
    title: Option<Seq<char>>,
) -> bool {
    web_panel_for(p, cfg, latest, find_health(healths, name), name, title, find_recent(recent, name))
}

fn panel_at(
    cfg: &Config,
    latest: &[ReadingRow],
    healths: &[SourceHealth],
    recent: &[(String, Vec<ReadingRow>)],
    name: &str,
    title: Option<&str>,
) -> (p: Panel)
    ensures
        web_panel_at(
            p,
            *cfg,
            latest@,
            healths@,
            recent@,
            name@,
            match title {
                Some(t) => Some(t@),
                None => None,
            },
        ),
{
    let h = match health_index(healths, name) {
        Some(i) => Some(&healths[i]),
        None => None,
    };
    build_panel(cfg, latest, h, name, title, recent_for(recent, name))
}

/// Whether `ps` are the web panels of the members `items`, in order.
pub open spec fn web_panels_for_items(
    ps: Seq<Panel>,
    cfg: Config,
    latest: Seq<ReadingRow>,
    healths: Seq<SourceHealth>,
    recent: Seq<(String, Vec<ReadingRow>)>,
    items: Seq<GroupItem>,
) -> bool {
    &&& ps.len() == items.len()
    &&& forall|k: int|
        0 <= k < ps.len() ==> web_panel_at(
            #[trigger] ps[k],
            cfg,
            latest,
            healths,
            recent,
            group_item_id(items[k]),
            item_label(items[k]),
        )
}

/// A text cell's format: markdown when it says so, plain text otherwise.
pub open spec fn text_format(f: Option<String>) -> ValueFormat {
    match f {
        Some(s) => if s@ == "markdown"@ {
            ValueFormat::Markdown
        } else {
            ValueFormat::Text
        },
        None => ValueFormat::Text,
    }
}

/// Whether `s` is the web slot for `cell`, starting at column `col`: a
/// member hidden from the web is left out, so a hidden single source leaves
/// an empty grid position.
pub open spec fn web_slot_for(
    s: Slot,
    cfg: Config,
    latest: Seq<ReadingRow>,
    healths: Seq<SourceHealth>,
    recent: Seq<(String, Vec<ReadingRow>)>,
    cell: Cell,
    col: int,
) -> bool {
    &&& s.span == cell_span(cell)
    &&& s.col_start == col
    &&& match cell {
        Cell::Group { title, main, secondary, table } => {
            &&& opt_view(s.group_title) == opt_view(title)
            &&& s.text.is_none()
            &&& match main {
                Some(it) => if spec_source_visible_in(cfg, group_item_id(it), UiView::Web) {
                    s.main matches Some(p) && web_panel_at(
                        p,
                        cfg,
                        latest,
                        healths,
                        recent,
                        group_item_id(it),
                        item_label(it),
                    )
                } else {
                    s.main.is_none()
                },
                None => s.main.is_none(),
            }
            &&& web_panels_for_items(
                s.secondary@,
                cfg,
                latest,
                healths,
                recent,
                visible_filter(cfg, secondary@, UiView::Web),
            )
            &&& web_panels_for_items(
                s.table@,
                cfg,
                latest,
                healths,
                recent,
                visible_filter(cfg, table@, UiView::Web),
            )
        },
        Cell::Source(name) => {
            &&& s.group_title.is_none() && s.text.is_none()
            &&& s.secondary@.len() == 0 && s.table@.len() == 0
            &&& if spec_source_visible_in(cfg, name@, UiView::Web) {
                s.main matches Some(p) && web_panel_at(p, cfg, latest, healths, recent, name@, None)
            } else {
                s.main.is_none()
            }
        },
        Cell::Pane { id, title } => {
            &&& s.group_title.is_none() && s.text.is_none()
            &&& s.secondary@.len() == 0 && s.table@.len() == 0
            &&& if spec_source_visible_in(cfg, id@, UiView::Web) {
                s.main matches Some(p) && web_panel_at(
                    p,
                    cfg,
                    latest,
                    healths,
                    recent,
                    id@,
                    opt_view(title),
                )
            } else {
                s.main.is_none()
            }
        },
        Cell::Space { .. } => {
            &&& s.group_title.is_none() && s.text.is_none() && s.main.is_none()
            &&& s.secondary@.len() == 0 && s.table@.len() == 0
        },
        Cell::Text { title, format, text } => {
            &&& opt_view(s.group_title) == opt_view(title)
            &&& s.text matches Some(t) && t.0 == text_format(format) && t.1@ == text@
            &&& s.main.is_none()
            &&& s.secondary@.len() == 0 && s.table@.len() == 0
        },
    }
}

fn clone_title(o: &Option<String>) -> (r: Option<String>)
    ensures
        opt_view(r) == opt_view(*o),
{
    match o {
        Some(s) => Some(s.clone()),
        None => None,
    }
}

fn web_panels(
    cfg: &Config,
    latest: &[ReadingRow],
    healths: &[SourceHealth],
    recent: &[(String, Vec<ReadingRow>)],
    items: &[GroupItem],
) -> (r: Vec<Panel>)
    ensures
        web_panels_for_items(
            r@,
            *cfg,
            latest@,
            healths@,
            recent@,
            visible_filter(*cfg, items@, UiView::Web),
        ),
{
    let vis = visible_items(cfg, items, UiView::Web);
    let ghost want = visible_filter(*cfg, items@, UiView::Web);
    let mut out: Vec<Panel> = Vec::new();
    let mut k: usize = 0;
    while k < vis.len()
        invariant
            k <= vis@.len(),
            derefs(vis@) == want,
            out@.len() == k,
            forall|m: int|
                0 <= m < k ==> web_panel_at(
                    #[trigger] out@[m],
                    *cfg,
                    latest@,
                    healths@,
                    recent@,
                    group_item_id(want[m]),
                    item_label(want[m]),
                ),
        decreases vis.len() - k,
    {
        let it = vis[k];
        assert(want[k as int] == *it);
        out.push(panel_at(cfg, latest, healths, recent, it.id(), it.explicit_label()));
        k = k + 1;
    }
    out
}

fn text_format_of(format: &Option<String>) -> (r: ValueFormat)
    ensures
        r == text_format(*format),
{
    proof {
        reveal_strlit("markdown");
    }
    match format {
        Some(f) => match ValueFormat::parse(f.as_str()) {
            Ok(v) => v,
            Err(_) => ValueFormat::Text,
        },
        None => ValueFormat::Text,
    }
}

/// The web slot for one layout cell, starting at column `col`.
pub fn build_web_slot(
    cfg: &Config,
    latest: &[ReadingRow],
    healths: &[SourceHealth],
    recent: &[(String, Vec<ReadingRow>)],
    cell: &Cell,
    col: usize,
) -> (s: Slot)
    ensures
        web_slot_for(s, *cfg, latest@, healths@, recent@, *cell, col as int),
{
    let span = cell.span();
    match cell {
        Cell::Group { title, main, secondary, table } => {
            let m = match main {
                Some(it) => if source_visible_in(cfg, it.id(), UiView::Web) {
                    Some(panel_at(cfg, latest, healths, recent, it.id(), it.explicit_label()))
                } else {
                    None
                },
                None => None,
            };
            Slot {
                span,
                col_start: col,
                group_title: clone_title(title),
                main: m,
                secondary: web_panels(cfg, latest, healths, recent, secondary.as_slice()),
                table: web_panels(cfg, latest, healths, recent, table.as_slice()),
                text: None,
            }
        },
        Cell::Source(name) => Slot {
            span,
            col_start: col,
            group_title: None,
            main: if source_visible_in(cfg, name.as_str(), UiView::Web) {
                Some(panel_at(cfg, latest, healths, recent, name.as_str(), None))
            } else {
                None
            },
            secondary: Vec::new(),
            table: Vec::new(),
            text: None,
        },
        Cell::Pane { id, title } => {
            let t: Option<&str> = match title {
                Some(t) => Some(t.as_str()),
                None => None,
            };
            Slot {
                span,
                col_start: col,
                group_title: None,
                main: if source_visible_in(cfg, id.as_str(), UiView::Web) {
                    Some(panel_at(cfg, latest, healths, recent, id.as_str(), t))
                } else {
                    None
                },
                secondary: Vec::new(),
                table: Vec::new(),
                text: None,
            }
        },
        Cell::Space { .. } => Slot {
            span,
            col_start: col,
            group_title: None,
            main: None,
            secondary: Vec::new(),
            table: Vec::new(),
            text: None,
        },
        Cell::Text { title, format, text } => Slot {
            span,
            col_start: col,
            group_title: clone_title(title),
            main: None,
            secondary: Vec::new(),
            table: Vec::new(),
            text: Some((text_format_of(format), text.clone())),
        },
    }
}

/// One layout as the web dashboard draws it: its title, its column count,
/// and its rows of slots.
#[derive(Debug, Clone)]
pub struct Grid {
    pub title: String,
    pub columns: usize,
    pub rows: Vec<Vec<Slot>>,
}

/// Whether `g` is the web grid of layout `l`: each cell's slot starts right
/// after the spans of the cells before it in its row.
pub open spec fn grid_for(
    g: Grid,
    cfg: Config,
    latest: Seq<ReadingRow>,
    healths: Seq<SourceHealth>,
    recent: Seq<(String, Vec<ReadingRow>)>,
    l: LayoutCfg,
) -> bool {
    &&& g.title@ == l.title@
    &&& g.columns == layout_columns(l)
    &&& g.rows@.len() == l.rows@.len()
    &&& forall|i: int|
        0 <= i < g.rows@.len() ==> (#[trigger] g.rows@[i])@.len() == l.rows@[i]@.len() && forall|
            j: int,
        |
            0 <= j < l.rows@[i]@.len() ==> web_slot_for(
                g.rows@[i]@[j],
                cfg,
                latest,
                healths,
                recent,
                l.rows@[i]@[j],
                (1 + row_width(l.rows@[i]@.take(j))) as int,
            )
}

fn web_row(
    cfg: &Config,
    latest: &[ReadingRow],
    healths: &[SourceHealth],
    recent: &[(String, Vec<ReadingRow>)],
    cells: &Vec<Cell>,
) -> (r: Vec<Slot>)
    requires
        1 + row_width(cells@) <= usize::MAX,
    ensures
        r@.len() == cells@.len(),
        forall|j: int|
            0 <= j < cells@.len() ==> web_slot_for(
                #[trigger] r@[j],
                *cfg,
                latest@,
                healths@,
                recent@,
                cells@[j],
                (1 + row_width(cells@.take(j))) as int,
            ),
{
    let mut out: Vec<Slot> = Vec::new();
    let mut col: usize = 1;
    let mut j: usize = 0;
    assert(cells@.take(0) =~= Seq::<Cell>::empty());
    while j < cells.len()
        invariant
            j <= cells@.len(),
            1 + row_width(cells@) <= usize::MAX,
            out@.len() == j,
            col == 1 + row_width(cells@.take(j as int)),
            forall|m: int|
                0 <= m < j ==> web_slot_for(
                    #[trigger] out@[m],
                    *cfg,
                    latest@,
                    healths@,
                    recent@,
                    cells@[m],
                    (1 + row_width(cells@.take(m))) as int,
                ),
        decreases cells.len() - j,
    {
        out.push(build_web_slot(cfg, latest, healths, recent, &cells[j], col));
        proof {
            crate::config::layout::lemma_row_width_prefix(cells@, j + 1);
            assert(cells@.take(j + 1).drop_last() =~= cells@.take(j as int));
            assert(cells@.take(j + 1).last() == cells@[j as int]);
        }
        let span = cells[j].span();
        proof {
            lemma_prefix_width_le(cells@, j + 1);
        }
        col = col + span;
        j = j + 1;
    }
    out
}

proof fn lemma_prefix_width_le(row: Seq<Cell>, k: int)
    requires
        0 <= k <= row.len(),
    ensures
        row_width(row.take(k)) <= row_width(row),
    decreases row.len() - k,
{
    if k < row.len() {
        lemma_prefix_width_le(row, k + 1);
        crate::config::layout::lemma_row_width_prefix(row, k + 1);
        assert(row.take(k + 1).drop_last() =~= row.take(k));
    } else {
        assert(row.take(k) =~= row);
    }
}

/// Every row of every layout leaves room to place one more column after
/// it: start columns count from 1 and stay within a `usize`.
pub open spec fn grid_columns_fit(cfg: Config) -> bool {
    forall|i: int, j: int|
        0 <= i < cfg.layouts@.len() && 0 <= j < cfg.layouts@[i].rows@.len() ==> 1 + row_width(
            #[trigger] cfg.layouts@[i].rows@[j]@,
        ) <= usize::MAX
}

fn row_columns_fit(row: &Vec<Cell>) -> (r: bool)
    ensures
        r == (1 + row_width(row@) <= usize::MAX),
{
    let mut acc: usize = 1;
    let mut j: usize = 0;
    assert(row@.take(0) =~= Seq::<Cell>::empty());
    while j < row.len()
        invariant
            j <= row@.len(),
            acc == 1 + row_width(row@.take(j as int)),
        decreases row.len() - j,
    {
        assert(row@.take(j + 1).drop_last() =~= row@.take(j as int));
        assert(row@.take(j + 1).last() == row@[j as int]);
        match acc.checked_add(row[j].span()) {
            Some(a) => acc = a,
            None => {
                proof {
                    lemma_prefix_width_le(row@, j + 1);
                }
                return false;
            },
        }
        j = j + 1;
    }
    assert(row@.take(j as int) =~= row@);
    true
}

/// Whether every layout row leaves room for the start column after it
/// (so the web grid can be collected); the widths then also fit for
/// validation.
pub fn columns_fit(cfg: &Config) -> (r: bool)
    ensures
        r == grid_columns_fit(*cfg),
        r ==> crate::config::validation::config_widths_fit(*cfg),
{
    let mut i: usize = 0;
    while i < cfg.layouts.len()
        invariant
            i <= cfg.layouts@.len(),
            forall|a: int, b: int|
                0 <= a < i && 0 <= b < cfg.layouts@[a].rows@.len() ==> 1 + row_width(
                    #[trigger] cfg.layouts@[a].rows@[b]@,
                ) <= usize::MAX,
        decreases cfg.layouts.len() - i,
    {
        let l = &cfg.layouts[i];
        let mut j: usize = 0;
        while j < l.rows.len()
            invariant
                i < cfg.layouts@.len(),
                *l == cfg.layouts@[i as int],
                j <= l.rows@.len(),
                forall|a: int, b: int|
                    0 <= a < i && 0 <= b < cfg.layouts@[a].rows@.len() ==> 1 + row_width(
                        #[trigger] cfg.layouts@[a].rows@[b]@,
                    ) <= usize::MAX,
                forall|b: int| 0 <= b < j ==> 1 + row_width(#[trigger] l.rows@[b]@) <= usize::MAX,
            decreases l.rows.len() - j,
        {
            if !row_columns_fit(&l.rows[j]) {
                return false;
            }
            j = j + 1;
        }
        i = i + 1;
    }
    assert forall|a: int| 0 <= a < cfg.layouts@.len() implies crate::config::layout::layout_widths_fit(
        #[trigger] cfg.layouts@[a],
    ) by {
        assert forall|b: int| 0 <= b < cfg.layouts@[a].rows@.len() implies row_width(
            #[trigger] cfg.layouts@[a].rows@[b]@,
        ) <= usize::MAX by {
            assert(1 + row_width(cfg.layouts@[a].rows@[b]@) <= usize::MAX);
        }
    }
    true
}

/// Every layout's grid, in order: the panels of each source its cells show
/// (with health and recent readings looked up by source name), each slot
/// placed at its own start column.
pub fn collect_grids(
    cfg: &Config,
    latest: &[ReadingRow],
    healths: &[SourceHealth],
    recent: &[(String, Vec<ReadingRow>)],
) -> (r: Vec<Grid>)
    requires
        grid_columns_fit(*cfg),
    ensures
        r@.len() == cfg.layouts@.len(),
        forall|i: int|
            0 <= i < r@.len() ==> grid_for(
                #[trigger] r@[i],
                *cfg,
                latest@,
                healths@,
                recent@,
                cfg.layouts@[i],
            ),
{
    let mut grids: Vec<Grid> = Vec::new();
    let mut li: usize = 0;
    while li < cfg.layouts.len()
        invariant
            li <= cfg.layouts@.len(),
            grid_columns_fit(*cfg),
            grids@.len() == li,
            forall|i: int|
                0 <= i < li ==> grid_for(
                    #[trigger] grids@[i],
                    *cfg,
                    latest@,
                    healths@,
                    recent@,
                    cfg.layouts@[i],
                ),
        decreases cfg.layouts.len() - li,
    {
        let layout = &cfg.layouts[li];
        assert(forall|j: int|
            0 <= j < layout.rows@.len() ==> 1 + row_width(#[trigger] layout.rows@[j]@) <= usize::MAX);
        let mut rows: Vec<Vec<Slot>> = Vec::new();
        let mut ri: usize = 0;
        while ri < layout.rows.len()
            invariant
                ri <= layout.rows@.len(),
                forall|j: int|
                    0 <= j < layout.rows@.len() ==> 1 + row_width(#[trigger] layout.rows@[j]@) <= usize::MAX,
                rows@.len() == ri,
                forall|i: int|
                    0 <= i < ri ==> (#[trigger] rows@[i])@.len() == layout.rows@[i]@.len() && forall|
                        j: int,
                    |
                        0 <= j < layout.rows@[i]@.len() ==> web_slot_for(
                            rows@[i]@[j],
                            *cfg,
                            latest@,
                            healths@,
                            recent@,
                            layout.rows@[i]@[j],
                            (1 + row_width(layout.rows@[i]@.take(j))) as int,
                        ),
            decreases layout.rows.len() - ri,
        {
            rows.push(web_row(cfg, latest, healths, recent, &layout.rows[ri]));
            ri = ri + 1;
        }
        grids.push(Grid { title: layout.title.clone(), columns: layout.columns(), rows });
        li = li + 1;
    }
    grids
}

/// What a slot draws: a static text, a single-source card, a pane of
/// members, or an empty grid position.
#[derive(Debug, Clone, Copy, PartialEq, Eq, Structural)]
pub enum CardKind {
    Text,
    Single,
    Pane,
    Empty,
}

pub open spec fn spec_card_kind(s: Slot) -> CardKind {
    if s.text.is_some() {
        CardKind::Text
    } else if s.secondary@.len() == 0 && s.table@.len() == 0 && s.main.is_some() {
        CardKind::Single
    } else if s.main.is_some() || s.secondary@.len() > 0 || s.table@.len() > 0 {
        CardKind::Pane
    } else {
        CardKind::Empty
    }
}

pub fn card_kind(s: &Slot) -> (r: CardKind)
    ensures
        r == spec_card_kind(*s),
{
    if s.text.is_some() {
        CardKind::Text
    } else if s.secondary.len() == 0 && s.table.len() == 0 && s.main.is_some() {
        CardKind::Single
    } else if s.main.is_some() || s.secondary.len() > 0 || s.table.len() > 0 {
        CardKind::Pane
    } else {
        CardKind::Empty
    }
}

/// One summary-strip chip: a member panel's label, its status color, and
/// the anchor of the card it links to.
#[derive(Debug, Clone)]
pub struct Chip {
    pub name: String,
    pub color: Level,
    pub anchor: String,
}

/// The chips of one slot: every member in order, all linking to the slot's
/// card (its first member).
pub open spec fn slot_chips(s: Slot) -> Seq<(Seq<char>, Level, Seq<char>)> {
    let m = slot_members(s);
    if m.len() == 0 {
        Seq::empty()
    } else {
        m.map_values(|p: Panel| (p.name@, spec_status_color(p.level, p.status), m[0].source@))
    }
}

/// The chips of a run of slots, in order.
pub open spec fn slots_chips(slots: Seq<Slot>) -> Seq<(Seq<char>, Level, Seq<char>)>
    decreases slots.len(),
{
    if slots.len() == 0 {
        Seq::empty()
    } else {
        slots_chips(slots.drop_last()) + slot_chips(slots.last())
    }
}

pub open spec fn chips_view(c: Seq<Chip>) -> Seq<(Seq<char>, Level, Seq<char>)> {
    c.map_values(|x: Chip| (x.name@, x.color, x.anchor@))
}

fn push_slot_chips(out: &mut Vec<Chip>, s: &Slot)
    ensures
        chips_view(final(out)@) == chips_view(old(out)@) + slot_chips(*s),
{
    let anchor: String = match s.anchor() {
        Some(a) => a.to_owned(),
        None => {
            assert(chips_view(old(out)@) + slot_chips(*s) =~= chips_view(old(out)@));
            return;
        },
    };
    let ghost m = slot_members(*s);
    let ghost start = chips_view(out@);
    let mut members: Vec<&Panel> = Vec::new();
    match &s.main {
        Some(p) => members.push(p),
        None => {},
    }
    let mut i: usize = 0;
    while i < s.secondary.len()
        invariant
            i <= s.secondary@.len(),
            crate::config::source::derefs(members@) == (match s.main {
                Some(p) => seq![p],
                None => Seq::empty(),
            }) + s.secondary@.take(i as int),
        decreases s.secondary.len() - i,
    {
        let ghost before = crate::config::source::derefs(members@);
        members.push(&s.secondary[i]);
        assert(s.secondary@.take(i + 1) =~= s.secondary@.take(i as int).push(s.secondary@[i as int]));
        assert(crate::config::source::derefs(members@) =~= before.push(s.secondary@[i as int]));
        i = i + 1;
    }
    let mut j: usize = 0;
    while j < s.table.len()
        invariant
            j <= s.table@.len(),
            crate::config::source::derefs(members@) == (match s.main {
                Some(p) => seq![p],
                None => Seq::empty(),
            }) + s.secondary@ + s.table@.take(j as int),
        decreases s.table.len() - j,
    {
        let ghost before = crate::config::source::derefs(members@);
        members.push(&s.table[j]);
        assert(s.table@.take(j + 1) =~= s.table@.take(j as int).push(s.table@[j as int]));
        assert(crate::config::source::derefs(members@) =~= before.push(s.table@[j as int]));
        j = j + 1;
    }
    proof {
        assert(s.secondary@.take(i as int) =~= s.secondary@);
        assert(s.table@.take(j as int) =~= s.table@);
        assert(crate::config::source::derefs(members@) =~= m);
    }
    let mut k: usize = 0;
    while k < members.len()
        invariant
            k <= members@.len(),
            crate::config::source::derefs(members@) == m,
            m.len() > 0,
            anchor@ == m[0].source@,
            chips_view(out@) == start + m.take(k as int).map_values(
                |p: Panel| (p.name@, spec_status_color(p.level, p.status), m[0].source@),
            ),
        decreases members.len() - k,
    {
        let p = members[k];
        assert(m[k as int] == *p);
        let ghost before = chips_view(out@);
        out.push(Chip { name: p.name.clone(), color: p.level_color(), anchor: anchor.clone() });
        assert(m.take(k + 1).map_values(
            |p: Panel| (p.name@, spec_status_color(p.level, p.status), m[0].source@),
        ) =~= m.take(k as int).map_values(
            |p: Panel| (p.name@, spec_status_color(p.level, p.status), m[0].source@),
        ).push((p.name@, spec_status_color(p.level, p.status), m[0].source@)));
        assert(chips_view(out@) =~= before.push((p.name@, spec_status_color(p.level, p.status), m[0].source@)));
        k = k + 1;
    }
    assert(m.take(k as int) =~= m);
}

/// Every slot of a grid's rows, row by row.
pub open spec fn flat_slots(rows: Seq<Vec<Slot>>) -> Seq<Slot> {
    rows.map_values(|r: Vec<Slot>| r@).fold_left(
        Seq::<Slot>::empty(),
        |acc: Seq<Slot>, x: Seq<Slot>| acc + x,
    )
}

/// The chips of every grid, in order: each grid's slots, row by row.
pub open spec fn grids_chips(gs: Seq<Grid>) -> Seq<(Seq<char>, Level, Seq<char>)>
    decreases gs.len(),
{
    if gs.len() == 0 {
        Seq::empty()
    } else {
        grids_chips(gs.drop_last()) + slots_chips(flat_slots(gs.last().rows@))
    }
}

fn push_rows_chips(out: &mut Vec<Chip>, rows: &Vec<Vec<Slot>>)
    ensures
        chips_view(final(out)@) == chips_view(old(out)@) + slots_chips(flat_slots(rows@)),
{
    let ghost start = chips_view(out@);
    let mut i: usize = 0;
    assert(rows@.take(0).map_values(|r: Vec<Slot>| r@) =~= Seq::<Seq<Slot>>::empty());
    assert(start + slots_chips(flat_slots(rows@.take(0))) =~= start);
    while i < rows.len()
        invariant
            i <= rows@.len(),
            chips_view(out@) == start + slots_chips(flat_slots(rows@.take(i as int))),
        decreases rows.len() - i,
    {
        let row = &rows[i];
        let ghost done = flat_slots(rows@.take(i as int));
        let mut j: usize = 0;
        assert(done + row@.take(0) =~= done);
        while j < row.len()
            invariant
                j <= row@.len(),
                chips_view(out@) == start + slots_chips(done + row@.take(j as int)),
            decreases row.len() - j,
        {
            let ghost before = chips_view(out@);
            push_slot_chips(out, &row[j]);
            assert((done + row@.take(j + 1)).drop_last() =~= done + row@.take(j as int));
            assert((done + row@.take(j + 1)).last() == row@[j as int]);
            assert(chips_view(out@) =~= start + slots_chips(done + row@.take(j + 1)));
            j = j + 1;
        }
        proof {
            assert(row@.take(j as int) =~= row@);
            let pre = rows@.take(i as int).map_values(|r: Vec<Slot>| r@);
            let post = rows@.take(i + 1).map_values(|r: Vec<Slot>| r@);
            assert(post =~= pre.push(row@));
            pre.lemma_fold_left_alt(Seq::<Slot>::empty(), |acc: Seq<Slot>, x: Seq<Slot>| acc + x);
            assert(post.drop_last() =~= pre);
        }
        i = i + 1;
    }
    assert(rows@.take(i as int) =~= rows@);
}

/// The summary strip: every member of every slot of every grid, in order,
/// each linking to its card.
pub fn summary_chips(grids: &Vec<Grid>) -> (r: Vec<Chip>)
    ensures
        chips_view(r@) == grids_chips(grids@),
{
    let mut out: Vec<Chip> = Vec::new();
    let mut g: usize = 0;
    assert(grids@.take(0) =~= Seq::<Grid>::empty());
    while g < grids.len()
        invariant
            g <= grids@.len(),
            chips_view(out@) == grids_chips(grids@.take(g as int)),
        decreases grids.len() - g,
    {
        push_rows_chips(&mut out, &grids[g].rows);
        assert(grids@.take(g + 1).drop_last() =~= grids@.take(g as int));
        g = g + 1;
    }
    assert(grids@.take(g as int) =~= grids@);
    out
}

/// The dashboard's overall status: the worst color among the chips.
pub fn overall_status(chips: &Vec<Chip>) -> (r: Level)
    ensures
        r == spec_worst_color(chips@.map_values(|c: Chip| c.color)),
{
    let mut colors: Vec<Level> = Vec::new();
    let mut i: usize = 0;
    while i < chips.len()
        invariant
            i <= chips@.len(),
            colors@ == chips@.take(i as int).map_values(|c: Chip| c.color),
        decreases chips.len() - i,
    {
        colors.push(chips[i].color);
        assert(chips@.take(i + 1).map_values(|c: Chip| c.color) =~= chips@.take(i as int).map_values(
            |c: Chip| c.color,
        ).push(chips@[i as int].color));
        i = i + 1;
    }
    assert(chips@.take(i as int) =~= chips@);
    worst_color(colors.as_slice())
}

} // verus!
