//! The terminal dashboard's view model: what each panel shows, built from
//! one refresh's readings and health, slot by slot as the layouts declare.

use vstd::prelude::*;
use crate::config::Config;
use crate::config::layout::{Cell, LayoutCfg, cell_span, rows_of};
use crate::config::source::{
    GroupItem, Level, Threshold, UiView, find_source, find_source_index, group_item_id, opt_view,
    source_visible_in, spec_level_for, spec_source_visible_in, src_title, visible_filter,
    visible_items, level_for,
};
use crate::db::ReadingRow;
use crate::health::{Health, SourceHealth};
use crate::text::str_eq;

verus! {

/// One source's panel data.
#[derive(Debug, Clone)]
pub struct Panel {
    pub name: String,
    pub value: String,
    pub unit: String,
    pub status: Health,
    /// The band of the current value, when the source has bands.
    pub level: Option<Level>,
    /// The latest reading's time, epoch milliseconds (`0`: none).
    pub ts_ms: i64,
}

/// One grid slot: empty (a spacer, or a hidden source), a single-source
/// panel, a static text, or a pane of main, secondary and table members.
#[derive(Debug, Clone)]
pub struct Slot {
    pub span: usize,
    pub group_title: Option<String>,
    pub main: Option<Panel>,
    pub secondary: Vec<Panel>,
    pub table: Vec<Panel>,
    pub text: Option<String>,
}

/// What the dashboard shows: an error banner, and the slots of every
/// layout row, all layouts' rows stacked in order.
#[derive(Debug, Clone)]
pub struct UiState {
    pub error: Option<String>,
    pub rows: Vec<Vec<Slot>>,
}

/// One refresh's result: the latest readings and every source's health, or
/// why the refresh failed.
#[derive(Debug, Clone)]
pub enum Outcome {
    Data(Vec<ReadingRow>, Vec<SourceHealth>),
    Failed(String),
}

/// The first reading of source `name`.
pub open spec fn find_reading(rows: Seq<ReadingRow>, name: Seq<char>) -> Option<ReadingRow>
    decreases rows.len(),
{
    if rows.len() == 0 {
        None
    } else if rows[0].source@ == name {
        Some(rows[0])
    } else {
        find_reading(rows.drop_first(), name)
    }
}

/// The first health entry of source `name`.
pub open spec fn find_health(hs: Seq<SourceHealth>, name: Seq<char>) -> Option<SourceHealth>
    decreases hs.len(),
{
    if hs.len() == 0 {
        None
    } else if hs[0].source@ == name {
        Some(hs[0])
    } else {
        find_health(hs.drop_first(), name)
    }
}

pub fn reading_index(rows: &[ReadingRow], name: &str) -> (r: Option<usize>)
    ensures
        r.is_none() == find_reading(rows@, name@).is_none(),
        r matches Some(i) ==> i < rows@.len() && find_reading(rows@, name@) == Some(rows@[i as int]),
{
    let mut i: usize = 0;
    assert(rows@.skip(0) =~= rows@);
    while i < rows.len()
        invariant
            i <= rows@.len(),
            find_reading(rows@.skip(i as int), name@) == find_reading(rows@, name@),
        decreases rows.len() - i,
    {
        assert(rows@.skip(i as int).drop_first() =~= rows@.skip(i + 1));
        assert(rows@.skip(i as int)[0] == rows@[i as int]);
        if str_eq(rows[i].source.as_str(), name) {
            return Some(i);
        }
        i = i + 1;
    }
    None
}

pub fn health_index(hs: &[SourceHealth], name: &str) -> (r: Option<usize>)
    ensures
        r.is_none() == find_health(hs@, name@).is_none(),
        r matches Some(i) ==> i < hs@.len() && find_health(hs@, name@) == Some(hs@[i as int]),
{
    let mut i: usize = 0;
    assert(hs@.skip(0) =~= hs@);
    while i < hs.len()
        invariant
            i <= hs@.len(),
            find_health(hs@.skip(i as int), name@) == find_health(hs@, name@),
        decreases hs.len() - i,
    {
        assert(hs@.skip(i as int).drop_first() =~= hs@.skip(i + 1));
        assert(hs@.skip(i as int)[0] == hs@[i as int]);
        if str_eq(hs[i].source.as_str(), name) {
            return Some(i);
        }
        i = i + 1;
    }
    None
}

/// A panel's label: an explicit title, else the source's declared title,
/// else its name.
pub open spec fn panel_label(cfg: Config, name: Seq<char>, title: Option<Seq<char>>) -> Seq<char> {
    match title {
        Some(t) => t,
        None => match find_source(cfg.sources@, name) {
            Some(s) => match src_title(s) {
                Some(t) => t,
                None => name,
            },
            None => name,
        },
    }
}

/// Whether `p` is the panel for source `name` (labelled by `title` when
/// given): the latest reading's value and unit (`—` and nothing without
/// one), the source's health (stale when unknown), and the reading's band
/// under the bands its health carries.
pub open spec fn panel_for(
    p: Panel,
    cfg: Config,
    latest: Seq<ReadingRow>,
    healths: Seq<SourceHealth>,
    name: Seq<char>,
    title: Option<Seq<char>>,
) -> bool {
    let row = find_reading(latest, name);
    let h = find_health(healths, name);
    let bands: Seq<Threshold> = match h {
        Some(x) => x.thresholds@,
        None => Seq::empty(),
    };
    &&& p.name@ == panel_label(cfg, name, title)
    &&& p.value@ == (match row {
        Some(r) => r.value@,
        None => "—"@,
    })
    &&& p.unit@ == (match row {
        Some(r) => match r.unit {
            Some(u) => u@,
            None => Seq::empty(),
        },
        None => Seq::empty(),
    })
    &&& p.status == (match h {
        Some(x) => x.status,
        None => Health::Stale,
    })
    &&& p.level == (match row {
        Some(r) => if bands.len() > 0 {
            spec_level_for(bands, r.number)
        } else {
            None
        },
        None => None,
    })
    &&& p.ts_ms == (match row {
        Some(r) => r.ts_ms,
        None => 0,
    })
}

/// Builds one panel for source `name`, labelled `title_override` when
/// given.
pub fn build_panel(
    cfg: &Config,
    latest: &[ReadingRow],
    healths: &[SourceHealth],
    name: &str,
    title_override: Option<&str>,
) -> (p: Panel)
    ensures
        panel_for(
            p,
            *cfg,
            latest@,
            healths@,
            name@,
            match title_override {
                Some(t) => Some(t@),
                None => None,
            },
        ),
{
    let row = reading_index(latest, name);
    let label: String = match title_override {
        Some(t) => t.to_owned(),
        None => match find_source_index(&cfg.sources, name) {
            Some(i) => match cfg.sources[i].display_title() {
                Some(t) => t.to_owned(),
                None => name.to_owned(),
            },
            None => name.to_owned(),
        },
    };
    let h = health_index(healths, name);
    let empty: Vec<Threshold> = Vec::new();
    let bands: &[Threshold] = match h {
        Some(i) => healths[i].thresholds.as_slice(),
        None => empty.as_slice(),
    };
    let level = match row {
        Some(i) => if bands.len() > 0 {
            level_for(bands, latest[i].number)
        } else {
            None
        },
        None => None,
    };
    proof {
        reveal_strlit("—");
    }
    Panel {
        name: label,
        value: match row {
            Some(i) => latest[i].value.clone(),
            None => "—".to_owned(),
        },
        unit: match row {
            Some(i) => match &latest[i].unit {
                Some(u) => u.clone(),
                None => String::new(),
            },
            None => String::new(),
        },
        status: match h {
            Some(i) => healths[i].status,
            None => Health::Stale,
        },
        level,
        ts_ms: match row {
            Some(i) => latest[i].ts_ms,
            None => 0,
        },
    }
}

pub open spec fn item_label(it: GroupItem) -> Option<Seq<char>> {
    match it {
        GroupItem::Labeled { label, .. } => Some(label@),
        GroupItem::Id(_) => None,
    }
}

/// Whether `ps` are the panels of the visible members `items`, in order.
pub open spec fn panels_for_items(
    ps: Seq<Panel>,
    cfg: Config,
    latest: Seq<ReadingRow>,
    healths: Seq<SourceHealth>,
    items: Seq<GroupItem>,
) -> bool {
    &&& ps.len() == items.len()
    &&& forall|k: int|
        0 <= k < ps.len() ==> panel_for(
            #[trigger] ps[k],
            cfg,
            latest,
            healths,
            group_item_id(items[k]),
            item_label(items[k]),
        )
}

/// Whether `s` is the terminal slot for `cell`: a member hidden from the
/// terminal is left out, so a hidden single source leaves an empty slot.
pub open spec fn slot_for(
    s: Slot,
    cfg: Config,
    latest: Seq<ReadingRow>,
    healths: Seq<SourceHealth>,
    cell: Cell,
) -> bool {
    &&& s.span == cell_span(cell)
    &&& match cell {
        Cell::Group { title, main, secondary, table } => {
            &&& opt_view(s.group_title) == opt_view(title)
            &&& s.text.is_none()
            &&& match main {
                Some(it) => if spec_source_visible_in(cfg, group_item_id(it), UiView::Tui) {
                    s.main matches Some(p) && panel_for(
                        p,
                        cfg,
                        latest,
                        healths,
                        group_item_id(it),
                        item_label(it),
                    )
                } else {
                    s.main.is_none()
                },
                None => s.main.is_none(),
            }
            &&& panels_for_items(
                s.secondary@,
                cfg,
                latest,
                healths,
                visible_filter(cfg, secondary@, UiView::Tui),
            )
            &&& panels_for_items(
                s.table@,
                cfg,
                latest,
                healths,
                visible_filter(cfg, table@, UiView::Tui),
            )
        },
        Cell::Source(name) => {
            &&& s.group_title.is_none() && s.text.is_none()
            &&& s.secondary@.len() == 0 && s.table@.len() == 0
            &&& if spec_source_visible_in(cfg, name@, UiView::Tui) {
                s.main matches Some(p) && panel_for(p, cfg, latest, healths, name@, None)
            } else {
                s.main.is_none()
            }
        },
        Cell::Pane { id, title } => {
            &&& s.group_title.is_none() && s.text.is_none()
            &&& s.secondary@.len() == 0 && s.table@.len() == 0
            &&& if spec_source_visible_in(cfg, id@, UiView::Tui) {
                s.main matches Some(p) && panel_for(p, cfg, latest, healths, id@, opt_view(title))
            } else {
                s.main.is_none()
            }
        },
        Cell::Space { .. } => {
            &&& s.group_title.is_none() && s.text.is_none() && s.main.is_none()
            &&& s.secondary@.len() == 0 && s.table@.len() == 0
        },
        Cell::Text { title, text, .. } => {
            &&& opt_view(s.group_title) == opt_view(title)
            &&& opt_view(s.text) == Some(text@)
            &&& s.main.is_none()
            &&& s.secondary@.len() == 0 && s.table@.len() == 0
        },
    }
}

fn clone_opt(o: &Option<String>) -> (r: Option<String>)
    ensures
        opt_view(r) == opt_view(*o),
{
    match o {
        Some(s) => Some(s.clone()),
        None => None,
    }
}

fn panels_for(
    cfg: &Config,
    latest: &[ReadingRow],
    healths: &[SourceHealth],
    items: &[GroupItem],
) -> (r: Vec<Panel>)
    ensures
        panels_for_items(r@, *cfg, latest@, healths@, visible_filter(*cfg, items@, UiView::Tui)),
{
    let vis = visible_items(cfg, items, UiView::Tui);
    let ghost want = visible_filter(*cfg, items@, UiView::Tui);
    let mut out: Vec<Panel> = Vec::new();
    let mut k: usize = 0;
    while k < vis.len()
        invariant
            k <= vis@.len(),
            crate::config::source::derefs(vis@) == want,
            out@.len() == k,
            forall|m: int|
                0 <= m < k ==> panel_for(
                    #[trigger] out@[m],
                    *cfg,
                    latest@,
                    healths@,
                    group_item_id(want[m]),
                    item_label(want[m]),
                ),
        decreases vis.len() - k,
    {
        let it = vis[k];
        assert(want[k as int] == *it);
        let p = build_panel(cfg, latest, healths, it.id(), it.explicit_label());
        out.push(p);
        k = k + 1;
    }
    out
}

/// The terminal slot for one layout cell.
pub fn build_slot(cfg: &Config, latest: &[ReadingRow], healths: &[SourceHealth], cell: &Cell) -> (s: Slot)
    ensures
        slot_for(s, *cfg, latest@, healths@, *cell),
{
    let span = cell.span();
    match cell {
        Cell::Group { title, main, secondary, table } => {
            let m = match main {
                Some(it) => if source_visible_in(cfg, it.id(), UiView::Tui) {
                    Some(build_panel(cfg, latest, healths, it.id(), it.explicit_label()))
                } else {
                    None
                },
                None => None,
            };
            Slot {
                span,
                group_title: clone_opt(title),
                main: m,
                secondary: panels_for(cfg, latest, healths, secondary.as_slice()),
                table: panels_for(cfg, latest, healths, table.as_slice()),
                text: None,
            }
        },
        Cell::Source(name) => Slot {
            span,
            group_title: None,
            main: if source_visible_in(cfg, name.as_str(), UiView::Tui) {
                Some(build_panel(cfg, latest, healths, name.as_str(), None))
            } else {
                None
            },
            secondary: Vec::new(),
            table: Vec::new(),
            text: None,
        },
        Cell::Pane { id, title } => {
            let t: Option<&str> = match title {
                Some(t) => Some(t.as_str()),
                None => None,
            };
            Slot {
                span,
                group_title: None,
                main: if source_visible_in(cfg, id.as_str(), UiView::Tui) {
                    Some(build_panel(cfg, latest, healths, id.as_str(), t))
                } else {
                    None
                },
                secondary: Vec::new(),
                table: Vec::new(),
                text: None,
            }
        },
        Cell::Space { .. } => Slot {
            span,
            group_title: None,
            main: None,
            secondary: Vec::new(),
            table: Vec::new(),
            text: None,
        },
        Cell::Text { title, text, .. } => Slot {
            span,
            group_title: clone_opt(title),
            main: None,
            secondary: Vec::new(),
            table: Vec::new(),
            text: Some(text.clone()),
        },
    }
}

/// Every layout's rows, stacked in order.
pub open spec fn all_rows(ls: Seq<LayoutCfg>) -> Seq<Seq<Cell>>
    decreases ls.len(),
{
    if ls.len() == 0 {
        Seq::empty()
    } else {
        all_rows(ls.drop_last()) + rows_of(ls.last())
    }
}

/// Whether `rows` are the slots of `cells`, row by row.
pub open spec fn rows_for(
    rows: Seq<Vec<Slot>>,
    cfg: Config,
    latest: Seq<ReadingRow>,
    healths: Seq<SourceHealth>,
    cells: Seq<Seq<Cell>>,
) -> bool {
    &&& rows.len() == cells.len()
    &&& forall|i: int|
        0 <= i < rows.len() ==> (#[trigger] rows[i])@.len() == cells[i].len() && forall|j: int|
            0 <= j < cells[i].len() ==> slot_for(rows[i]@[j], cfg, latest, healths, cells[i][j])
}

fn build_row(cfg: &Config, latest: &[ReadingRow], healths: &[SourceHealth], cells: &Vec<Cell>) -> (r: Vec<Slot>)
    ensures
        r@.len() == cells@.len(),
        forall|j: int| 0 <= j < cells@.len() ==> slot_for(#[trigger] r@[j], *cfg, latest@, healths@, cells@[j]),
{
    let mut out: Vec<Slot> = Vec::new();
    let mut j: usize = 0;
    while j < cells.len()
        invariant
            j <= cells@.len(),
            out@.len() == j,
            forall|m: int| 0 <= m < j ==> slot_for(#[trigger] out@[m], *cfg, latest@, healths@, cells@[m]),
        decreases cells.len() - j,
    {
        out.push(build_slot(cfg, latest, healths, &cells[j]));
        j = j + 1;
    }
    out
}

/// Applies one refresh: fresh data replaces every slot and clears the
/// error banner; a failed refresh only sets the banner, keeping the last
/// slots on screen.
pub fn apply_outcome(cfg: &Config, outcome: Outcome, state: &mut UiState)
    ensures
        match outcome {
            Outcome::Data(latest, healths) => {
                &&& final(state).error.is_none()
                &&& rows_for(final(state).rows@, *cfg, latest@, healths@, all_rows(cfg.layouts@))
            },
            Outcome::Failed(msg) => {
                &&& opt_view(final(state).error) == Some(msg@)
                &&& final(state).rows@ == old(state).rows@
            },
        },
{
    match outcome {
        Outcome::Data(latest, healths) => {
            state.error = None;
            let mut rows: Vec<Vec<Slot>> = Vec::new();
            let mut li: usize = 0;
            while li < cfg.layouts.len()
                invariant
                    li <= cfg.layouts@.len(),
                    rows_for(rows@, *cfg, latest@, healths@, all_rows(cfg.layouts@.take(li as int))),
                decreases cfg.layouts.len() - li,
            {
                let l = &cfg.layouts[li];
                let ghost before = rows@;
                let ghost done = all_rows(cfg.layouts@.take(li as int));
                let mut ri: usize = 0;
                while ri < l.rows.len()
                    invariant
                        ri <= l.rows@.len(),
                        *l == cfg.layouts@[li as int],
                        rows@.len() == before.len() + ri,
                        rows@.subrange(0, before.len() as int) == before,
                        before.len() == done.len(),
                        rows_for(before, *cfg, latest@, healths@, done),
                        forall|k: int|
                            0 <= k < ri ==> (#[trigger] rows@[before.len() + k])@.len()
                                == l.rows@[k]@.len() && forall|j: int|
                                0 <= j < l.rows@[k]@.len() ==> slot_for(
                                    rows@[before.len() + k]@[j],
                                    *cfg,
                                    latest@,
                                    healths@,
                                    l.rows@[k]@[j],
                                ),
                    decreases l.rows.len() - ri,
                {
                    let ghost prev = rows@;
                    let r = build_row(cfg, &latest, &healths, &l.rows[ri]);
                    rows.push(r);
                    proof {
                        assert(rows@.subrange(0, before.len() as int) =~= prev.subrange(
                            0,
                            before.len() as int,
                        ));
                        assert forall|k: int| 0 <= k < ri + 1 implies (#[trigger] rows@[before.len()
                            + k])@.len() == l.rows@[k]@.len() && forall|j: int|
                            0 <= j < l.rows@[k]@.len() ==> slot_for(
                                rows@[before.len() + k]@[j],
                                *cfg,
                                latest@,
                                healths@,
                                l.rows@[k]@[j],
                            ) by {
                            if k < ri {
                                assert(rows@[before.len() + k] == prev[before.len() + k]);
                            }
                        }
                    }
                    ri = ri + 1;
                }
                proof {
                    let ls = cfg.layouts@.take(li + 1);
                    assert(ls.drop_last() =~= cfg.layouts@.take(li as int));
                    assert(ls.last() == *l);
                    let now = all_rows(ls);
                    assert(now == done + rows_of(*l));
                    assert forall|i: int| 0 <= i < rows@.len() implies (#[trigger] rows@[i])@.len()
                        == now[i].len() && forall|j: int|
                        0 <= j < now[i].len() ==> slot_for(
                            rows@[i]@[j],
                            *cfg,
                            latest@,
                            healths@,
                            now[i][j],
                        ) by {
                        if i < before.len() {
                            assert(rows@[i] == before[i]);
                            assert(now[i] == done[i]);
                        } else {
                            let k = i - before.len();
                            assert(rows@[i] == rows@[before.len() + k]);
                            assert(now[i] == rows_of(*l)[k]);
                            assert(rows_of(*l)[k] == l.rows@[k]@);
                        }
                    }
                }
                li = li + 1;
            }
            assert(cfg.layouts@.take(li as int) =~= cfg.layouts@);
            state.rows = rows;
        },
        Outcome::Failed(msg) => {
            state.error = Some(msg);
        },
    }
}

} // verus!
