//! Per-source, per-cell and whole-configuration validation.

use vstd::prelude::*;
use crate::config::Config;
use crate::config::error::{
    ConfigError, bad_name_tail, bq, composite_msg, error_text, kind_msg, row_at, src_msg,
};
use crate::config::layout::{
    Cell, LayoutCfg, TuiWidth, ValueFormat, cell_span, layout_columns, layout_widths_fit, rows_of,
};
use crate::config::source::{
    GroupItem, find_source, find_source_index, opt_view, SourceCfg, SourceType, src_history_points, src_name, src_thresholds, validate_thresholds,
};
use crate::num::num_is_finite;
use crate::outside::{cron_has_future, cron_parse_error, parse_cron};
use crate::text::{all_name_chars, is_name, str_eq};

verus! {

/// What checking a query source's cron expression found.
#[derive(Debug, Clone)]
pub enum CronStatus {
    /// The source declares no cron expression to check.
    NotCron,
    /// The expression does not parse; the parser's message.
    Invalid(String),
    /// The expression parses but has no future occurrence.
    NoFuture,
    /// The expression parses and will fire again.
    Fires,
}

/// Whether `st` is a possible result of checking `s`'s cron expression:
/// parse failures are determined by the expression; whether a parsed
/// schedule fires again depends on the clock.
pub open spec fn cron_status_fits(s: SourceCfg, st: CronStatus) -> bool {
    match s {
        SourceCfg::Query { cron: Some(e), .. } => match cron_parse_error(e@) {
            Some(t) => st matches CronStatus::Invalid(d) && d@ == t,
            None => st is NoFuture || st is Fires,
        },
        _ => st is NotCron,
    }
}

/// Checks a source's cron expression, if it is a query source with one.
pub fn cron_status(s: &SourceCfg) -> (r: CronStatus)
    ensures
        cron_status_fits(*s, r),
{
    match s {
        SourceCfg::Query { cron: Some(e), .. } => match parse_cron(e.as_str()) {
            Err(t) => CronStatus::Invalid(t),
            Ok(c) => if cron_has_future(&c) {
                CronStatus::Fires
            } else {
                CronStatus::NoFuture
            },
        },
        _ => CronStatus::NotCron,
    }
}

pub open spec fn is_zero(d: Option<u128>) -> bool {
    d == Some(0u128)
}

/// The first per-type rule a source breaks, as error text.
pub open spec fn kind_problem(s: SourceCfg, st: CronStatus) -> Option<Seq<char>> {
    let n = src_name(s);
    match s {
        SourceCfg::Query { command, interval, cron, retry_interval, .. } => if command@.len() == 0 {
            Some(kind_msg(SourceType::Query, n, " requires `command`"@))
        } else if is_zero(interval) {
            Some(src_msg(n, " interval must be > 0"@))
        } else if interval.is_some() && cron.is_some() {
            Some(src_msg(n, " must declare only one of `interval`/`cron`"@))
        } else if is_zero(retry_interval) {
            Some(src_msg(n, " retry_interval must be > 0"@))
        } else if retry_interval.is_some() && cron.is_some() {
            Some(src_msg(n, " retry_interval has no effect on a cron-scheduled source"@))
        } else {
            match (cron, st) {
                (Some(e), CronStatus::Invalid(d)) => Some(
                    src_msg(n, " has invalid cron expression "@ + bq(e@) + ": "@ + d@),
                ),
                (Some(e), CronStatus::NoFuture) => Some(
                    src_msg(n, " cron expression "@ + bq(e@) + " has no future occurrence"@),
                ),
                _ => None,
            }
        },
        SourceCfg::Stream { command, expected_interval, retry_interval, .. } => if command@.len()
            == 0 {
            Some(kind_msg(SourceType::Stream, n, " requires `command`"@))
        } else if expected_interval == 0 {
            Some(kind_msg(SourceType::Stream, n, " expected_interval must be > 0"@))
        } else if is_zero(retry_interval) {
            Some(src_msg(n, " retry_interval must be > 0"@))
        } else {
            None
        },
        SourceCfg::Ingest { expected_interval, .. } => if expected_interval == 0 {
            Some(kind_msg(SourceType::Ingest, n, " expected_interval must be > 0"@))
        } else {
            None
        },
        SourceCfg::Child { .. } => None,
    }
}

/// The first rule a source breaks, in the order they are checked: its
/// name (a composite child's full name joins two names its expansion
/// already checked), its per-type fields, its bands, its history length.
pub open spec fn source_problem(s: SourceCfg, st: CronStatus) -> Option<Seq<char>> {
    let n = src_name(s);
    if n.len() == 0 {
        Some("source with empty name"@)
    } else if !(s is Child) && !all_name_chars(n) {
        Some(src_msg(n, bad_name_tail()))
    } else if kind_problem(s, st).is_some() {
        kind_problem(s, st)
    } else if exists|i: int|
        0 <= i < src_thresholds(s).len() && !num_is_finite(#[trigger] src_thresholds(s)[i].bound) {
        Some(src_msg(n, " threshold bound must be finite"@))
    } else if src_thresholds(s).len() == 1 {
        Some(src_msg(n, " needs at least 2 thresholds to form bands"@))
    } else if src_history_points(s) == Some(0u32) {
        Some(src_msg(n, " history_points must be > 0"@))
    } else {
        None
    }
}

fn check_kind(s: &SourceCfg, st: &CronStatus) -> (r: Result<(), ConfigError>)
    ensures
        r.is_err() == kind_problem(*s, *st).is_some(),
        r matches Err(e) ==> kind_problem(*s, *st) == Some(error_text(e)),
{
    match s {
        SourceCfg::Query { name, command, interval, cron, retry_interval, .. } => {
            if command.as_str().is_empty() {
                return Err(
                    ConfigError::MissingCommand { kind: SourceType::Query, name: name.clone() },
                );
            }
            if *interval == Some(0u128) {
                return Err(ConfigError::IntervalZero(name.clone()));
            }
            if interval.is_some() && cron.is_some() {
                return Err(ConfigError::IntervalAndCron(name.clone()));
            }
            if *retry_interval == Some(0u128) {
                return Err(ConfigError::RetryIntervalZero(name.clone()));
            }
            if retry_interval.is_some() && cron.is_some() {
                return Err(ConfigError::RetryIntervalWithCron(name.clone()));
            }
            match (cron, st) {
                (Some(e), CronStatus::Invalid(d)) => Err(
                    ConfigError::InvalidCron { name: name.clone(), expr: e.clone(), detail: d.clone() },
                ),
                (Some(e), CronStatus::NoFuture) => Err(
                    ConfigError::CronNoFuture { name: name.clone(), expr: e.clone() },
                ),
                _ => Ok(()),
            }
        },
        SourceCfg::Stream { name, command, expected_interval, retry_interval, .. } => {
            if command.as_str().is_empty() {
                return Err(
                    ConfigError::MissingCommand { kind: SourceType::Stream, name: name.clone() },
                );
            }
            if *expected_interval == 0 {
                return Err(
                    ConfigError::ExpectedIntervalZero {
                        kind: SourceType::Stream,
                        name: name.clone(),
                    },
                );
            }
            if *retry_interval == Some(0u128) {
                return Err(ConfigError::RetryIntervalZero(name.clone()));
            }
            Ok(())
        },
        SourceCfg::Ingest { name, expected_interval, .. } => {
            if *expected_interval == 0 {
                return Err(
                    ConfigError::ExpectedIntervalZero {
                        kind: SourceType::Ingest,
                        name: name.clone(),
                    },
                );
            }
            Ok(())
        },
        SourceCfg::Child { .. } => Ok(()),
    }
}

/// Validates one source given what checking its cron expression found.
pub fn check_source(s: &SourceCfg, st: &CronStatus) -> (r: Result<(), ConfigError>)
    ensures
        r.is_err() == source_problem(*s, *st).is_some(),
        r matches Err(e) ==> source_problem(*s, *st) == Some(error_text(e)),
{
    let name = s.name();
    if name.is_empty() {
        return Err(ConfigError::EmptySourceName);
    }
    if !s.is_child() && !is_name(name) {
        return Err(ConfigError::BadSourceName(name.to_owned()));
    }
    check_kind(s, st)?;
    let ths = s.thresholds();
    let mut i: usize = 0;
    while i < ths.len()
        invariant
            i <= ths@.len(),
            ths@ == src_thresholds(*s),
            name@ == src_name(*s),
            name@.len() > 0,
            !(*s is Child) ==> all_name_chars(name@),
            kind_problem(*s, *st).is_none(),
            forall|j: int| 0 <= j < i ==> num_is_finite(#[trigger] ths@[j].bound),
        decreases ths.len() - i,
    {
        if !ths[i].bound.is_finite() {
            assert(!num_is_finite(src_thresholds(*s)[i as int].bound));
            return Err(ConfigError::BoundNotFinite(name.to_owned()));
        }
        i = i + 1;
    }
    validate_thresholds(name, ths)?;
    if s.history_points() == Some(0u32) {
        return Err(ConfigError::SourceHistoryPointsZero(name.to_owned()));
    }
    Ok(())
}


/// Validates one source, checking its cron expression (if any) first.
pub fn validate_source(s: &SourceCfg) -> (r: Result<(), ConfigError>)
    ensures
        exists|st: CronStatus|
            cron_status_fits(*s, st) && r.is_err() == source_problem(*s, st).is_some() && (
            r matches Err(e) ==> source_problem(*s, st) == Some(error_text(e))),
{
    let st = cron_status(s);
    let r = check_source(s, &st);
    assert(cron_status_fits(*s, st) && r.is_err() == source_problem(*s, st).is_some() && (
    r matches Err(e) ==> source_problem(*s, st) == Some(error_text(e))));
    r
}

pub open spec fn source_known(cfg: Config, name: Seq<char>) -> bool {
    find_source(cfg.sources@, name).is_some()
}

/// The first id in `ids` naming no declared source.
pub open spec fn first_unknown(cfg: Config, ids: Seq<Seq<char>>) -> Option<Seq<char>>
    decreases ids.len(),
{
    if ids.len() == 0 {
        None
    } else if !source_known(cfg, ids[0]) {
        Some(ids[0])
    } else {
        first_unknown(cfg, ids.drop_first())
    }
}

pub open spec fn group_label(title: Option<String>) -> Seq<char> {
    match title {
        Some(t) => t@,
        None => "<untitled>"@,
    }
}

/// The rule a layout cell breaks (`row` is the row's index, from 0), as error text.
pub open spec fn cell_problem(cfg: Config, layout: Seq<char>, row: usize, cell: Cell) -> Option<
    Seq<char>,
> {
    let at = row_at(layout, row);
    match cell {
        Cell::Source(name) => if !source_known(cfg, name@) {
            Some(at + " references unknown source "@ + bq(name@))
        } else {
            None
        },
        Cell::Pane { id, .. } => if !source_known(cfg, id@) {
            Some(at + " references unknown source "@ + bq(id@))
        } else {
            None
        },
        Cell::Space { colspan, .. } => if colspan == Some(0usize) {
            Some(at + " has a space with colspan 0"@)
        } else {
            None
        },
        Cell::Text { text, format, .. } => if text@.len() == 0 {
            Some(at + " has a text panel with empty text"@)
        } else {
            match format {
                Some(f) => if f@ != "text"@ && f@ != "markdown"@ {
                    Some("unknown value format "@ + bq(f@) + " (known formats: text, markdown)"@)
                } else {
                    None
                },
                None => None,
            }
        },
        Cell::Group { title, main, secondary, table } => if opt_view(title) == Some(Seq::<
            char,
        >::empty()) {
            Some(at + " has a group with an empty title"@)
        } else if main.is_none() && secondary@.len() == 0 && table@.len() == 0 {
            Some(at + " has group "@ + bq(group_label(title)) + " with none of main/secondary/table"@)
        } else {
            match first_unknown(
                cfg,
                crate::config::layout::opt_item_ids(main) + crate::config::layout::items_ids(
                    secondary@,
                ) + crate::config::layout::items_ids(table@),
            ) {
                Some(n) => Some(
                    at + " group "@ + bq(group_label(title)) + " references unknown source "@ + bq(
                        n,
                    ),
                ),
                None => None,
            }
        },
    }
}

fn check_known(cfg: &Config, name: &str) -> (r: bool)
    ensures
        r == source_known(*cfg, name@),
{
    find_source_index(&cfg.sources, name).is_some()
}

proof fn lemma_first_unknown_split(cfg: Config, a: Seq<Seq<char>>, b: Seq<Seq<char>>)
    ensures
        first_unknown(cfg, a + b) == (if first_unknown(cfg, a).is_some() {
            first_unknown(cfg, a)
        } else {
            first_unknown(cfg, b)
        }),
    decreases a.len(),
{
    if a.len() > 0 {
        assert((a + b).drop_first() =~= a.drop_first() + b);
        lemma_first_unknown_split(cfg, a.drop_first(), b);
    } else {
        assert(a + b =~= b);
    }
}

fn scan_items<'a>(cfg: &Config, items: &'a Vec<GroupItem>) -> (r: Option<&'a str>)
    ensures
        r.is_some() == first_unknown(*cfg, crate::config::layout::items_ids(items@)).is_some(),
        r matches Some(n) ==> first_unknown(*cfg, crate::config::layout::items_ids(items@)) == Some(
            n@,
        ),
{
    let ghost ids = crate::config::layout::items_ids(items@);
    let mut i: usize = 0;
    assert(ids.skip(0) =~= ids);
    while i < items.len()
        invariant
            i <= items@.len(),
            ids == crate::config::layout::items_ids(items@),
            first_unknown(*cfg, ids.skip(i as int)) == first_unknown(*cfg, ids),
        decreases items.len() - i,
    {
        assert(ids.skip(i as int)[0] == crate::config::source::group_item_id(items@[i as int]));
        assert(ids.skip(i as int).drop_first() =~= ids.skip(i + 1));
        let id = items[i].id();
        if !check_known(cfg, id) {
            return Some(id);
        }
        i = i + 1;
    }
    assert(ids.skip(i as int) =~= Seq::<Seq<char>>::empty());
    None
}

/// Validates one layout cell (`row` is the row's index, from 0).
pub fn validate_cell(cfg: &Config, layout: &str, row: usize, cell: &Cell) -> (r: Result<
    (),
    ConfigError,
>)
    ensures
        r.is_err() == cell_problem(*cfg, layout@, row, *cell).is_some(),
        r matches Err(e) ==> cell_problem(*cfg, layout@, row, *cell) == Some(error_text(e)),
{
    match cell {
        Cell::Source(name) => {
            if !check_known(cfg, name.as_str()) {
                return Err(
                    ConfigError::UnknownSource {
                        layout: layout.to_owned(),
                        row,
                        name: name.clone(),
                    },
                );
            }
            Ok(())
        },
        Cell::Pane { id, .. } => {
            if !check_known(cfg, id.as_str()) {
                return Err(
                    ConfigError::UnknownSource { layout: layout.to_owned(), row, name: id.clone() },
                );
            }
            Ok(())
        },
        Cell::Space { colspan, .. } => {
            if *colspan == Some(0usize) {
                return Err(ConfigError::ZeroColspan { layout: layout.to_owned(), row });
            }
            Ok(())
        },
        Cell::Text { text, format, .. } => {
            if text.as_str().is_empty() {
                return Err(ConfigError::EmptyText { layout: layout.to_owned(), row });
            }
            match format {
                Some(f) => {
                    proof {
                        reveal_strlit("text");
                        reveal_strlit("markdown");
                    }
                    match ValueFormat::parse(f.as_str()) {
                        Ok(_) => Ok(()),
                        Err(e) => Err(e),
                    }
                },
                None => Ok(()),
            }
        },
        Cell::Group { title, main, secondary, table } => {
            let is_empty_title = match title {
                Some(t) => t.as_str().is_empty(),
                None => false,
            };
            if is_empty_title {
                assert(opt_view(*title) =~= Some(Seq::<char>::empty()));
                return Err(ConfigError::EmptyGroupTitle { layout: layout.to_owned(), row });
            }
            assert(opt_view(*title) != Some(Seq::<char>::empty()));
            let label: String = match title {
                Some(t) => t.clone(),
                None => {
                    proof {
                        reveal_strlit("<untitled>");
                    }
                    "<untitled>".to_owned()
                },
            };
            if main.is_none() && secondary.len() == 0 && table.len() == 0 {
                return Err(ConfigError::EmptyGroup { layout: layout.to_owned(), row, group: label });
            }
            let ghost a = crate::config::layout::opt_item_ids(*main);
            let ghost b = crate::config::layout::items_ids(secondary@);
            let ghost c = crate::config::layout::items_ids(table@);
            proof {
                lemma_first_unknown_split(*cfg, a, b);
                lemma_first_unknown_split(*cfg, a + b, c);
                if main.is_some() {
                    assert(a.drop_first() =~= Seq::<Seq<char>>::empty());
                }
            }
            match main {
                Some(it) => {
                    if !check_known(cfg, it.id()) {
                        return Err(
                            ConfigError::GroupUnknownSource {
                                layout: layout.to_owned(),
                                row,
                                group: label,
                                name: it.id().to_owned(),
                            },
                        );
                    }
                },
                None => {},
            }
            assert(first_unknown(*cfg, a).is_none()) by {
                if main.is_none() {
                    assert(a =~= Seq::<Seq<char>>::empty());
                } else {
                    assert(a.drop_first() =~= Seq::<Seq<char>>::empty());
                    assert(first_unknown(*cfg, a.drop_first()).is_none());
                }
            }
            match scan_items(cfg, secondary) {
                Some(n) => {
                    return Err(
                        ConfigError::GroupUnknownSource {
                            layout: layout.to_owned(),
                            row,
                            group: label,
                            name: n.to_owned(),
                        },
                    );
                },
                None => {},
            }
            match scan_items(cfg, table) {
                Some(n) => {
                    return Err(
                        ConfigError::GroupUnknownSource {
                            layout: layout.to_owned(),
                            row,
                            group: label,
                            name: n.to_owned(),
                        },
                    );
                },
                None => {},
            }
            Ok(())
        },
    }
}


/// Whether an earlier source (before index `j`) has the same name.
pub open spec fn duplicate_before(srcs: Seq<SourceCfg>, j: int) -> bool {
    exists|k: int| 0 <= k < j && src_name(#[trigger] srcs[k]) == src_name(srcs[j])
}

/// Scanning sources from index `j`: the first one that repeats an earlier
/// name or breaks a source rule.
pub open spec fn sources_problem(srcs: Seq<SourceCfg>, st: Seq<CronStatus>, j: int) -> Option<
    Seq<char>,
>
    decreases srcs.len() - j,
{
    if j < 0 || j >= srcs.len() {
        None
    } else if duplicate_before(srcs, j) {
        Some("duplicate source name "@ + bq(src_name(srcs[j])))
    } else if source_problem(srcs[j], st[j]).is_some() {
        source_problem(srcs[j], st[j])
    } else {
        sources_problem(srcs, st, j + 1)
    }
}

/// Scanning one row's cells from index `ci`.
pub open spec fn row_problem(cfg: Config, layout: Seq<char>, row: usize, cells: Seq<Cell>, ci: int) -> Option<
    Seq<char>,
>
    decreases cells.len() - ci,
{
    if ci < 0 || ci >= cells.len() {
        None
    } else if cell_problem(cfg, layout, row, cells[ci]).is_some() {
        cell_problem(cfg, layout, row, cells[ci])
    } else {
        row_problem(cfg, layout, row, cells, ci + 1)
    }
}

/// Scanning a layout's rows from index `ri`.
pub open spec fn rows_problem(cfg: Config, l: LayoutCfg, ri: int) -> Option<Seq<char>>
    decreases l.rows@.len() - ri,
{
    if ri < 0 || ri >= l.rows@.len() {
        None
    } else if row_problem(cfg, l.title@, ri as usize, l.rows@[ri]@, 0).is_some() {
        row_problem(cfg, l.title@, ri as usize, l.rows@[ri]@, 0)
    } else {
        rows_problem(cfg, l, ri + 1)
    }
}

/// Scanning layouts from index `li`.
pub open spec fn layouts_problem(cfg: Config, li: int) -> Option<Seq<char>>
    decreases cfg.layouts@.len() - li,
{
    if li < 0 || li >= cfg.layouts@.len() {
        None
    } else {
        let l = cfg.layouts@[li];
        if l.rows@.len() == 0 {
            Some("layout "@ + bq(l.title@) + " has no rows"@)
        } else if layout_columns(l) == 0 {
            Some("layout "@ + bq(l.title@) + " column count is 0"@)
        } else if rows_problem(cfg, l, 0).is_some() {
            rows_problem(cfg, l, 0)
        } else {
            layouts_problem(cfg, li + 1)
        }
    }
}

/// The first rule a configuration breaks, given what checking each
/// source's cron expression found (`st[i]` for source `i`).
pub open spec fn config_problem(cfg: Config, st: Seq<CronStatus>) -> Option<Seq<char>> {
    if cfg.history_points == 0 {
        Some("history_points must be > 0"@)
    } else if cfg.retention == Some(0u128) {
        Some("retention must be > 0"@)
    } else if (cfg.tui_width matches TuiWidth::Named(w) && w@ != "auto"@) {
        Some("tui_width must be \"auto\" or a positive integer, got "@ + bq(cfg.tui_width->Named_0@))
    } else if cfg.tui_width == TuiWidth::Fixed(0u16) {
        Some("tui_width must be > 0"@)
    } else if sources_problem(cfg.sources@, st, 0).is_some() {
        sources_problem(cfg.sources@, st, 0)
    } else {
        layouts_problem(cfg, 0)
    }
}

/// Summing spans cannot overflow in any layout.
pub open spec fn config_widths_fit(cfg: Config) -> bool {
    forall|i: int| 0 <= i < cfg.layouts@.len() ==> layout_widths_fit(#[trigger] cfg.layouts@[i])
}

/// Whether `st` is a possible result of checking every source's cron
/// expression.
pub open spec fn cron_statuses_fit(cfg: Config, st: Seq<CronStatus>) -> bool {
    &&& st.len() == cfg.sources@.len()
    &&& forall|i: int| 0 <= i < st.len() ==> cron_status_fits(#[trigger] cfg.sources@[i], st[i])
}

/// Checks every source's cron expression, in order.
pub fn cron_statuses(cfg: &Config) -> (r: Vec<CronStatus>)
    ensures
        cron_statuses_fit(*cfg, r@),
{
    let mut out: Vec<CronStatus> = Vec::new();
    let mut i: usize = 0;
    while i < cfg.sources.len()
        invariant
            i <= cfg.sources@.len(),
            out@.len() == i,
            forall|k: int| 0 <= k < i ==> cron_status_fits(#[trigger] cfg.sources@[k], out@[k]),
        decreases cfg.sources.len() - i,
    {
        out.push(cron_status(&cfg.sources[i]));
        i = i + 1;
    }
    out
}

fn has_duplicate_before(srcs: &Vec<SourceCfg>, j: usize) -> (r: bool)
    requires
        j < srcs@.len(),
    ensures
        r == duplicate_before(srcs@, j as int),
{
    let mut k: usize = 0;
    while k < j
        invariant
            k <= j < srcs@.len(),
            forall|m: int| 0 <= m < k ==> src_name(#[trigger] srcs@[m]) != src_name(srcs@[j as int]),
        decreases j - k,
    {
        if str_eq(srcs[k].name(), srcs[j].name()) {
            return true;
        }
        k = k + 1;
    }
    false
}

fn check_sources(srcs: &Vec<SourceCfg>, st: &Vec<CronStatus>) -> (r: Result<(), ConfigError>)
    requires
        st@.len() == srcs@.len(),
    ensures
        r.is_err() == sources_problem(srcs@, st@, 0).is_some(),
        r matches Err(e) ==> sources_problem(srcs@, st@, 0) == Some(error_text(e)),
{
    let mut i: usize = 0;
    while i < srcs.len()
        invariant
            i <= srcs@.len(),
            st@.len() == srcs@.len(),
            sources_problem(srcs@, st@, i as int) == sources_problem(srcs@, st@, 0),
        decreases srcs.len() - i,
    {
        if has_duplicate_before(srcs, i) {
            return Err(ConfigError::DuplicateSource(srcs[i].name().to_owned()));
        }
        let r = check_source(&srcs[i], &st[i]);
        if r.is_err() {
            return r;
        }
        i = i + 1;
    }
    Ok(())
}

fn check_row(cfg: &Config, layout: &str, row_idx: usize, row: &Vec<Cell>) -> (r: Result<
    (),
    ConfigError,
>)
    ensures
        r.is_err() == row_problem(*cfg, layout@, row_idx, row@, 0).is_some(),
        r matches Err(e) ==> row_problem(*cfg, layout@, row_idx, row@, 0) == Some(error_text(e)),
{
    let mut ci: usize = 0;
    while ci < row.len()
        invariant
            ci <= row@.len(),
            row_problem(*cfg, layout@, row_idx, row@, ci as int) == row_problem(
                *cfg,
                layout@,
                row_idx,
                row@,
                0,
            ),
        decreases row.len() - ci,
    {
        let r = validate_cell(cfg, layout, row_idx, &row[ci]);
        if r.is_err() {
            return r;
        }
        ci = ci + 1;
    }
    Ok(())
}

fn check_rows(cfg: &Config, l: &LayoutCfg) -> (r: Result<(), ConfigError>)
    ensures
        r.is_err() == rows_problem(*cfg, *l, 0).is_some(),
        r matches Err(e) ==> rows_problem(*cfg, *l, 0) == Some(error_text(e)),
{
    let mut ri: usize = 0;
    while ri < l.rows.len()
        invariant
            ri <= l.rows@.len(),
            rows_problem(*cfg, *l, ri as int) == rows_problem(*cfg, *l, 0),
        decreases l.rows.len() - ri,
    {
        let r = check_row(cfg, l.title.as_str(), ri, &l.rows[ri]);
        if r.is_err() {
            return r;
        }
        ri = ri + 1;
    }
    Ok(())
}

fn check_layouts(cfg: &Config) -> (r: Result<(), ConfigError>)
    requires
        config_widths_fit(*cfg),
    ensures
        r.is_err() == layouts_problem(*cfg, 0).is_some(),
        r matches Err(e) ==> layouts_problem(*cfg, 0) == Some(error_text(e)),
{
    let mut li: usize = 0;
    while li < cfg.layouts.len()
        invariant
            li <= cfg.layouts@.len(),
            config_widths_fit(*cfg),
            layouts_problem(*cfg, li as int) == layouts_problem(*cfg, 0),
        decreases cfg.layouts.len() - li,
    {
        let l = &cfg.layouts[li];
        assert(layout_widths_fit(cfg.layouts@[li as int]));
        if l.rows.len() == 0 {
            return Err(ConfigError::LayoutNoRows(l.title.clone()));
        }
        if l.columns() == 0 {
            return Err(ConfigError::LayoutZeroColumns(l.title.clone()));
        }
        let r = check_rows(cfg, l);
        if r.is_err() {
            return r;
        }
        li = li + 1;
    }
    Ok(())
}

/// Validates a whole configuration given each source's cron check.
pub fn check_config(cfg: &Config, st: &Vec<CronStatus>) -> (r: Result<(), ConfigError>)
    requires
        st@.len() == cfg.sources@.len(),
        config_widths_fit(*cfg),
    ensures
        r.is_err() == config_problem(*cfg, st@).is_some(),
        r matches Err(e) ==> config_problem(*cfg, st@) == Some(error_text(e)),
{
    if cfg.history_points == 0 {
        return Err(ConfigError::HistoryPointsZero);
    }
    if cfg.retention == Some(0u128) {
        return Err(ConfigError::RetentionZero);
    }
    match &cfg.tui_width {
        TuiWidth::Named(w) => {
            if !str_eq(w.as_str(), "auto") {
                return Err(ConfigError::TuiWidthNamed(w.clone()));
            }
        },
        TuiWidth::Fixed(n) => {
            if *n == 0 {
                return Err(ConfigError::TuiWidthZero);
            }
        },
    }
    let r = check_sources(&cfg.sources, st);
    if r.is_err() {
        return r;
    }
    check_layouts(cfg)
}

/// Validates a whole configuration, checking cron expressions first.
pub fn validate(cfg: &Config) -> (r: Result<(), ConfigError>)
    requires
        config_widths_fit(*cfg),
    ensures
        exists|st: Seq<CronStatus>|
            cron_statuses_fit(*cfg, st) && r.is_err() == config_problem(*cfg, st).is_some() && (
            r matches Err(e) ==> config_problem(*cfg, st) == Some(error_text(e))),
        forall|i: int, j: int|
            0 <= i < j < cfg.sources@.len() && src_name(#[trigger] cfg.sources@[i]) == src_name(
                #[trigger] cfg.sources@[j],
            ) ==> r.is_err(),
{
    let st = cron_statuses(cfg);
    let r = check_config(cfg, &st);
    assert(cron_statuses_fit(*cfg, st@) && r.is_err() == config_problem(*cfg, st@).is_some() && (
    r matches Err(e) ==> config_problem(*cfg, st@) == Some(error_text(e))));
    proof {
        assert forall|i: int, j: int|
            0 <= i < j < cfg.sources@.len() && src_name(#[trigger] cfg.sources@[i]) == src_name(
                #[trigger] cfg.sources@[j],
            ) implies r.is_err() by {
            crate::laws::lemma_duplicate_names_refused(*cfg, st@, i, j);
        }
    }
    r
}

} // verus!
