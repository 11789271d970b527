//! Source declarations: what to fetch, how often, and where it may display,
//! plus the threshold-band and health color model shared by both UIs.

use vstd::prelude::*;
use crate::config::Config;
use crate::config::error::ConfigError;
use crate::config::layout::ValueFormat;
use crate::health::Health;
use crate::num::{Num, num_le, num_lt, num_is_nan, order_key};
use crate::text::str_eq;

verus! {

/// Nanoseconds in one second.
pub const NANOS_PER_SEC: u128 = 1_000_000_000;

/// A source's collection mechanism.
#[derive(Debug, Clone, Copy, PartialEq, Eq, Structural)]
pub enum SourceType {
    Query,
    Stream,
    Ingest,
    Child,
}

pub open spec fn source_type_name(t: SourceType) -> Seq<char> {
    match t {
        SourceType::Query => "query"@,
        SourceType::Stream => "stream"@,
        SourceType::Ingest => "ingest"@,
        SourceType::Child => "child"@,
    }
}

impl SourceType {
    pub fn as_str(self) -> (r: &'static str)
        ensures
            r@ == source_type_name(self),
    {
        match self {
            SourceType::Query => "query",
            SourceType::Stream => "stream",
            SourceType::Ingest => "ingest",
            SourceType::Child => "child",
        }
    }
}

/// The three threshold-band / accent-color levels.
#[derive(Debug, Clone, Copy, PartialEq, Eq, Structural)]
pub enum Level {
    Green,
    Yellow,
    Red,
}

pub open spec fn level_name(l: Level) -> Seq<char> {
    match l {
        Level::Green => "green"@,
        Level::Yellow => "yellow"@,
        Level::Red => "red"@,
    }
}

impl Level {
    pub fn as_str(self) -> (r: &'static str)
        ensures
            r@ == level_name(self),
    {
        match self {
            Level::Green => "green",
            Level::Yellow => "yellow",
            Level::Red => "red",
        }
    }
}

/// How a source's fetched value is stored.
#[derive(Debug, Clone, Copy, PartialEq, Eq, Structural)]
pub enum ValueType {
    String,
    Bigint,
    Double,
    Json,
}

/// Which UI(s) a source may display in.
#[derive(Debug, Clone, Copy, PartialEq, Eq, Structural)]
pub enum UiView {
    All,
    Tui,
    Web,
}

/// One coloring band: values up to `bound` (inclusive) take `level`.
#[derive(Debug, Clone, Copy, PartialEq, Eq, Structural)]
pub struct Threshold {
    pub bound: Num,
    pub level: Level,
}

/// One declared child of a composite `query` source.
#[derive(Debug, Clone)]
pub struct ChildDecl {
    pub name: String,
    pub title: Option<String>,
    pub unit: Option<String>,
    pub format: Option<ValueFormat>,
    pub thresholds: Vec<Threshold>,
    pub history_points: Option<u32>,
    pub show_history: Option<bool>,
    pub show_in: Option<UiView>,
    pub value_type: Option<ValueType>,
}

/// One source declaration. Durations are whole nanoseconds.
#[derive(Debug, Clone)]
pub enum SourceCfg {
    /// Oneshot shell command run per schedule tick (`interval` or `cron`).
    Query {
        name: String,
        title: Option<String>,
        interval: Option<u128>,
        cron: Option<String>,
        retry_interval: Option<u128>,
        timeout: u128,
        unit: Option<String>,
        setup: Option<String>,
        format: Option<ValueFormat>,
        thresholds: Vec<Threshold>,
        history_points: Option<u32>,
        show_history: Option<bool>,
        show_in: Option<UiView>,
        value_type: Option<ValueType>,
        command: String,
        children: Option<Vec<ChildDecl>>,
    },
    /// Long-running command whose stdout lines are readings.
    Stream {
        name: String,
        title: Option<String>,
        timeout: u128,
        unit: Option<String>,
        setup: Option<String>,
        format: Option<ValueFormat>,
        thresholds: Vec<Threshold>,
        history_points: Option<u32>,
        show_history: Option<bool>,
        show_in: Option<UiView>,
        value_type: Option<ValueType>,
        command: String,
        expected_interval: u128,
        retry_interval: Option<u128>,
    },
    /// Push-based source fed over HTTP.
    Ingest {
        name: String,
        title: Option<String>,
        expected_interval: u128,
        unit: Option<String>,
        format: Option<ValueFormat>,
        thresholds: Vec<Threshold>,
        history_points: Option<u32>,
        show_history: Option<bool>,
        show_in: Option<UiView>,
        value_type: Option<ValueType>,
    },
    /// One composite source's expanded child, carrying its root's schedule.
    Child {
        name: String,
        parent: String,
        title: Option<String>,
        unit: Option<String>,
        format: Option<ValueFormat>,
        thresholds: Vec<Threshold>,
        history_points: Option<u32>,
        show_history: Option<bool>,
        show_in: Option<UiView>,
        value_type: Option<ValueType>,
        effective_interval: u128,
        cron: Option<String>,
        timeout: u128,
    },
}

/// `Duration::from_mins(5)`.
pub open spec fn spec_default_interval() -> u128 {
    300_000_000_000
}

/// `Duration::from_secs(30)`.
pub open spec fn spec_default_timeout() -> u128 {
    30_000_000_000
}

/// `Duration::from_secs(30)`.
pub open spec fn spec_default_retry_interval() -> u128 {
    30_000_000_000
}

pub open spec fn opt_view(o: Option<String>) -> Option<Seq<char>> {
    match o {
        Some(s) => Some(s@),
        None => None,
    }
}

pub open spec fn src_kind(s: SourceCfg) -> SourceType {
    match s {
        SourceCfg::Query { .. } => SourceType::Query,
        SourceCfg::Stream { .. } => SourceType::Stream,
        SourceCfg::Ingest { .. } => SourceType::Ingest,
        SourceCfg::Child { .. } => SourceType::Child,
    }
}

pub open spec fn src_name(s: SourceCfg) -> Seq<char> {
    match s {
        SourceCfg::Query { name, .. } => name@,
        SourceCfg::Stream { name, .. } => name@,
        SourceCfg::Ingest { name, .. } => name@,
        SourceCfg::Child { name, .. } => name@,
    }
}

pub open spec fn src_is_composite(s: SourceCfg) -> bool {
    match s {
        SourceCfg::Query { children, .. } => match children {
            Some(c) => c@.len() > 0,
            None => false,
        },
        _ => false,
    }
}

pub open spec fn src_parent(s: SourceCfg) -> Option<Seq<char>> {
    match s {
        SourceCfg::Child { parent, .. } => Some(parent@),
        _ => None,
    }
}

pub open spec fn src_title(s: SourceCfg) -> Option<Seq<char>> {
    match s {
        SourceCfg::Query { title, .. } => opt_view(title),
        SourceCfg::Stream { title, .. } => opt_view(title),
        SourceCfg::Ingest { title, .. } => opt_view(title),
        SourceCfg::Child { title, .. } => opt_view(title),
    }
}

pub open spec fn src_timeout(s: SourceCfg) -> u128 {
    match s {
        SourceCfg::Query { timeout, .. } => timeout,
        SourceCfg::Stream { timeout, .. } => timeout,
        SourceCfg::Child { timeout, .. } => timeout,
        SourceCfg::Ingest { .. } => spec_default_timeout(),
    }
}

pub open spec fn src_unit(s: SourceCfg) -> Option<Seq<char>> {
    match s {
        SourceCfg::Query { unit, .. } => opt_view(unit),
        SourceCfg::Stream { unit, .. } => opt_view(unit),
        SourceCfg::Ingest { unit, .. } => opt_view(unit),
        SourceCfg::Child { unit, .. } => opt_view(unit),
    }
}

pub open spec fn src_setup(s: SourceCfg) -> Option<Seq<char>> {
    match s {
        SourceCfg::Query { setup, .. } => opt_view(setup),
        SourceCfg::Stream { setup, .. } => opt_view(setup),
        _ => None,
    }
}

pub open spec fn src_format(s: SourceCfg) -> Option<ValueFormat> {
    match s {
        SourceCfg::Query { format, .. } => format,
        SourceCfg::Stream { format, .. } => format,
        SourceCfg::Ingest { format, .. } => format,
        SourceCfg::Child { format, .. } => format,
    }
}

pub open spec fn src_thresholds(s: SourceCfg) -> Seq<Threshold> {
    match s {
        SourceCfg::Query { thresholds, .. } => thresholds@,
        SourceCfg::Stream { thresholds, .. } => thresholds@,
        SourceCfg::Ingest { thresholds, .. } => thresholds@,
        SourceCfg::Child { thresholds, .. } => thresholds@,
    }
}

pub open spec fn src_history_points(s: SourceCfg) -> Option<u32> {
    match s {
        SourceCfg::Query { history_points, .. } => history_points,
        SourceCfg::Stream { history_points, .. } => history_points,
        SourceCfg::Ingest { history_points, .. } => history_points,
        SourceCfg::Child { history_points, .. } => history_points,
    }
}

pub open spec fn src_show_history(s: SourceCfg) -> Option<bool> {
    match s {
        SourceCfg::Query { show_history, .. } => show_history,
        SourceCfg::Stream { show_history, .. } => show_history,
        SourceCfg::Ingest { show_history, .. } => show_history,
        SourceCfg::Child { show_history, .. } => show_history,
    }
}

pub open spec fn src_show_in(s: SourceCfg) -> Option<UiView> {
    match s {
        SourceCfg::Query { show_in, .. } => show_in,
        SourceCfg::Stream { show_in, .. } => show_in,
        SourceCfg::Ingest { show_in, .. } => show_in,
        SourceCfg::Child { show_in, .. } => show_in,
    }
}

pub open spec fn src_value_type(s: SourceCfg) -> Option<ValueType> {
    match s {
        SourceCfg::Query { value_type, .. } => value_type,
        SourceCfg::Stream { value_type, .. } => value_type,
        SourceCfg::Ingest { value_type, .. } => value_type,
        SourceCfg::Child { value_type, .. } => value_type,
    }
}

pub open spec fn src_command(s: SourceCfg) -> Seq<char> {
    match s {
        SourceCfg::Query { command, .. } => command@,
        SourceCfg::Stream { command, .. } => command@,
        _ => Seq::empty(),
    }
}

pub open spec fn src_cron(s: SourceCfg) -> Option<Seq<char>> {
    match s {
        SourceCfg::Query { cron, .. } => opt_view(cron),
        SourceCfg::Child { cron, .. } => opt_view(cron),
        _ => None,
    }
}

pub open spec fn src_interval(s: SourceCfg) -> Option<u128> {
    match s {
        SourceCfg::Query { interval, .. } => interval,
        _ => None,
    }
}

pub open spec fn src_retry_interval(s: SourceCfg) -> Option<u128> {
    match s {
        SourceCfg::Query { retry_interval, .. } => retry_interval,
        SourceCfg::Stream { retry_interval, .. } => retry_interval,
        _ => None,
    }
}

pub open spec fn src_expected_interval(s: SourceCfg) -> Option<u128> {
    match s {
        SourceCfg::Stream { expected_interval, .. } => Some(expected_interval),
        SourceCfg::Ingest { expected_interval, .. } => Some(expected_interval),
        _ => None,
    }
}

/// The interval a source is scheduled (query) or judged stale (stream,
/// ingest) on; a child reports its root's.
pub open spec fn src_effective_interval(s: SourceCfg) -> u128 {
    match s {
        SourceCfg::Query { interval, .. } => match interval {
            Some(i) => i,
            None => spec_default_interval(),
        },
        SourceCfg::Stream { expected_interval, .. } => expected_interval,
        SourceCfg::Ingest { expected_interval, .. } => expected_interval,
        SourceCfg::Child { effective_interval, .. } => effective_interval,
    }
}

pub open spec fn src_effective_retry_interval(s: SourceCfg) -> u128 {
    match src_retry_interval(s) {
        Some(r) => r,
        None => spec_default_retry_interval(),
    }
}

/// Whether a source may display in `view`: unset or `all` means anywhere.
pub open spec fn src_visible_in(s: SourceCfg, view: UiView) -> bool {
    match src_show_in(s) {
        None => true,
        Some(UiView::All) => true,
        Some(v) => v == view,
    }
}

pub open spec fn src_effective_value_type(s: SourceCfg) -> ValueType {
    match src_value_type(s) {
        Some(v) => v,
        None => ValueType::String,
    }
}

fn opt_str(o: &Option<String>) -> (r: Option<&str>)
    ensures
        r.is_some() == o.is_some(),
        r matches Some(x) ==> opt_view(*o) == Some(x@),
{
    match o {
        Some(s) => Some(s.as_str()),
        None => None,
    }
}

impl SourceCfg {
    pub fn kind(&self) -> (r: SourceType)
        ensures
            r == src_kind(*self),
    {
        match self {
            SourceCfg::Query { .. } => SourceType::Query,
            SourceCfg::Stream { .. } => SourceType::Stream,
            SourceCfg::Ingest { .. } => SourceType::Ingest,
            SourceCfg::Child { .. } => SourceType::Child,
        }
    }

    pub fn is_stream(&self) -> (r: bool)
        ensures
            r == (*self is Stream),
    {
        match self {
            SourceCfg::Stream { .. } => true,
            _ => false,
        }
    }

    pub fn is_ingest(&self) -> (r: bool)
        ensures
            r == (*self is Ingest),
    {
        match self {
            SourceCfg::Ingest { .. } => true,
            _ => false,
        }
    }

    /// A composite root: a query source declaring one or more children.
    pub fn is_composite(&self) -> (r: bool)
        ensures
            r == src_is_composite(*self),
    {
        match self {
            SourceCfg::Query { children, .. } => match children {
                Some(c) => c.len() > 0,
                None => false,
            },
            _ => false,
        }
    }

    pub fn is_child(&self) -> (r: bool)
        ensures
            r == (*self is Child),
    {
        match self {
            SourceCfg::Child { .. } => true,
            _ => false,
        }
    }

    pub fn name(&self) -> (r: &str)
        ensures
            r@ == src_name(*self),
    {
        match self {
            SourceCfg::Query { name, .. } => name.as_str(),
            SourceCfg::Stream { name, .. } => name.as_str(),
            SourceCfg::Ingest { name, .. } => name.as_str(),
            SourceCfg::Child { name, .. } => name.as_str(),
        }
    }

    /// The full name of this child's composite root; `None` otherwise.
    pub fn parent(&self) -> (r: Option<&str>)
        ensures
            r.is_some() == src_parent(*self).is_some(),
            r matches Some(p) ==> src_parent(*self) == Some(p@),
    {
        match self {
            SourceCfg::Child { parent, .. } => Some(parent.as_str()),
            _ => None,
        }
    }

    pub fn display_title(&self) -> (r: Option<&str>)
        ensures
            r.is_some() == src_title(*self).is_some(),
            r matches Some(t) ==> src_title(*self) == Some(t@),
    {
        match self {
            SourceCfg::Query { title, .. } => opt_str(title),
            SourceCfg::Stream { title, .. } => opt_str(title),
            SourceCfg::Ingest { title, .. } => opt_str(title),
            SourceCfg::Child { title, .. } => opt_str(title),
        }
    }

    /// The fetch timeout; an ingest source reports the default.
    pub fn timeout(&self) -> (r: u128)
        ensures
            r == src_timeout(*self),
    {
        match self {
            SourceCfg::Query { timeout, .. } => *timeout,
            SourceCfg::Stream { timeout, .. } => *timeout,
            SourceCfg::Child { timeout, .. } => *timeout,
            SourceCfg::Ingest { .. } => crate::config::default_timeout(),
        }
    }

    pub fn unit(&self) -> (r: Option<&str>)
        ensures
            r.is_some() == src_unit(*self).is_some(),
            r matches Some(u) ==> src_unit(*self) == Some(u@),
    {
        match self {
            SourceCfg::Query { unit, .. } => opt_str(unit),
            SourceCfg::Stream { unit, .. } => opt_str(unit),
            SourceCfg::Ingest { unit, .. } => opt_str(unit),
            SourceCfg::Child { unit, .. } => opt_str(unit),
        }
    }

    pub fn setup(&self) -> (r: Option<&str>)
        ensures
            r.is_some() == src_setup(*self).is_some(),
            r matches Some(u) ==> src_setup(*self) == Some(u@),
    {
        match self {
            SourceCfg::Query { setup, .. } => opt_str(setup),
            SourceCfg::Stream { setup, .. } => opt_str(setup),
            _ => None,
        }
    }

    pub fn format(&self) -> (r: Option<ValueFormat>)
        ensures
            r == src_format(*self),
    {
        match self {
            SourceCfg::Query { format, .. } => *format,
            SourceCfg::Stream { format, .. } => *format,
            SourceCfg::Ingest { format, .. } => *format,
            SourceCfg::Child { format, .. } => *format,
        }
    }

    pub fn thresholds(&self) -> (r: &[Threshold])
        ensures
            r@ == src_thresholds(*self),
    {
        match self {
            SourceCfg::Query { thresholds, .. } => thresholds.as_slice(),
            SourceCfg::Stream { thresholds, .. } => thresholds.as_slice(),
            SourceCfg::Ingest { thresholds, .. } => thresholds.as_slice(),
            SourceCfg::Child { thresholds, .. } => thresholds.as_slice(),
        }
    }

    pub fn history_points(&self) -> (r: Option<u32>)
        ensures
            r == src_history_points(*self),
    {
        match self {
            SourceCfg::Query { history_points, .. } => *history_points,
            SourceCfg::Stream { history_points, .. } => *history_points,
            SourceCfg::Ingest { history_points, .. } => *history_points,
            SourceCfg::Child { history_points, .. } => *history_points,
        }
    }

    pub fn show_history(&self) -> (r: Option<bool>)
        ensures
            r == src_show_history(*self),
    {
        match self {
            SourceCfg::Query { show_history, .. } => *show_history,
            SourceCfg::Stream { show_history, .. } => *show_history,
            SourceCfg::Ingest { show_history, .. } => *show_history,
            SourceCfg::Child { show_history, .. } => *show_history,
        }
    }

    pub fn show_in(&self) -> (r: Option<UiView>)
        ensures
            r == src_show_in(*self),
    {
        match self {
            SourceCfg::Query { show_in, .. } => *show_in,
            SourceCfg::Stream { show_in, .. } => *show_in,
            SourceCfg::Ingest { show_in, .. } => *show_in,
            SourceCfg::Child { show_in, .. } => *show_in,
        }
    }

    pub fn value_type(&self) -> (r: Option<ValueType>)
        ensures
            r == src_value_type(*self),
    {
        match self {
            SourceCfg::Query { value_type, .. } => *value_type,
            SourceCfg::Stream { value_type, .. } => *value_type,
            SourceCfg::Ingest { value_type, .. } => *value_type,
            SourceCfg::Child { value_type, .. } => *value_type,
        }
    }

    /// The command a query or stream runs; empty for ingest and children.
    pub fn command(&self) -> (r: &str)
        ensures
            r@ == src_command(*self),
    {
        match self {
            SourceCfg::Query { command, .. } => command.as_str(),
            SourceCfg::Stream { command, .. } => command.as_str(),
            _ => {
                proof {
                    reveal_strlit("");
                }
                ""
            },
        }
    }

    pub fn cron(&self) -> (r: Option<&str>)
        ensures
            r.is_some() == src_cron(*self).is_some(),
            r matches Some(c) ==> src_cron(*self) == Some(c@),
    {
        match self {
            SourceCfg::Query { cron, .. } => opt_str(cron),
            SourceCfg::Child { cron, .. } => opt_str(cron),
            _ => None,
        }
    }

    pub fn interval(&self) -> (r: Option<u128>)
        ensures
            r == src_interval(*self),
    {
        match self {
            SourceCfg::Query { interval, .. } => *interval,
            _ => None,
        }
    }

    pub fn retry_interval(&self) -> (r: Option<u128>)
        ensures
            r == src_retry_interval(*self),
    {
        match self {
            SourceCfg::Query { retry_interval, .. } => *retry_interval,
            SourceCfg::Stream { retry_interval, .. } => *retry_interval,
            _ => None,
        }
    }

    pub fn expected_interval(&self) -> (r: Option<u128>)
        ensures
            r == src_expected_interval(*self),
    {
        match self {
            SourceCfg::Stream { expected_interval, .. } => Some(*expected_interval),
            SourceCfg::Ingest { expected_interval, .. } => Some(*expected_interval),
            _ => None,
        }
    }

    pub fn effective_interval(&self) -> (r: u128)
        ensures
            r == src_effective_interval(*self),
    {
        match self {
            SourceCfg::Query { interval, .. } => match interval {
                Some(i) => *i,
                None => crate::config::default_interval(),
            },
            SourceCfg::Stream { expected_interval, .. } => *expected_interval,
            SourceCfg::Ingest { expected_interval, .. } => *expected_interval,
            SourceCfg::Child { effective_interval, .. } => *effective_interval,
        }
    }

    pub fn effective_retry_interval(&self) -> (r: u128)
        ensures
            r == src_effective_retry_interval(*self),
    {
        match self.retry_interval() {
            Some(r) => r,
            None => crate::config::default_retry_interval(),
        }
    }

    pub fn visible_in(&self, view: UiView) -> (r: bool)
        ensures
            r == src_visible_in(*self, view),
    {
        match self.show_in() {
            None => true,
            Some(UiView::All) => true,
            Some(v) => v == view,
        }
    }

    pub fn effective_value_type(&self) -> (r: ValueType)
        ensures
            r == src_effective_value_type(*self),
    {
        match self.value_type() {
            Some(v) => v,
            None => ValueType::String,
        }
    }
}


/// One member of a group cell's `main`/`secondary`/`table` sections.
#[derive(Debug, Clone)]
pub enum GroupItem {
    Id(String),
    Labeled { id: String, label: String },
}

pub open spec fn group_item_id(it: GroupItem) -> Seq<char> {
    match it {
        GroupItem::Id(id) => id@,
        GroupItem::Labeled { id, .. } => id@,
    }
}

impl GroupItem {
    pub fn id(&self) -> (r: &str)
        ensures
            r@ == group_item_id(*self),
    {
        match self {
            GroupItem::Id(id) => id.as_str(),
            GroupItem::Labeled { id, .. } => id.as_str(),
        }
    }

    /// The configured label override; `None` for a bare id.
    pub fn explicit_label(&self) -> (r: Option<&str>)
        ensures
            r.is_some() == (*self is Labeled),
            r matches Some(l) ==> (*self matches GroupItem::Labeled { label, .. } && l@ == label@),
    {
        match self {
            GroupItem::Id(_) => None,
            GroupItem::Labeled { label, .. } => Some(label.as_str()),
        }
    }
}

/// One band list is rejected exactly when it holds a single band: a lone
/// band cannot color anything.
pub fn validate_thresholds(source: &str, thresholds: &[Threshold]) -> (r: Result<(), ConfigError>)
    ensures
        r.is_err() == (thresholds@.len() == 1),
        r matches Err(e) ==> (e matches ConfigError::LoneThreshold(n) && n@ == source@),
{
    if thresholds.len() == 1 {
        Err(ConfigError::LoneThreshold(source.to_owned()))
    } else {
        Ok(())
    }
}

/// One step of the single pass `level_for` makes over the bands: the
/// covering band with the lowest bound (earliest among equal bounds), and
/// the band with the highest bound (latest among equal bounds).
pub open spec fn band_step(
    acc: (Option<Threshold>, Option<Threshold>),
    t: Threshold,
    v: Num,
) -> (Option<Threshold>, Option<Threshold>) {
    let covering = if num_le(v, t.bound) && (match acc.0 {
        None => true,
        Some(c) => num_lt(t.bound, c.bound),
    }) {
        Some(t)
    } else {
        acc.0
    };
    let highest = if (match acc.1 {
        None => true,
        Some(h) => num_le(h.bound, t.bound),
    }) {
        Some(t)
    } else {
        acc.1
    };
    (covering, highest)
}

/// The pass `level_for` makes: `band_step` over the bands in declared
/// order. What it picks, stated without the pass, is proved as
/// `lemma_level_for_meaning`.
pub open spec fn band_scan(ths: Seq<Threshold>, v: Num) -> (Option<Threshold>, Option<Threshold>)
    decreases ths.len(),
{
    if ths.len() == 0 {
        (None, None)
    } else {
        band_step(band_scan(ths.drop_last(), v), ths.last(), v)
    }
}

/// The band level of a reading: the lowest band whose bound is at or above
/// the value, else the highest band; `None` for a non-numeric reading (NaN
/// included) or no bands.
pub open spec fn spec_level_for(ths: Seq<Threshold>, value: Option<Num>) -> Option<Level> {
    match value {
        None => None,
        Some(v) => if num_is_nan(v) {
            None
        } else {
            let (c, h) = band_scan(ths, v);
            match c {
                Some(t) => Some(t.level),
                None => match h {
                    Some(t) => Some(t.level),
                    None => None,
                },
            }
        },
    }
}

/// Resolves the color level for a reading (`value`: the reading parsed as
/// a number, `None` when it is not one) against a source's bands.
pub fn level_for(thresholds: &[Threshold], value: Option<Num>) -> (r: Option<Level>)
    ensures
        r == spec_level_for(thresholds@, value),
{
    let v = match value {
        None => {
            return None;
        },
        Some(v) => v,
    };
    if v.is_nan() {
        return None;
    }
    let mut covering: Option<Threshold> = None;
    let mut highest: Option<Threshold> = None;
    let mut i: usize = 0;
    while i < thresholds.len()
        invariant
            i <= thresholds@.len(),
            (covering, highest) == band_scan(thresholds@.take(i as int), v),
        decreases thresholds.len() - i,
    {
        let t = thresholds[i];
        assert(thresholds@.take(i + 1).drop_last() =~= thresholds@.take(i as int));
        let take_cov = match covering {
            None => true,
            Some(c) => t.bound.lt(c.bound),
        };
        if v.le(t.bound) && take_cov {
            covering = Some(t);
        }
        let take_high = match highest {
            None => true,
            Some(h) => h.bound.le(t.bound),
        };
        if take_high {
            highest = Some(t);
        }
        i = i + 1;
    }
    assert(thresholds@.take(thresholds@.len() as int) =~= thresholds@);
    match covering {
        Some(t) => Some(t.level),
        None => match highest {
            Some(t) => Some(t.level),
            None => None,
        },
    }
}

/// Health takes priority whenever the source is not healthy (failing is
/// red, stale is yellow); a healthy source shows its band, if any.
pub open spec fn spec_accent_color(level: Option<Level>, status: Health) -> Option<Level> {
    match status {
        Health::Failing => Some(Level::Red),
        Health::Stale => Some(Level::Yellow),
        Health::Healthy => level,
    }
}

pub fn accent_color(level: Option<Level>, status: Health) -> (r: Option<Level>)
    ensures
        r == spec_accent_color(level, status),
{
    match status {
        Health::Failing => Some(Level::Red),
        Health::Stale => Some(Level::Yellow),
        Health::Healthy => level,
    }
}

pub open spec fn spec_status_color(level: Option<Level>, status: Health) -> Level {
    match spec_accent_color(level, status) {
        Some(l) => l,
        None => Level::Green,
    }
}

/// Same priority as [`accent_color`], falling back to green.
pub fn status_color(level: Option<Level>, status: Health) -> (r: Level)
    ensures
        r == spec_status_color(level, status),
{
    match accent_color(level, status) {
        Some(l) => l,
        None => Level::Green,
    }
}

/// Severity rank: green < yellow < red.
pub open spec fn severity(l: Level) -> int {
    match l {
        Level::Green => 0,
        Level::Yellow => 1,
        Level::Red => 2,
    }
}

/// Worst of a set of colors (red > yellow > green); green when empty.
pub open spec fn spec_worst_color(colors: Seq<Level>) -> Level {
    if colors.contains(Level::Red) {
        Level::Red
    } else if colors.contains(Level::Yellow) {
        Level::Yellow
    } else {
        Level::Green
    }
}

pub fn worst_color(colors: &[Level]) -> (r: Level)
    ensures
        r == spec_worst_color(colors@),
        forall|i: int| 0 <= i < colors@.len() ==> severity(#[trigger] colors@[i]) <= severity(r),
{
    let mut worst = Level::Green;
    let mut i: usize = 0;
    while i < colors.len()
        invariant
            i <= colors@.len(),
            forall|j: int| 0 <= j < i ==> colors@[j] != Level::Red,
            worst == Level::Yellow <==> exists|j: int| 0 <= j < i && colors@[j] == Level::Yellow,
            worst != Level::Red,
        decreases colors.len() - i,
    {
        let c = colors[i];
        if c == Level::Red {
            assert(colors@.contains(Level::Red));
            return Level::Red;
        }
        if c == Level::Yellow {
            worst = Level::Yellow;
        }
        i = i + 1;
    }
    proof {
        if worst == Level::Yellow {
            let j = choose|j: int| 0 <= j < i && colors@[j] == Level::Yellow;
            assert(colors@.contains(colors@[j]));
        }
    }
    worst
}

/// The first source named `name` in `srcs`, if any.
pub open spec fn find_source(srcs: Seq<SourceCfg>, name: Seq<char>) -> Option<SourceCfg>
    decreases srcs.len(),
{
    if srcs.len() == 0 {
        None
    } else if src_name(srcs[0]) == name {
        Some(srcs[0])
    } else {
        find_source(srcs.drop_first(), name)
    }
}

/// Index of the first source named `name`.
pub fn find_source_index(srcs: &Vec<SourceCfg>, name: &str) -> (r: Option<usize>)
    ensures
        r.is_none() == find_source(srcs@, name@).is_none(),
        r matches Some(i) ==> i < srcs@.len() && find_source(srcs@, name@) == Some(srcs@[i as int])
            && src_name(srcs@[i as int]) == name@,
{
    let mut i: usize = 0;
    assert(srcs@.skip(0) =~= srcs@);
    while i < srcs.len()
        invariant
            i <= srcs@.len(),
            find_source(srcs@.skip(i as int), name@) == find_source(srcs@, name@),
        decreases srcs.len() - i,
    {
        assert(srcs@.skip(i as int).drop_first() =~= srcs@.skip(i + 1));
        if str_eq(srcs[i].name(), name) {
            return Some(i);
        }
        i = i + 1;
    }
    None
}

/// Whether the source named `name` may display in `view`; `true` when no
/// such source exists.
pub open spec fn spec_source_visible_in(cfg: Config, name: Seq<char>, view: UiView) -> bool {
    match find_source(cfg.sources@, name) {
        None => true,
        Some(s) => src_visible_in(s, view),
    }
}

pub fn source_visible_in(cfg: &Config, name: &str, view: UiView) -> (r: bool)
    ensures
        r == spec_source_visible_in(*cfg, name@, view),
{
    match find_source_index(&cfg.sources, name) {
        None => true,
        Some(i) => cfg.sources[i].visible_in(view),
    }
}

pub open spec fn visible_filter(cfg: Config, items: Seq<GroupItem>, view: UiView) -> Seq<GroupItem>
    decreases items.len(),
{
    if items.len() == 0 {
        Seq::empty()
    } else {
        let rest = visible_filter(cfg, items.drop_last(), view);
        if spec_source_visible_in(cfg, group_item_id(items.last()), view) {
            rest.push(items.last())
        } else {
            rest
        }
    }
}

pub open spec fn derefs<T>(v: Seq<&T>) -> Seq<T> {
    v.map_values(|x: &T| *x)
}

/// A pane's members filtered down to those visible in `view`, in order.
pub fn visible_items<'a>(cfg: &Config, items: &'a [GroupItem], view: UiView) -> (r: Vec<&'a GroupItem>)
    ensures
        derefs(r@) == visible_filter(*cfg, items@, view),
{
    let mut out: Vec<&GroupItem> = Vec::new();
    let mut i: usize = 0;
    while i < items.len()
        invariant
            i <= items@.len(),
            derefs(out@) == visible_filter(*cfg, items@.take(i as int), view),
        decreases items.len() - i,
    {
        assert(items@.take(i + 1).drop_last() =~= items@.take(i as int));
        if source_visible_in(cfg, items[i].id(), view) {
            out.push(&items[i]);
            assert(derefs(out@) =~= visible_filter(*cfg, items@.take(i + 1), view));
        }
        i = i + 1;
    }
    assert(items@.take(items@.len() as int) =~= items@);
    out
}

/// Every expanded child of the composite named `name`, in order.
pub open spec fn children_of(srcs: Seq<SourceCfg>, name: Seq<char>) -> Seq<SourceCfg>
    decreases srcs.len(),
{
    if srcs.len() == 0 {
        Seq::empty()
    } else {
        let rest = children_of(srcs.drop_last(), name);
        if src_parent(srcs.last()) == Some(name) {
            rest.push(srcs.last())
        } else {
            rest
        }
    }
}

pub fn composite_children<'a>(cfg: &'a Config, name: &str) -> (r: Vec<&'a SourceCfg>)
    ensures
        derefs(r@) == children_of(cfg.sources@, name@),
{
    let mut out: Vec<&SourceCfg> = Vec::new();
    let mut i: usize = 0;
    while i < cfg.sources.len()
        invariant
            i <= cfg.sources@.len(),
            derefs(out@) == children_of(cfg.sources@.take(i as int), name@),
        decreases cfg.sources.len() - i,
    {
        assert(cfg.sources@.take(i + 1).drop_last() =~= cfg.sources@.take(i as int));
        let is_child_of = match cfg.sources[i].parent() {
            Some(p) => str_eq(p, name),
            None => false,
        };
        if is_child_of {
            out.push(&cfg.sources[i]);
            assert(derefs(out@) =~= children_of(cfg.sources@.take(i + 1), name@));
        }
        i = i + 1;
    }
    assert(cfg.sources@.take(cfg.sources@.len() as int) =~= cfg.sources@);
    out
}

} // verus!
