//! Configuration: the whole-config model, built-in defaults, environment
//! overrides, and validation.

use vstd::prelude::*;

pub mod composite;
pub mod error;
pub mod layout;
pub mod overrides;
pub mod source;
pub mod validation;

pub use composite::expand_composites;
pub use error::ConfigError;
pub use layout::{Cell, LayoutCfg, TuiWidth, ValueFormat};
pub use overrides::{apply_env_overrides_from, parse_env_tui_width, parse_env_u32};
pub use source::{
    ChildDecl, GroupItem, Level, SourceCfg, SourceType, Threshold, UiView, ValueType,
    accent_color, composite_children, level_for, source_visible_in, status_color,
    validate_thresholds, visible_items, worst_color,
};
pub use validation::{validate, validate_source};

verus! {

/// A whole configuration. Durations are whole nanoseconds.
#[derive(Debug, Clone)]
pub struct Config {
    pub database_path: String,
    pub listen: String,
    pub interval: u128,
    pub failure_threshold: u32,
    pub stale_after: u128,
    pub history_points: u32,
    pub retention: Option<u128>,
    pub sources: Vec<SourceCfg>,
    pub layouts: Vec<LayoutCfg>,
    pub tui_width: TuiWidth,
    pub config_dir: String,
}

pub fn default_db_path() -> (r: String)
    ensures
        r@ == "dashboard.duckdb"@,
{
    "dashboard.duckdb".to_owned()
}

pub fn default_listen() -> (r: String)
    ensures
        r@ == "127.0.0.1:8420"@,
{
    "127.0.0.1:8420".to_owned()
}

/// Five minutes.
pub fn default_interval() -> (r: u128)
    ensures
        r == source::spec_default_interval(),
{
    300_000_000_000
}

/// Thirty seconds.
pub fn default_timeout() -> (r: u128)
    ensures
        r == source::spec_default_timeout(),
{
    30_000_000_000
}

/// Thirty seconds.
pub fn default_retry_interval() -> (r: u128)
    ensures
        r == source::spec_default_retry_interval(),
{
    30_000_000_000
}

pub fn default_threshold() -> (r: u32)
    ensures
        r == 3,
{
    3
}

/// Thirty minutes.
pub fn default_stale() -> (r: u128)
    ensures
        r == 1_800_000_000_000,
{
    1_800_000_000_000
}

pub fn default_history_points() -> (r: u32)
    ensures
        r == 30,
{
    30
}

pub fn default_tui_width() -> (r: TuiWidth)
    ensures
        (r matches TuiWidth::Named(s) && s@ == "auto"@),
{
    TuiWidth::Named("auto".to_owned())
}

pub fn default_config_dir() -> (r: String)
    ensures
        r@ == "."@,
{
    ".".to_owned()
}

impl Config {
    /// A configuration with every field at its default and no sources or
    /// layouts.
    pub fn default_config() -> (c: Config)
        ensures
            c.database_path@ == "dashboard.duckdb"@,
            c.listen@ == "127.0.0.1:8420"@,
            c.interval == source::spec_default_interval(),
            c.failure_threshold == 3,
            c.stale_after == 1_800_000_000_000,
            c.history_points == 30,
            c.retention.is_none(),
            c.sources@.len() == 0,
            c.layouts@.len() == 0,
            (c.tui_width matches TuiWidth::Named(s) && s@ == "auto"@),
            c.config_dir@ == "."@,
    {
        Config {
            database_path: default_db_path(),
            listen: default_listen(),
            interval: default_interval(),
            failure_threshold: default_threshold(),
            stale_after: default_stale(),
            history_points: default_history_points(),
            retention: None,
            sources: Vec::new(),
            layouts: Vec::new(),
            tui_width: default_tui_width(),
            config_dir: default_config_dir(),
        }
    }
}

} // verus!
