//! Everything configuration loading and validation can reject, with the
//! exact message each rejection reads as.

use vstd::prelude::*;
use crate::config::source::{SourceType, source_type_name};
use crate::text::{cat, decimal, u128_to_string};

verus! {

/// Why a configuration (or one environment override) was rejected.
#[derive(Debug, Clone)]
pub enum ConfigError {
    HistoryPointsZero,
    RetentionZero,
    TuiWidthNamed(String),
    TuiWidthZero,
    DuplicateSource(String),
    LayoutNoRows(String),
    LayoutZeroColumns(String),
    EmptySourceName,
    BadSourceName(String),
    MissingCommand { kind: SourceType, name: String },
    IntervalZero(String),
    IntervalAndCron(String),
    RetryIntervalZero(String),
    RetryIntervalWithCron(String),
    InvalidCron { name: String, expr: String, detail: String },
    CronNoFuture { name: String, expr: String },
    ExpectedIntervalZero { kind: SourceType, name: String },
    BoundNotFinite(String),
    LoneThreshold(String),
    SourceHistoryPointsZero(String),
    UnknownSource { layout: String, row: usize, name: String },
    ZeroColspan { layout: String, row: usize },
    EmptyText { layout: String, row: usize },
    UnknownFormat(String),
    EmptyGroupTitle { layout: String, row: usize },
    EmptyGroup { layout: String, row: usize, group: String },
    GroupUnknownSource { layout: String, row: usize, group: String, name: String },
    ChildTypeDeclared(String),
    EmptyChildren(String),
    RootDeclares { name: String, field: String },
    BadChildName { name: String, child: String },
    DuplicateChild { name: String, child: String },
    EnvInvalid { var: String, value: String },
}

pub open spec fn bq(s: Seq<char>) -> Seq<char> {
    "`"@ + s + "`"@
}

/// Where a layout cell is: its layout, and its row counted from 1 (`row`
/// is the row's index, counted from 0).
pub open spec fn row_at(layout: Seq<char>, row: usize) -> Seq<char> {
    "layout "@ + bq(layout) + " row "@ + decimal((row + 1) as nat)
}

pub open spec fn src_msg(name: Seq<char>, rest: Seq<char>) -> Seq<char> {
    "source "@ + bq(name) + rest
}

pub open spec fn kind_msg(kind: SourceType, name: Seq<char>, rest: Seq<char>) -> Seq<char> {
    source_type_name(kind) + " source "@ + bq(name) + rest
}

pub open spec fn composite_msg(name: Seq<char>, rest: Seq<char>) -> Seq<char> {
    "composite source "@ + bq(name) + rest
}

pub open spec fn bad_name_tail() -> Seq<char> {
    " name must contain only ASCII letters, digits, `_`, or `-`"@
}

/// The text a configuration error reads as.
pub open spec fn error_text(e: ConfigError) -> Seq<char> {
    match e {
        ConfigError::HistoryPointsZero => "history_points must be > 0"@,
        ConfigError::RetentionZero => "retention must be > 0"@,
        ConfigError::TuiWidthNamed(s) => "tui_width must be \"auto\" or a positive integer, got "@
            + bq(s@),
        ConfigError::TuiWidthZero => "tui_width must be > 0"@,
        ConfigError::DuplicateSource(n) => "duplicate source name "@ + bq(n@),
        ConfigError::LayoutNoRows(t) => "layout "@ + bq(t@) + " has no rows"@,
        ConfigError::LayoutZeroColumns(t) => "layout "@ + bq(t@) + " column count is 0"@,
        ConfigError::EmptySourceName => "source with empty name"@,
        ConfigError::BadSourceName(n) => src_msg(n@, bad_name_tail()),
        ConfigError::MissingCommand { kind, name } => kind_msg(kind, name@, " requires `command`"@),
        ConfigError::IntervalZero(n) => src_msg(n@, " interval must be > 0"@),
        ConfigError::IntervalAndCron(n) => src_msg(
            n@,
            " must declare only one of `interval`/`cron`"@,
        ),
        ConfigError::RetryIntervalZero(n) => src_msg(n@, " retry_interval must be > 0"@),
        ConfigError::RetryIntervalWithCron(n) => src_msg(
            n@,
            " retry_interval has no effect on a cron-scheduled source"@,
        ),
        ConfigError::InvalidCron { name, expr, detail } => src_msg(
            name@,
            " has invalid cron expression "@ + bq(expr@) + ": "@ + detail@,
        ),
        ConfigError::CronNoFuture { name, expr } => src_msg(
            name@,
            " cron expression "@ + bq(expr@) + " has no future occurrence"@,
        ),
        ConfigError::ExpectedIntervalZero { kind, name } => kind_msg(
            kind,
            name@,
            " expected_interval must be > 0"@,
        ),
        ConfigError::BoundNotFinite(n) => src_msg(n@, " threshold bound must be finite"@),
        ConfigError::LoneThreshold(n) => src_msg(n@, " needs at least 2 thresholds to form bands"@),
        ConfigError::SourceHistoryPointsZero(n) => src_msg(n@, " history_points must be > 0"@),
        ConfigError::UnknownSource { layout, row, name } => row_at(layout@, row)
            + " references unknown source "@ + bq(name@),
        ConfigError::ZeroColspan { layout, row } => row_at(layout@, row)
            + " has a space with colspan 0"@,
        ConfigError::EmptyText { layout, row } => row_at(layout@, row)
            + " has a text panel with empty text"@,
        ConfigError::UnknownFormat(f) => "unknown value format "@ + bq(f@)
            + " (known formats: text, markdown)"@,
        ConfigError::EmptyGroupTitle { layout, row } => row_at(layout@, row)
            + " has a group with an empty title"@,
        ConfigError::EmptyGroup { layout, row, group } => row_at(layout@, row) + " has group "@
            + bq(group@) + " with none of main/secondary/table"@,
        ConfigError::GroupUnknownSource { layout, row, group, name } => row_at(layout@, row)
            + " group "@ + bq(group@) + " references unknown source "@ + bq(name@),
        ConfigError::ChildTypeDeclared(n) => src_msg(
            n@,
            ": `child` is not a valid source `type` (children are declared under a parent's `children` list)"@,
        ),
        ConfigError::EmptyChildren(n) => composite_msg(n@, " declares an empty `children` list"@),
        ConfigError::RootDeclares { name, field } => composite_msg(
            name@,
            " must not declare "@ + bq(field@),
        ),
        ConfigError::BadChildName { name, child } => composite_msg(
            name@,
            " child "@ + bq(child@) + bad_name_tail(),
        ),
        ConfigError::DuplicateChild { name, child } => composite_msg(
            name@,
            " has duplicate child "@ + bq(child@),
        ),
        ConfigError::EnvInvalid { var, value } => "environment variable "@ + bq(var@) + " value "@
            + bq(value@) + " is invalid"@,
    }
}

fn push_bq(out: &mut String, s: &str)
    ensures
        final(out)@ == old(out)@ + bq(s@),
{
    cat(out, "`");
    cat(out, s);
    cat(out, "`");
    assert(final(out)@ =~= old(out)@ + bq(s@));
}

fn push_row_at(out: &mut String, layout: &str, row: usize)
    ensures
        final(out)@ == old(out)@ + row_at(layout@, row),
{
    cat(out, "layout ");
    push_bq(out, layout);
    cat(out, " row ");
    let d = u128_to_string(row as u128 + 1);
    cat(out, d.as_str());
    assert(final(out)@ =~= old(out)@ + row_at(layout@, row));
}

impl ConfigError {
    /// The error's text (what displaying it prints).
    pub fn message(&self) -> (r: String)
        ensures
            r@ == error_text(*self),
    {
        let mut s = String::new();
        match self {
            ConfigError::HistoryPointsZero => cat(&mut s, "history_points must be > 0"),
            ConfigError::RetentionZero => cat(&mut s, "retention must be > 0"),
            ConfigError::TuiWidthNamed(w) => {
                cat(&mut s, "tui_width must be \"auto\" or a positive integer, got ");
                push_bq(&mut s, w.as_str());
            },
            ConfigError::TuiWidthZero => cat(&mut s, "tui_width must be > 0"),
            ConfigError::DuplicateSource(n) => {
                cat(&mut s, "duplicate source name ");
                push_bq(&mut s, n.as_str());
            },
            ConfigError::LayoutNoRows(t) => {
                cat(&mut s, "layout ");
                push_bq(&mut s, t.as_str());
                cat(&mut s, " has no rows");
            },
            ConfigError::LayoutZeroColumns(t) => {
                cat(&mut s, "layout ");
                push_bq(&mut s, t.as_str());
                cat(&mut s, " column count is 0");
            },
            ConfigError::EmptySourceName => cat(&mut s, "source with empty name"),
            ConfigError::BadSourceName(n) => {
                cat(&mut s, "source ");
                push_bq(&mut s, n.as_str());
                cat(&mut s, " name must contain only ASCII letters, digits, `_`, or `-`");
            },
            ConfigError::MissingCommand { kind, name } => {
                cat(&mut s, kind.as_str());
                cat(&mut s, " source ");
                push_bq(&mut s, name.as_str());
                cat(&mut s, " requires `command`");
            },
            ConfigError::IntervalZero(n) => {
                cat(&mut s, "source ");
                push_bq(&mut s, n.as_str());
                cat(&mut s, " interval must be > 0");
            },
            ConfigError::IntervalAndCron(n) => {
                cat(&mut s, "source ");
                push_bq(&mut s, n.as_str());
                cat(&mut s, " must declare only one of `interval`/`cron`");
            },
            ConfigError::RetryIntervalZero(n) => {
                cat(&mut s, "source ");
                push_bq(&mut s, n.as_str());
                cat(&mut s, " retry_interval must be > 0");
            },
            ConfigError::RetryIntervalWithCron(n) => {
                cat(&mut s, "source ");
                push_bq(&mut s, n.as_str());
                cat(&mut s, " retry_interval has no effect on a cron-scheduled source");
            },
            ConfigError::InvalidCron { name, expr, detail } => {
                cat(&mut s, "source ");
                push_bq(&mut s, name.as_str());
                cat(&mut s, " has invalid cron expression ");
                push_bq(&mut s, expr.as_str());
                cat(&mut s, ": ");
                cat(&mut s, detail.as_str());
            },
            ConfigError::CronNoFuture { name, expr } => {
                cat(&mut s, "source ");
                push_bq(&mut s, name.as_str());
                cat(&mut s, " cron expression ");
                push_bq(&mut s, expr.as_str());
                cat(&mut s, " has no future occurrence");
            },
            ConfigError::ExpectedIntervalZero { kind, name } => {
                cat(&mut s, kind.as_str());
                cat(&mut s, " source ");
                push_bq(&mut s, name.as_str());
                cat(&mut s, " expected_interval must be > 0");
            },
            ConfigError::BoundNotFinite(n) => {
                cat(&mut s, "source ");
                push_bq(&mut s, n.as_str());
                cat(&mut s, " threshold bound must be finite");
            },
            ConfigError::LoneThreshold(n) => {
                cat(&mut s, "source ");
                push_bq(&mut s, n.as_str());
                cat(&mut s, " needs at least 2 thresholds to form bands");
            },
            ConfigError::SourceHistoryPointsZero(n) => {
                cat(&mut s, "source ");
                push_bq(&mut s, n.as_str());
                cat(&mut s, " history_points must be > 0");
            },
            ConfigError::UnknownSource { layout, row, name } => {
                push_row_at(&mut s, layout.as_str(), *row);
                cat(&mut s, " references unknown source ");
                push_bq(&mut s, name.as_str());
            },
            ConfigError::ZeroColspan { layout, row } => {
                push_row_at(&mut s, layout.as_str(), *row);
                cat(&mut s, " has a space with colspan 0");
            },
            ConfigError::EmptyText { layout, row } => {
                push_row_at(&mut s, layout.as_str(), *row);
                cat(&mut s, " has a text panel with empty text");
            },
            ConfigError::UnknownFormat(f) => {
                cat(&mut s, "unknown value format ");
                push_bq(&mut s, f.as_str());
                cat(&mut s, " (known formats: text, markdown)");
            },
            ConfigError::EmptyGroupTitle { layout, row } => {
                push_row_at(&mut s, layout.as_str(), *row);
                cat(&mut s, " has a group with an empty title");
            },
            ConfigError::EmptyGroup { layout, row, group } => {
                push_row_at(&mut s, layout.as_str(), *row);
                cat(&mut s, " has group ");
                push_bq(&mut s, group.as_str());
                cat(&mut s, " with none of main/secondary/table");
            },
            ConfigError::GroupUnknownSource { layout, row, group, name } => {
                push_row_at(&mut s, layout.as_str(), *row);
                cat(&mut s, " group ");
                push_bq(&mut s, group.as_str());
                cat(&mut s, " references unknown source ");
                push_bq(&mut s, name.as_str());
            },
            ConfigError::ChildTypeDeclared(n) => {
                cat(&mut s, "source ");
                push_bq(&mut s, n.as_str());
                cat(
                    &mut s,
                    ": `child` is not a valid source `type` (children are declared under a parent's `children` list)",
                );
            },
            ConfigError::EmptyChildren(n) => {
                cat(&mut s, "composite source ");
                push_bq(&mut s, n.as_str());
                cat(&mut s, " declares an empty `children` list");
            },
            ConfigError::RootDeclares { name, field } => {
                cat(&mut s, "composite source ");
                push_bq(&mut s, name.as_str());
                cat(&mut s, " must not declare ");
                push_bq(&mut s, field.as_str());
            },
            ConfigError::BadChildName { name, child } => {
                cat(&mut s, "composite source ");
                push_bq(&mut s, name.as_str());
                cat(&mut s, " child ");
                push_bq(&mut s, child.as_str());
                cat(&mut s, " name must contain only ASCII letters, digits, `_`, or `-`");
            },
            ConfigError::DuplicateChild { name, child } => {
                cat(&mut s, "composite source ");
                push_bq(&mut s, name.as_str());
                cat(&mut s, " has duplicate child ");
                push_bq(&mut s, child.as_str());
            },
            ConfigError::EnvInvalid { var, value } => {
                cat(&mut s, "environment variable ");
                push_bq(&mut s, var.as_str());
                cat(&mut s, " value ");
                push_bq(&mut s, value.as_str());
                cat(&mut s, " is invalid");
            },
        }
        assert(s@ =~= error_text(*self));
        s
    }
}

} // verus!
