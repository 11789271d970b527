//! The web dashboard's panel model: status colors as inline CSS, a base
//! style combined with config-authored overrides, what each panel shows,
//! and where each slot of a grid row starts.

use vstd::prelude::*;
use crate::age::{ago, spec_ago};
use crate::config::layout::{Cell, ValueFormat, cell_span};
use crate::config::source::{Level, spec_accent_color, spec_status_color, spec_worst_color, worst_color};
use crate::health::{Health, health_name};
use crate::text::{
    cat, chars_of, is_char_pred, string_of, strip_char_range, strip_lead, strip_trail, trim,
    trim_range, trim_spec,
};

verus! {

/// Border, tinted background and text color for a single-source card;
/// nothing when there is no color to show.
pub open spec fn spec_full_style(color: Option<Level>) -> Seq<char> {
    match color {
        Some(Level::Red) => "border-color:var(--status-red-border);background-color:var(--status-red-bg);color:var(--status-red-fg)"@,
        Some(Level::Yellow) => "border-color:var(--status-yellow-border);background-color:var(--status-yellow-bg);color:var(--status-yellow-fg)"@,
        Some(Level::Green) => "border-color:var(--status-green-border);background-color:var(--status-green-bg);color:var(--status-green-fg)"@,
        None => ""@,
    }
}

pub fn full_style_for_color(color: Option<Level>) -> (r: &'static str)
    ensures
        r@ == spec_full_style(color),
{
    match color {
        Some(Level::Red) => "border-color:var(--status-red-border);background-color:var(--status-red-bg);color:var(--status-red-fg)",
        Some(Level::Yellow) => "border-color:var(--status-yellow-border);background-color:var(--status-yellow-bg);color:var(--status-yellow-fg)",
        Some(Level::Green) => "border-color:var(--status-green-border);background-color:var(--status-green-bg);color:var(--status-green-fg)",
        None => "",
    }
}

/// Only a border color: a group card's own border.
pub open spec fn spec_border_style(color: Level) -> Seq<char> {
    match color {
        Level::Red => "border-color:var(--status-red-border)"@,
        Level::Yellow => "border-color:var(--status-yellow-border)"@,
        Level::Green => "border-color:var(--status-green-border)"@,
    }
}

pub fn border_style_for_color(color: Level) -> (r: &'static str)
    ensures
        r@ == spec_border_style(color),
{
    match color {
        Level::Red => "border-color:var(--status-red-border)",
        Level::Yellow => "border-color:var(--status-yellow-border)",
        Level::Green => "border-color:var(--status-green-border)",
    }
}

/// Only a text color: a row inside a group pane; nothing when there is no
/// color to show.
pub open spec fn spec_text_style(color: Option<Level>) -> Seq<char> {
    match color {
        Some(Level::Red) => "color:var(--status-red-text)"@,
        Some(Level::Yellow) => "color:var(--status-yellow-text)"@,
        Some(Level::Green) => "color:var(--status-green-text)"@,
        None => ""@,
    }
}

pub fn text_style_for_color(color: Option<Level>) -> (r: &'static str)
    ensures
        r@ == spec_text_style(color),
{
    match color {
        Some(Level::Red) => "color:var(--status-red-text)",
        Some(Level::Yellow) => "color:var(--status-yellow-text)",
        Some(Level::Green) => "color:var(--status-green-text)",
        None => "",
    }
}

/// A summary-strip chip in a status color.
pub open spec fn spec_chip_style(color: Level) -> Seq<char> {
    match color {
        Level::Red => "background-color:var(--status-red-border);color:var(--status-red-chip-fg)"@,
        Level::Yellow => "background-color:var(--status-yellow-border);color:var(--status-yellow-chip-fg)"@,
        Level::Green => "background-color:var(--status-green-border);color:var(--status-green-chip-fg)"@,
    }
}

/// One history-bar segment; a neutral segment has no band.
pub open spec fn spec_segment_style(level: Option<Level>) -> Seq<char> {
    match level {
        Some(Level::Red) => "background-color:var(--status-red-border)"@,
        Some(Level::Yellow) => "background-color:var(--status-yellow-border)"@,
        Some(Level::Green) => "background-color:var(--status-green-border)"@,
        None => "background-color:var(--border)"@,
    }
}

/// `key` with every `_` turned into `-`: config keys are snake case, CSS
/// properties hyphenated.
pub open spec fn spec_css_property_name(key: Seq<char>) -> Seq<char> {
    key.map_values(|c: char| if c == '_' { '-' } else { c })
}

pub fn css_property_name(key: &str) -> (r: String)
    ensures
        r@ == spec_css_property_name(key@),
{
    let v = chars_of(key);
    let mut out: Vec<char> = Vec::new();
    let mut i: usize = 0;
    while i < v.len()
        invariant
            i <= v@.len(),
            v@ == key@,
            out@ == v@.take(i as int).map_values(|c: char| if c == '_' { '-' } else { c }),
        decreases v.len() - i,
    {
        let c = v[i];
        out.push(if c == '_' { '-' } else { c });
        assert(v@.take(i + 1).map_values(|c: char| if c == '_' { '-' } else { c }) =~= v@.take(
            i as int,
        ).map_values(|c: char| if c == '_' { '-' } else { c }).push(if c == '_' { '-' } else { c }));
        i = i + 1;
    }
    assert(v@.take(i as int) =~= key@);
    string_of(&out, 0, out.len())
}

/// One override declaration: `property: value;`.
pub open spec fn declaration(key: Seq<char>, value: Seq<char>) -> Seq<char> {
    spec_css_property_name(key) + ": "@ + value + ";"@
}

/// The declarations of `pairs`, in order, separated by single spaces.
pub open spec fn declarations(pairs: Seq<(String, String)>) -> Seq<char>
    decreases pairs.len(),
{
    if pairs.len() == 0 {
        Seq::empty()
    } else if pairs.len() == 1 {
        declaration(pairs[0].0@, pairs[0].1@)
    } else {
        declarations(pairs.drop_last()) + " "@ + declaration(pairs.last().0@, pairs.last().1@)
    }
}

/// A style override as inline CSS: each `(key, value)` becomes
/// `property: value;`, joined by spaces; nothing without an override.
pub fn style_override_to_css(style: Option<&[(String, String)]>) -> (r: String)
    ensures
        r@ == (match style {
            Some(p) => declarations(p@),
            None => Seq::empty(),
        }),
{
    proof {
        reveal_strlit(": ");
        reveal_strlit(";");
        reveal_strlit(" ");
    }
    let pairs = match style {
        Some(p) => p,
        None => {
            return String::new();
        },
    };
    let mut out = String::new();
    let mut i: usize = 0;
    while i < pairs.len()
        invariant
            i <= pairs@.len(),
            out@ == declarations(pairs@.take(i as int)),
        decreases pairs.len() - i,
    {
        assert(pairs@.take(i + 1).drop_last() =~= pairs@.take(i as int));
        if i > 0 {
            cat(&mut out, " ");
        }
        let name = css_property_name(pairs[i].0.as_str());
        cat(&mut out, name.as_str());
        cat(&mut out, ": ");
        cat(&mut out, pairs[i].1.as_str());
        cat(&mut out, ";");
        proof {
            if i == 0 {
                assert(out@ =~= declarations(pairs@.take(1)));
            } else {
                assert(out@ =~= declarations(pairs@.take(i as int)) + " "@ + declaration(
                    pairs@[i as int].0@,
                    pairs@[i as int].1@,
                ));
            }
        }
        i = i + 1;
    }
    assert(pairs@.take(i as int) =~= pairs@);
    out
}

/// A style half with surrounding whitespace and semicolons removed.
pub open spec fn clean_style(s: Seq<char>) -> Seq<char> {
    trim_spec(strip_trail(strip_lead(trim_spec(s), is_char_pred(';')), is_char_pred(';')))
}

fn clean(s: &str) -> (r: String)
    ensures
        r@ == clean_style(s@),
{
    let v = chars_of(s);
    let (lo, hi) = trim_range(&v);
    let (a, b) = strip_char_range(&v, lo, hi, ';');
    let inner = string_of(&v, a, b);
    trim(inner.as_str())
}

/// A base inline style combined with an override: each half loses
/// surrounding whitespace and semicolons, and the two are joined by `; `
/// only when both are left non-empty, so the result never starts or ends
/// with a semicolon nor holds a doubled one at the join.
pub open spec fn spec_style_string(base: Seq<char>, extra: Seq<char>) -> Seq<char> {
    let b = clean_style(base);
    let e = clean_style(extra);
    if e.len() == 0 {
        b
    } else if b.len() == 0 {
        e
    } else {
        b + "; "@ + e
    }
}

pub fn style_string(base: &str, extra: &str) -> (r: String)
    ensures
        r@ == spec_style_string(base@, extra@),
{
    let mut out = clean(base);
    let e = clean(extra);
    if e.as_str().is_empty() {
        return out;
    }
    if out.as_str().is_empty() {
        return e;
    }
    proof {
        reveal_strlit("; ");
    }
    cat(&mut out, "; ");
    cat(&mut out, e.as_str());
    out
}

/// One source's panel data.
#[derive(Debug, Clone)]
pub struct Panel {
    /// The source's name (used for links); `name` is the display label.
    pub source: String,
    pub name: String,
    pub value: String,
    pub unit: String,
    pub status: Health,
    pub level: Option<Level>,
    pub format: ValueFormat,
    /// The latest reading's time, epoch milliseconds (`0`: none).
    pub ts_ms: i64,
    /// Recent readings' bands, oldest first; `None` for a neutral segment.
    pub history: Vec<Option<Level>>,
}

/// `value`, followed by a space and the unit when there is one.
pub open spec fn spec_value_and_unit(value: Seq<char>, unit: Seq<char>) -> Seq<char> {
    if unit.len() == 0 {
        value
    } else {
        value + " "@ + unit
    }
}

impl Panel {
    /// The band when configured, else the health color.
    pub fn level_color(&self) -> (r: Level)
        ensures
            r == spec_status_color(self.level, self.status),
    {
        crate::config::source::status_color(self.level, self.status)
    }

    pub fn accent_color(&self) -> (r: Option<Level>)
        ensures
            r == spec_accent_color(self.level, self.status),
    {
        crate::config::source::accent_color(self.level, self.status)
    }

    pub fn status_style(&self) -> (r: &'static str)
        ensures
            r@ == spec_full_style(spec_accent_color(self.level, self.status)),
    {
        full_style_for_color(self.accent_color())
    }

    pub fn group_row_style(&self) -> (r: &'static str)
        ensures
            r@ == spec_text_style(spec_accent_color(self.level, self.status)),
    {
        text_style_for_color(self.accent_color())
    }

    /// The status name of an unhealthy panel; nothing when healthy.
    pub fn plain_label(&self) -> (r: Option<&'static str>)
        ensures
            r.is_some() == (self.status != Health::Healthy),
            r matches Some(t) ==> t@ == health_name(self.status),
    {
        if self.status != Health::Healthy {
            Some(self.status.as_str())
        } else {
            None
        }
    }

    pub fn chip_style(&self) -> (r: &'static str)
        ensures
            r@ == spec_chip_style(spec_status_color(self.level, self.status)),
    {
        match self.level_color() {
            Level::Red => "background-color:var(--status-red-border);color:var(--status-red-chip-fg)",
            Level::Yellow => "background-color:var(--status-yellow-border);color:var(--status-yellow-chip-fg)",
            Level::Green => "background-color:var(--status-green-border);color:var(--status-green-chip-fg)",
        }
    }

    pub fn segment_style(level: Option<Level>) -> (r: &'static str)
        ensures
            r@ == spec_segment_style(level),
    {
        match level {
            Some(Level::Red) => "background-color:var(--status-red-border)",
            Some(Level::Yellow) => "background-color:var(--status-yellow-border)",
            Some(Level::Green) => "background-color:var(--status-green-border)",
            None => "background-color:var(--border)",
        }
    }

    pub fn value_and_unit(&self) -> (r: String)
        ensures
            r@ == spec_value_and_unit(self.value@, self.unit@),
    {
        let mut out = self.value.clone();
        if !self.unit.as_str().is_empty() {
            proof {
                reveal_strlit(" ");
            }
            cat(&mut out, " ");
            cat(&mut out, self.unit.as_str());
        }
        out
    }

    /// A `secondary` member's text: `FAILING` while its fetch fails (no
    /// value can be trusted then), else its value and unit.
    pub fn secondary_text(&self) -> (r: String)
        ensures
            r@ == (if self.status == Health::Failing {
                "FAILING"@
            } else {
                spec_value_and_unit(self.value@, self.unit@)
            }),
    {
        if self.status == Health::Failing {
            "FAILING".to_owned()
        } else {
            self.value_and_unit()
        }
    }

    /// How long ago the latest reading arrived, at `now` (epoch
    /// milliseconds); `never` without one.
    pub fn updated_ago(&self, now_ms: i64) -> (r: String)
        ensures
            r@ == (match spec_ago(now_ms, self.ts_ms) {
                Some(t) => t,
                None => "never"@,
            }),
    {
        match ago(now_ms, self.ts_ms) {
            Some(t) => t,
            None => "never".to_owned(),
        }
    }
}

/// One grid slot: up to a main panel, compact secondary members and table
/// rows, or a static text.
#[derive(Debug, Clone)]
pub struct Slot {
    pub span: usize,
    /// The 1-based column the slot starts at.
    pub col_start: usize,
    pub group_title: Option<String>,
    pub main: Option<Panel>,
    pub secondary: Vec<Panel>,
    pub table: Vec<Panel>,
    pub text: Option<(ValueFormat, String)>,
}

/// Every member panel of a slot: main, then secondary, then table.
pub open spec fn slot_members(s: Slot) -> Seq<Panel> {
    (match s.main {
        Some(p) => seq![p],
        None => Seq::empty(),
    }) + s.secondary@ + s.table@
}

impl Slot {
    /// The card anchor: the first member's source.
    pub fn anchor(&self) -> (r: Option<&str>)
        ensures
            r.is_some() == (slot_members(*self).len() > 0),
            r matches Some(a) ==> a@ == slot_members(*self)[0].source@,
    {
        match &self.main {
            Some(p) => {
                return Some(p.source.as_str());
            },
            None => {},
        }
        if self.secondary.len() > 0 {
            return Some(self.secondary[0].source.as_str());
        }
        if self.table.len() > 0 {
            return Some(self.table[0].source.as_str());
        }
        None
    }

    /// A pane's border: the worst color across all of its members.
    pub fn group_status_style(&self) -> (r: &'static str)
        ensures
            r@ == spec_border_style(
                spec_worst_color(
                    slot_members(*self).map_values(
                        |p: Panel| spec_status_color(p.level, p.status),
                    ),
                ),
            ),
    {
        let ghost members = slot_members(*self);
        let mut colors: Vec<Level> = Vec::new();
        match &self.main {
            Some(p) => colors.push(p.level_color()),
            None => {},
        }
        let ghost first = colors@;
        let mut i: usize = 0;
        while i < self.secondary.len()
            invariant
                i <= self.secondary@.len(),
                colors@ == first + self.secondary@.take(i as int).map_values(
                    |p: Panel| spec_status_color(p.level, p.status),
                ),
            decreases self.secondary.len() - i,
        {
            colors.push(self.secondary[i].level_color());
            assert(self.secondary@.take(i + 1).map_values(
                |p: Panel| spec_status_color(p.level, p.status),
            ) =~= self.secondary@.take(i as int).map_values(
                |p: Panel| spec_status_color(p.level, p.status),
            ).push(spec_status_color(self.secondary@[i as int].level, self.secondary@[i as int].status)));
            i = i + 1;
        }
        let ghost second = colors@;
        let mut j: usize = 0;
        while j < self.table.len()
            invariant
                j <= self.table@.len(),
                colors@ == second + self.table@.take(j as int).map_values(
                    |p: Panel| spec_status_color(p.level, p.status),
                ),
            decreases self.table.len() - j,
        {
            colors.push(self.table[j].level_color());
            assert(self.table@.take(j + 1).map_values(
                |p: Panel| spec_status_color(p.level, p.status),
            ) =~= self.table@.take(j as int).map_values(
                |p: Panel| spec_status_color(p.level, p.status),
            ).push(spec_status_color(self.table@[j as int].level, self.table@[j as int].status)));
            j = j + 1;
        }
        proof {
            assert(self.secondary@.take(i as int) =~= self.secondary@);
            assert(self.table@.take(j as int) =~= self.table@);
            assert(colors@ =~= members.map_values(|p: Panel| spec_status_color(p.level, p.status)));
        }
        border_style_for_color(worst_color(colors.as_slice()))
    }
}

/// The 1-based start column of each cell of a row: each starts right after
/// the spans before it.
pub open spec fn col_starts_ok(row: Seq<Cell>, starts: Seq<usize>) -> bool {
    &&& starts.len() == row.len()
    &&& forall|k: int|
        0 <= k < row.len() ==> #[trigger] starts[k] == 1 + crate::config::layout::row_width(
            row.take(k),
        )
}

/// Where each cell of a row starts, placed explicitly so a short row is
/// never packed into the next.
pub fn column_starts(row: &Vec<Cell>) -> (r: Vec<usize>)
    requires
        1 + crate::config::layout::row_width(row@) <= usize::MAX,
    ensures
        col_starts_ok(row@, r@),
{
    let mut out: Vec<usize> = Vec::new();
    let mut col: usize = 1;
    let mut i: usize = 0;
    assert(row@.take(0) =~= Seq::<Cell>::empty());
    while i < row.len()
        invariant
            i <= row@.len(),
            out@.len() == i,
            col == 1 + crate::config::layout::row_width(row@.take(i as int)),
            1 + crate::config::layout::row_width(row@) <= usize::MAX,
            forall|k: int|
                0 <= k < i ==> #[trigger] out@[k] == 1 + crate::config::layout::row_width(
                    row@.take(k),
                ),
        decreases row.len() - i,
    {
        out.push(col);
        proof {
            crate::config::layout::lemma_row_width_prefix(row@, i + 1);
            assert(row@.take(i + 1).drop_last() =~= row@.take(i as int));
        }
        let span = row[i].span();
        col = col + span;
        i = i + 1;
    }
    out
}

/// A history bar of exactly `n` segments: neutral padding first, then the
/// recent readings' bands, oldest first.
pub open spec fn spec_padded_history(bands: Seq<Option<Level>>, n: nat) -> Seq<Option<Level>> {
    if bands.len() >= n {
        bands
    } else {
        Seq::new((n - bands.len()) as nat, |i: int| None::<Level>) + bands
    }
}

pub fn padded_history(bands: Vec<Option<Level>>, n: u32) -> (r: Vec<Option<Level>>)
    ensures
        r@ == spec_padded_history(bands@, n as nat),
{
    let mut out: Vec<Option<Level>> = Vec::new();
    let pad: usize = if (n as usize) > bands.len() {
        (n as usize) - bands.len()
    } else {
        0
    };
    let mut i: usize = 0;
    while i < pad
        invariant
            i <= pad,
            out@ == Seq::new(i as nat, |k: int| None::<Level>),
        decreases pad - i,
    {
        out.push(None);
        assert(out@ =~= Seq::new((i + 1) as nat, |k: int| None::<Level>));
        i = i + 1;
    }
    let mut b = bands;
    let ghost bv = b@;
    out.append(&mut b);
    proof {
        if bv.len() >= n {
            assert(out@ =~= bv);
        } else {
            assert(out@ =~= spec_padded_history(bv, n as nat));
        }
    }
    out
}

/// One row of a source's log page: when, whether it succeeded, how long it
/// took, the value (or a dash) and the error (or nothing).
#[derive(Debug, Clone)]
pub struct LogCells {
    pub time: String,
    pub ok: bool,
    pub outcome: &'static str,
    pub duration: String,
    pub value: String,
    pub error: String,
}

pub fn log_cells(l: &crate::db::LogRow) -> (r: LogCells)
    ensures
        r.time@ == l.ts@,
        r.ok == l.error.is_none(),
        r.outcome@ == (if l.error.is_none() {
            "ok"@
        } else {
            "failed"@
        }),
        r.duration@ == crate::text::signed_decimal(l.duration_ms as int) + " ms"@,
        r.value@ == (match l.value {
            Some(v) => v@,
            None => "—"@,
        }),
        r.error@ == (match l.error {
            Some(e) => e@,
            None => Seq::<char>::empty(),
        }),
{
    proof {
        reveal_strlit("ok");
        reveal_strlit("failed");
        reveal_strlit(" ms");
        reveal_strlit("—");
    }
    let mut duration = crate::text::i64_to_string(l.duration_ms);
    crate::text::cat(&mut duration, " ms");
    LogCells {
        time: l.ts.clone(),
        ok: l.error.is_none(),
        outcome: if l.error.is_none() {
            "ok"
        } else {
            "failed"
        },
        duration,
        value: match &l.value {
            Some(v) => v.clone(),
            None => "—".to_owned(),
        },
        error: match &l.error {
            Some(e) => e.clone(),
            None => String::new(),
        },
    }
}

} // verus!
