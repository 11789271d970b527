//! What the terminal dashboard draws: each slot's panel as styled lines,
//! the content area's width and position, and the keys that quit.

use vstd::prelude::*;
use crate::age::{ago, spec_ago};
use crate::config::layout::TuiWidth;
use crate::config::source::{Level, spec_accent_color, spec_status_color, spec_worst_color, worst_color};
use crate::health::{Health, health_name};
use crate::report::first_newline;
use crate::text::{cat, chars_of, string_of};
use crate::tui::model::{Panel, Slot};

verus! {

/// How a stretch of text is drawn: an optional color, bold, dim.
#[derive(Debug, Clone, Copy, PartialEq, Eq, Structural)]
pub struct SpanStyle {
    pub fg: Option<Level>,
    pub bold: bool,
    pub dim: bool,
}

/// A stretch of text and how it is drawn.
#[derive(Debug, Clone)]
pub struct Span {
    pub text: String,
    pub style: SpanStyle,
}

/// A slot drawn as a bordered panel: its title, its border's color, its
/// lines, and whether long lines wrap.
#[derive(Debug, Clone)]
pub struct PanelView {
    pub title: Span,
    pub border: Option<Level>,
    pub lines: Vec<Vec<Span>>,
    pub wrap: bool,
}

pub open spec fn plain() -> SpanStyle {
    SpanStyle { fg: None, bold: false, dim: false }
}

pub open spec fn dim() -> SpanStyle {
    SpanStyle { fg: None, bold: false, dim: true }
}

/// The accent color of a value, if any.
pub open spec fn status_style(level: Option<Level>, status: Health) -> SpanStyle {
    SpanStyle { fg: spec_accent_color(level, status), bold: false, dim: false }
}

pub open spec fn bold(s: SpanStyle) -> SpanStyle {
    SpanStyle { fg: s.fg, bold: true, dim: s.dim }
}

/// ` [failing]` or ` [stale]` after an unhealthy value; nothing when
/// healthy.
pub open spec fn spec_plain_label(status: Health) -> Seq<char> {
    if status == Health::Healthy {
        Seq::empty()
    } else {
        " ["@ + health_name(status) + "]"@
    }
}

pub fn plain_label(status: Health) -> (r: String)
    ensures
        r@ == spec_plain_label(status),
{
    if status == Health::Healthy {
        String::new()
    } else {
        proof {
            reveal_strlit(" [");
            reveal_strlit("]");
        }
        let mut s = " [".to_owned();
        cat(&mut s, status.as_str());
        cat(&mut s, "]");
        s
    }
}

/// ` - 12s ago` after a value, or nothing when it was never updated.
pub open spec fn updated_suffix(now: i64, ts: i64) -> Seq<char> {
    match spec_ago(now, ts) {
        Some(t) => " - "@ + t,
        None => Seq::empty(),
    }
}

fn updated(now: i64, ts: i64) -> (r: String)
    ensures
        r@ == updated_suffix(now, ts),
{
    match ago(now, ts) {
        Some(t) => {
            proof {
                reveal_strlit(" - ");
            }
            let mut s = " - ".to_owned();
            cat(&mut s, t.as_str());
            s
        },
        None => String::new(),
    }
}

/// ` unit` after a value, or nothing without a unit.
pub open spec fn unit_suffix(unit: Seq<char>) -> Seq<char> {
    if unit.len() == 0 {
        Seq::empty()
    } else {
        " "@ + unit
    }
}

fn unit_text(unit: &str) -> (r: String)
    ensures
        r@ == unit_suffix(unit@),
{
    if unit.is_empty() {
        String::new()
    } else {
        proof {
            reveal_strlit(" ");
        }
        let mut s = " ".to_owned();
        cat(&mut s, unit);
        s
    }
}

pub open spec fn span_view(s: Span) -> (Seq<char>, SpanStyle) {
    (s.text@, s.style)
}

pub open spec fn line_view(l: Vec<Span>) -> Seq<(Seq<char>, SpanStyle)> {
    l@.map_values(|s: Span| span_view(s))
}

pub open spec fn lines_view(ls: Seq<Vec<Span>>) -> Seq<Seq<(Seq<char>, SpanStyle)>> {
    ls.map_values(|l: Vec<Span>| line_view(l))
}

/// A line ending in `\r` loses it.
pub open spec fn strip_cr(l: Seq<char>) -> Seq<char> {
    if l.len() > 0 && l.last() == '\r' {
        l.drop_last()
    } else {
        l
    }
}

/// `str::lines`: split at each `\n` (dropping a `\r` right before it), with
/// no empty line after a final `\n`.
pub open spec fn text_lines(s: Seq<char>) -> Seq<Seq<char>>
    decreases s.len(),
{
    if s.len() == 0 {
        Seq::empty()
    } else {
        let p = first_newline(s);
        proof {
            lemma_first_newline(s);
        }
        if p >= s.len() {
            seq![s]
        } else {
            seq![strip_cr(s.take(p))] + text_lines(s.skip(p + 1))
        }
    }
}

pub proof fn lemma_first_newline(s: Seq<char>)
    ensures
        0 <= first_newline(s) <= s.len(),
        first_newline(s) < s.len() ==> s[first_newline(s)] == '\n',
        forall|j: int| 0 <= j < first_newline(s) ==> s[j] != '\n',
{
    if exists|i: int| 0 <= i < s.len() && s[i] == '\n' {
        let i = choose|i: int| 0 <= i < s.len() && s[i] == '\n';
        lemma_least_newline(s, i);
    } else {
    }
}

pub proof fn lemma_least_newline(s: Seq<char>, i: int)
    requires
        0 <= i < s.len(),
        s[i] == '\n',
    ensures
        exists|k: int|
            0 <= k < s.len() && s[k] == '\n' && forall|j: int| 0 <= j < k ==> s[j] != '\n',
    decreases i,
{
    if exists|j: int| 0 <= j < i && s[j] == '\n' {
        let j = choose|j: int| 0 <= j < i && s[j] == '\n';
        lemma_least_newline(s, j);
    } else {
        assert(forall|j: int| 0 <= j < i ==> s[j] != '\n');
    }
}

/// The first line of `v[start..]`, and where the rest begins.
fn next_line(v: &Vec<char>, start: usize) -> (r: (String, usize))
    requires
        start < v@.len(),
    ensures
        start < r.1 <= v@.len(),
        text_lines(v@.skip(start as int)) == seq![r.0@] + text_lines(v@.skip(r.1 as int)),
{
    let ghost rest = v@.skip(start as int);
    let mut end: usize = start;
    while end < v.len() && v[end] != '\n'
        invariant
            start <= end <= v@.len(),
            forall|j: int| start <= j < end ==> v@[j] != '\n',
        decreases v.len() - end,
    {
        end = end + 1;
    }
    proof {
        lemma_first_newline(rest);
        let p = first_newline(rest);
        if p < end - start {
            assert(rest[p] == v@[start + p]);
        }
        if end < v.len() && end - start < p {
            assert(rest[end - start] == v@[end as int]);
        }
        assert(p == end - start);
    }
    if end < v.len() {
        let hi = if end > start && v[end - 1] == '\r' {
            end - 1
        } else {
            end
        };
        let line = string_of(v, start, hi);
        proof {
            assert(line@ =~= strip_cr(rest.take((end - start) as int)));
            assert(rest.skip((end - start) + 1) =~= v@.skip(end + 1));
        }
        (line, end + 1)
    } else {
        let line = string_of(v, start, end);
        proof {
            assert(line@ =~= rest);
            assert(v@.skip(end as int) =~= Seq::<char>::empty());
            assert(seq![line@] + Seq::<Seq<char>>::empty() =~= seq![line@]);
        }
        (line, end)
    }
}

/// The lines of `s`, as `str::lines` yields them.
pub fn lines(s: &str) -> (r: Vec<String>)
    ensures
        r@.map_values(|l: String| l@) == text_lines(s@),
{
    let v = chars_of(s);
    let mut out: Vec<String> = Vec::new();
    let mut start: usize = 0;
    assert(v@.skip(0) =~= v@);
    while start < v.len()
        invariant
            start <= v@.len(),
            v@ == s@,
            out@.map_values(|l: String| l@) + text_lines(v@.skip(start as int)) == text_lines(s@),
        decreases v.len() - start,
    {
        let ghost before = out@.map_values(|l: String| l@);
        let (line, next) = next_line(&v, start);
        let ghost lv = line@;
        out.push(line);
        proof {
            assert(out@.map_values(|l: String| l@) =~= before.push(lv));
            assert(before + (seq![lv] + text_lines(v@.skip(next as int))) =~= before.push(lv)
                + text_lines(v@.skip(next as int)));
        }
        start = next;
    }
    proof {
        assert(v@.skip(start as int) =~= Seq::<char>::empty());
        assert(out@.map_values(|l: String| l@) + Seq::<Seq<char>>::empty() =~= out@.map_values(
            |l: String| l@,
        ));
    }
    out
}

fn span(text: String, style: SpanStyle) -> (r: Span)
    ensures
        span_view(r) == (text@, style),
{
    Span { text, style }
}

/// A main or secondary member's line: its value (bold for main), unit,
/// unhealthy label and age.
pub open spec fn member_line(p: Panel, now: i64, emphasize: bool) -> Seq<(Seq<char>, SpanStyle)> {
    let st = status_style(p.level, p.status);
    seq![
        (p.value@, if emphasize { bold(st) } else { st }),
        (unit_suffix(p.unit@), plain()),
        (spec_plain_label(p.status), dim()),
        (updated_suffix(now, p.ts_ms), dim()),
    ]
}

/// A table row: dim `name: `, the value in bold, unit, unhealthy label, and
/// the age only while stale.
pub open spec fn table_line(p: Panel, now: i64) -> Seq<(Seq<char>, SpanStyle)> {
    seq![
        (p.name@ + ": "@, dim()),
        (p.value@, bold(status_style(p.level, p.status))),
        (unit_suffix(p.unit@), plain()),
        (spec_plain_label(p.status), dim()),
        (if p.status == Health::Stale {
            updated_suffix(now, p.ts_ms)
        } else {
            Seq::empty()
        }, dim()),
    ]
}

fn member_line_of(p: &Panel, now: i64, emphasize: bool) -> (r: Vec<Span>)
    ensures
        line_view(r) == member_line(*p, now, emphasize),
{
    let st = SpanStyle {
        fg: crate::config::source::accent_color(p.level, p.status),
        bold: false,
        dim: false,
    };
    let vs = if emphasize {
        SpanStyle { fg: st.fg, bold: true, dim: false }
    } else {
        st
    };
    let mut l: Vec<Span> = Vec::new();
    l.push(span(p.value.clone(), vs));
    l.push(span(unit_text(p.unit.as_str()), SpanStyle { fg: None, bold: false, dim: false }));
    l.push(span(plain_label(p.status), SpanStyle { fg: None, bold: false, dim: true }));
    l.push(span(updated(now, p.ts_ms), SpanStyle { fg: None, bold: false, dim: true }));
    assert(line_view(l) =~= member_line(*p, now, emphasize));
    l
}

fn table_line_of(p: &Panel, now: i64) -> (r: Vec<Span>)
    ensures
        line_view(r) == table_line(*p, now),
{
    proof {
        reveal_strlit(": ");
    }
    let mut label = p.name.clone();
    cat(&mut label, ": ");
    let fg = crate::config::source::accent_color(p.level, p.status);
    let age = if p.status == Health::Stale {
        updated(now, p.ts_ms)
    } else {
        String::new()
    };
    let mut l: Vec<Span> = Vec::new();
    l.push(span(label, SpanStyle { fg: None, bold: false, dim: true }));
    l.push(span(p.value.clone(), SpanStyle { fg, bold: true, dim: false }));
    l.push(span(unit_text(p.unit.as_str()), SpanStyle { fg: None, bold: false, dim: false }));
    l.push(span(plain_label(p.status), SpanStyle { fg: None, bold: false, dim: true }));
    l.push(span(age, SpanStyle { fg: None, bold: false, dim: true }));
    assert(line_view(l) =~= table_line(*p, now));
    l
}

pub open spec fn opt_text(o: Option<String>) -> Seq<char> {
    match o {
        Some(t) => t@,
        None => Seq::empty(),
    }
}

/// A single-source panel's lines: each line of its value on its own line
/// in the accent color and bold (one empty line for an empty value), the
/// last one followed by the unit and the age.
pub open spec fn single_lines(p: Panel, now: i64) -> Seq<Seq<(Seq<char>, SpanStyle)>> {
    let st = bold(status_style(p.level, p.status));
    let vl = if text_lines(p.value@).len() == 0 {
        seq![Seq::<char>::empty()]
    } else {
        text_lines(p.value@)
    };
    let n = vl.len();
    Seq::new(
        n,
        |i: int|
            if i < n - 1 {
                seq![(vl[i], st)]
            } else if p.unit@.len() > 0 {
                seq![(vl[i], st), (" "@ + p.unit@, plain()), (updated_suffix(now, p.ts_ms), dim())]
            } else {
                seq![(vl[i], st), (updated_suffix(now, p.ts_ms), dim())]
            },
    )
}

/// How a slot is drawn at `now` (epoch milliseconds). A static text shows
/// its lines as they are, wrapped, under ` title `. A panel whose only
/// member is `main` shows that source alone, titled ` name [status] ` in
/// its accent color with a border of that color. Anything else is a pane:
/// main, secondary and table lines in that order under ` title `, its
/// border in the worst member's color.
pub open spec fn spec_panel_view(
    s: Slot,
    now: i64,
) -> ((Seq<char>, SpanStyle), Option<Level>, Seq<Seq<(Seq<char>, SpanStyle)>>, bool) {
    match s.text {
        Some(t) => (
            (" "@ + opt_text(s.group_title) + " "@, plain()),
            None,
            text_lines(t@).map_values(|l: Seq<char>| seq![(l, plain())]),
            true,
        ),
        None => if s.secondary@.len() == 0 && s.table@.len() == 0 && s.main.is_some() {
            let p = s.main->0;
            let st = status_style(p.level, p.status);
            let title = match s.group_title {
                Some(t) => t@,
                None => p.name@,
            };
            (
                (" "@ + title + " ["@ + health_name(p.status) + "] "@, st),
                st.fg,
                single_lines(p, now),
                true,
            )
        } else {
            let members = (match s.main {
                Some(p) => seq![p],
                None => Seq::empty(),
            }) + s.secondary@ + s.table@;
            (
                (" "@ + opt_text(s.group_title) + " "@, plain()),
                Some(
                    spec_worst_color(
                        members.map_values(|p: Panel| spec_status_color(p.level, p.status)),
                    ),
                ),
                (match s.main {
                    Some(p) => seq![member_line(p, now, true)],
                    None => Seq::empty(),
                }) + s.secondary@.map_values(|p: Panel| member_line(p, now, false))
                    + s.table@.map_values(|p: Panel| table_line(p, now)),
                false,
            )
        },
    }
}

fn padded_title(t: &Option<String>) -> (r: String)
    ensures
        r@ == " "@ + opt_text(*t) + " "@,
{
    proof {
        reveal_strlit(" ");
    }
    let mut s = " ".to_owned();
    match t {
        Some(x) => cat(&mut s, x.as_str()),
        None => {},
    }
    cat(&mut s, " ");
    s
}

fn single_panel_lines(p: &Panel, now: i64) -> (r: Vec<Vec<Span>>)
    ensures
        lines_view(r@) == single_lines(*p, now),
{
    let mut vl = lines(p.value.as_str());
    if vl.len() == 0 {
        vl.push(String::new());
        proof {
            assert(vl@.map_values(|l: String| l@) =~= seq![Seq::<char>::empty()]);
        }
    }
    let ghost want = single_lines(*p, now);
    let st = SpanStyle {
        fg: crate::config::source::accent_color(p.level, p.status),
        bold: true,
        dim: false,
    };
    let n = vl.len();
    let mut out: Vec<Vec<Span>> = Vec::new();
    let mut i: usize = 0;
    while i < n
        invariant
            i <= n == vl@.len(),
            n > 0,
            want == single_lines(*p, now),
            want.len() == n,
            vl@.map_values(|l: String| l@) == (if text_lines(p.value@).len() == 0 {
                seq![Seq::<char>::empty()]
            } else {
                text_lines(p.value@)
            }),
            st == bold(status_style(p.level, p.status)),
            out@.len() == i,
            forall|k: int| 0 <= k < i ==> line_view(#[trigger] out@[k]) == want[k],
        decreases n - i,
    {
        let mut l: Vec<Span> = Vec::new();
        l.push(span(vl[i].clone(), st));
        assert(vl@.map_values(|l: String| l@)[i as int] == vl@[i as int]@);
        if i + 1 == n {
            if !p.unit.as_str().is_empty() {
                proof {
                    reveal_strlit(" ");
                }
                let mut u = " ".to_owned();
                cat(&mut u, p.unit.as_str());
                l.push(span(u, SpanStyle { fg: None, bold: false, dim: false }));
            }
            l.push(span(updated(now, p.ts_ms), SpanStyle { fg: None, bold: false, dim: true }));
        }
        assert(line_view(l) =~= want[i as int]);
        out.push(l);
        i = i + 1;
    }
    assert(lines_view(out@) =~= want);
    out
}

pub open spec fn slot_mains(s: Slot) -> Seq<Panel> {
    match s.main {
        Some(p) => seq![p],
        None => Seq::empty(),
    }
}

/// Draws one slot at `now` (epoch milliseconds).
pub fn panel_widget(slot: &Slot, now_ms: i64) -> (r: PanelView)
    ensures
        (span_view(r.title), r.border, lines_view(r.lines@), r.wrap) == spec_panel_view(
            *slot,
            now_ms,
        ),
{
    match &slot.text {
        Some(t) => {
            let ls = lines(t.as_str());
            let mut out: Vec<Vec<Span>> = Vec::new();
            let mut i: usize = 0;
            while i < ls.len()
                invariant
                    i <= ls@.len(),
                    ls@.map_values(|l: String| l@) == text_lines(t@),
                    out@.len() == i,
                    forall|k: int|
                        0 <= k < i ==> line_view(#[trigger] out@[k]) == seq![(ls@[k]@, plain())],
                decreases ls.len() - i,
            {
                let mut l: Vec<Span> = Vec::new();
                l.push(span(ls[i].clone(), SpanStyle { fg: None, bold: false, dim: false }));
                assert(line_view(l) =~= seq![(ls@[i as int]@, plain())]);
                out.push(l);
                i = i + 1;
            }
            proof {
                assert(lines_view(out@) =~= text_lines(t@).map_values(
                    |l: Seq<char>| seq![(l, plain())],
                ));
            }
            return PanelView {
                title: span(padded_title(&slot.group_title), SpanStyle { fg: None, bold: false, dim: false }),
                border: None,
                lines: out,
                wrap: true,
            };
        },
        None => {},
    }
    if slot.secondary.len() == 0 && slot.table.len() == 0 {
        match &slot.main {
            Some(p) => {
                let fg = crate::config::source::accent_color(p.level, p.status);
                proof {
                    reveal_strlit(" ");
                    reveal_strlit(" [");
                    reveal_strlit("] ");
                }
                let mut title = " ".to_owned();
                match &slot.group_title {
                    Some(t) => cat(&mut title, t.as_str()),
                    None => cat(&mut title, p.name.as_str()),
                }
                cat(&mut title, " [");
                cat(&mut title, p.status.as_str());
                cat(&mut title, "] ");
                return PanelView {
                    title: span(title, SpanStyle { fg, bold: false, dim: false }),
                    border: fg,
                    lines: single_panel_lines(p, now_ms),
                    wrap: true,
                };
            },
            None => {},
        }
    }
    let mut colors: Vec<Level> = Vec::new();
    let mut out: Vec<Vec<Span>> = Vec::new();
    let ghost mains = slot_mains(*slot);
    match &slot.main {
        Some(p) => {
            colors.push(crate::config::source::status_color(p.level, p.status));
            out.push(member_line_of(p, now_ms, true));
        },
        None => {},
    }
    proof {
        assert(colors@ =~= mains.map_values(|p: Panel| spec_status_color(p.level, p.status)));
        assert(lines_view(out@) =~= (match slot.main {
            Some(p) => seq![member_line(p, now_ms, true)],
            None => Seq::empty(),
        }));
    }
    let ghost c0 = colors@;
    let ghost l0 = lines_view(out@);
    let mut i: usize = 0;
    while i < slot.secondary.len()
        invariant
            i <= slot.secondary@.len(),
            colors@ == c0 + slot.secondary@.take(i as int).map_values(
                |p: Panel| spec_status_color(p.level, p.status),
            ),
            lines_view(out@) == l0 + slot.secondary@.take(i as int).map_values(
                |p: Panel| member_line(p, now_ms, false),
            ),
        decreases slot.secondary.len() - i,
    {
        let p = &slot.secondary[i];
        let ghost cb = colors@;
        let ghost ob = out@;
        colors.push(crate::config::source::status_color(p.level, p.status));
        out.push(member_line_of(p, now_ms, false));
        proof {
            assert(slot.secondary@.take(i + 1).map_values(
                |p: Panel| spec_status_color(p.level, p.status),
            ) =~= slot.secondary@.take(i as int).map_values(
                |p: Panel| spec_status_color(p.level, p.status),
            ).push(spec_status_color(p.level, p.status)));
            assert(slot.secondary@.take(i + 1).map_values(|p: Panel| member_line(p, now_ms, false))
                =~= slot.secondary@.take(i as int).map_values(
                |p: Panel| member_line(p, now_ms, false),
            ).push(member_line(*p, now_ms, false)));
            assert(lines_view(out@) =~= lines_view(ob).push(member_line(*p, now_ms, false)));
        }
        i = i + 1;
    }
    let ghost c1 = colors@;
    let ghost l1 = lines_view(out@);
    let mut j: usize = 0;
    while j < slot.table.len()
        invariant
            j <= slot.table@.len(),
            colors@ == c1 + slot.table@.take(j as int).map_values(
                |p: Panel| spec_status_color(p.level, p.status),
            ),
            lines_view(out@) == l1 + slot.table@.take(j as int).map_values(
                |p: Panel| table_line(p, now_ms),
            ),
        decreases slot.table.len() - j,
    {
        let p = &slot.table[j];
        let ghost ob = out@;
        colors.push(crate::config::source::status_color(p.level, p.status));
        out.push(table_line_of(p, now_ms));
        proof {
            assert(slot.table@.take(j + 1).map_values(
                |p: Panel| spec_status_color(p.level, p.status),
            ) =~= slot.table@.take(j as int).map_values(
                |p: Panel| spec_status_color(p.level, p.status),
            ).push(spec_status_color(p.level, p.status)));
            assert(slot.table@.take(j + 1).map_values(|p: Panel| table_line(p, now_ms))
                =~= slot.table@.take(j as int).map_values(|p: Panel| table_line(p, now_ms)).push(
                table_line(*p, now_ms),
            ));
            assert(lines_view(out@) =~= lines_view(ob).push(table_line(*p, now_ms)));
        }
        j = j + 1;
    }
    proof {
        assert(slot.secondary@.take(i as int) =~= slot.secondary@);
        assert(slot.table@.take(j as int) =~= slot.table@);
        let members = mains + slot.secondary@ + slot.table@;
        assert(colors@ =~= members.map_values(|p: Panel| spec_status_color(p.level, p.status)));
    }
    let border = worst_color(colors.as_slice());
    PanelView {
        title: span(padded_title(&slot.group_title), SpanStyle { fg: None, bold: false, dim: false }),
        border: Some(border),
        lines: out,
        wrap: false,
    }
}

/// A screen area.
#[derive(Debug, Clone, Copy, PartialEq, Eq, Structural)]
pub struct Rect {
    pub x: u16,
    pub y: u16,
    pub width: u16,
    pub height: u16,
}

/// Columns given to each grid column in `auto` width.
pub const AUTO_COLUMN_WIDTH: u16 = 30;

/// The content area: `area` narrowed to the configured width (a fixed
/// count, or thirty columns per grid column in `auto`, the column count
/// taken as a `u16` and the product saturating), never wider than `area`,
/// and centered in it; `area` itself when there is no grid.
pub open spec fn spec_content_rect(area: Rect, tui_width: TuiWidth, max_columns: usize) -> Rect {
    if max_columns == 0 {
        area
    } else {
        let desired: int = match tui_width {
            TuiWidth::Fixed(c) => c as int,
            TuiWidth::Named(_) => {
                let p = (max_columns as int % 65536) * 30;
                if p > 65535 {
                    65535
                } else {
                    p
                }
            },
        };
        let width = if desired < area.width {
            desired
        } else {
            area.width as int
        };
        Rect {
            x: (area.x + (area.width - width) / 2) as u16,
            y: area.y,
            width: width as u16,
            height: area.height,
        }
    }
}

pub fn content_rect(area: Rect, tui_width: &TuiWidth, max_columns: usize) -> (r: Rect)
    requires
        area.x + area.width <= u16::MAX,
    ensures
        r == spec_content_rect(area, *tui_width, max_columns),
{
    if max_columns == 0 {
        return area;
    }
    let desired: u16 = match tui_width {
        TuiWidth::Fixed(c) => *c,
        TuiWidth::Named(_) => {
            let cols: u16 = (max_columns % 65536) as u16;
            match cols.checked_mul(AUTO_COLUMN_WIDTH) {
                Some(p) => p,
                None => 65535,
            }
        },
    };
    let width = if desired < area.width {
        desired
    } else {
        area.width
    };
    Rect { x: area.x + (area.width - width) / 2, y: area.y, width, height: area.height }
}

/// The widest row's total span among `rows` (`0` when there are none).
pub open spec fn spec_max_columns(rows: Seq<Vec<Slot>>) -> nat
    decreases rows.len(),
{
    if rows.len() == 0 {
        0
    } else {
        let w = slots_width(rows.last()@);
        let m = spec_max_columns(rows.drop_last());
        if w > m {
            w
        } else {
            m
        }
    }
}

pub open spec fn slots_width(row: Seq<Slot>) -> nat
    decreases row.len(),
{
    if row.len() == 0 {
        0
    } else {
        slots_width(row.drop_last()) + (row.last().span as nat)
    }
}

proof fn lemma_slots_width_prefix(row: Seq<Slot>, i: int)
    requires
        0 <= i <= row.len(),
    ensures
        slots_width(row.take(i)) <= slots_width(row),
    decreases row.len() - i,
{
    if i < row.len() {
        lemma_slots_width_prefix(row, i + 1);
        assert(row.take(i + 1).drop_last() =~= row.take(i));
    } else {
        assert(row.take(i) =~= row);
    }
}

/// The grid's column count: the widest row's total span.
pub fn max_columns(rows: &Vec<Vec<Slot>>) -> (r: usize)
    requires
        forall|i: int| 0 <= i < rows@.len() ==> slots_width((#[trigger] rows@[i])@) <= usize::MAX,
    ensures
        r == spec_max_columns(rows@),
{
    let mut best: usize = 0;
    let mut i: usize = 0;
    while i < rows.len()
        invariant
            i <= rows@.len(),
            forall|k: int| 0 <= k < rows@.len() ==> slots_width((#[trigger] rows@[k])@) <= usize::MAX,
            best == spec_max_columns(rows@.take(i as int)),
        decreases rows.len() - i,
    {
        let row = &rows[i];
        let mut sum: usize = 0;
        let mut j: usize = 0;
        while j < row.len()
            invariant
                j <= row@.len(),
                slots_width(row@) <= usize::MAX,
                sum == slots_width(row@.take(j as int)),
            decreases row.len() - j,
        {
            proof {
                lemma_slots_width_prefix(row@, j + 1);
                assert(row@.take(j + 1).drop_last() =~= row@.take(j as int));
            }
            sum = sum + row[j].span;
            j = j + 1;
        }
        assert(row@.take(j as int) =~= row@);
        assert(rows@.take(i + 1).drop_last() =~= rows@.take(i as int));
        if sum > best {
            best = sum;
        }
        i = i + 1;
    }
    assert(rows@.take(i as int) =~= rows@);
    best
}

/// A key as the terminal reports it.
#[derive(Debug, Clone, Copy, PartialEq, Eq, Structural)]
pub enum KeyCode {
    Char(char),
    Esc,
    Other,
}

/// A key event: which key, whether it is a press (not a release or
/// repeat), and whether Control was held.
#[derive(Debug, Clone, Copy, PartialEq, Eq, Structural)]
pub struct KeyEvent {
    pub code: KeyCode,
    pub press: bool,
    pub control: bool,
}

/// Whether a terminal event (`None`: not a key event) asks to quit: a
/// press of `q`, Esc, or Control-C.
pub open spec fn spec_quit_requested(event: Option<KeyEvent>) -> bool {
    match event {
        None => false,
        Some(k) => k.press && (k.code == KeyCode::Char('q') || k.code == KeyCode::Esc || (k.code
            == KeyCode::Char('c') && k.control)),
    }
}

pub fn quit_requested(event: Option<KeyEvent>) -> (r: bool)
    ensures
        r == spec_quit_requested(event),
{
    match event {
        None => false,
        Some(k) => {
            if !k.press {
                return false;
            }
            match k.code {
                KeyCode::Char(c) => c == 'q' || (c == 'c' && k.control),
                KeyCode::Esc => true,
                KeyCode::Other => false,
            }
        },
    }
}

} // verus!
