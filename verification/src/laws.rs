//! Properties of the library as a whole, proved over the same spec
//! functions the operations' contracts use.

use vstd::prelude::*;
use crate::config::source::{Level, Threshold, band_scan, spec_level_for, spec_worst_color};
use crate::num::{Num, num_is_nan, num_le, num_lt, order_key};
use crate::config::overrides::{all_digits, digits_value, is_digit, parse_unsigned};
use crate::query::{DAEMON_REQUEST_NANOS, DURATION_MAX_NANOS, spec_poll_timeout};
use crate::report::{first_newline, spec_one_line, take_chars};
use crate::text::{decimal, digit_char, is_char_pred, strip_lead, strip_trail, trim_spec, ws_pred};
use crate::tui::view::{Rect, spec_content_rect};
use crate::config::layout::TuiWidth;
use crate::db::LogRow;
use crate::health::{Health, SourceHealth, at_most, first_success, leading_failures, rows_of, spec_status};
use crate::config::Config;
use crate::config::source::{
    SourceCfg, ValueType, find_source, severity, spec_status_color, src_history_points, src_name,
    src_show_history,
};
use crate::config::validation::{CronStatus, config_problem, duplicate_before, sources_problem};
use crate::db::ReadingRow;
use crate::int_parse::spec_parse_i64;
use crate::source::{IngestItem, ingest_text, spec_ingest_item};
use crate::tui::view::spec_panel_view;
use crate::tui::model::{Panel as TuiPanel, Slot as TuiSlot};
use crate::web::grid::{spec_history_points, web_panel_for};
use crate::web::panels::Panel;
use crate::web::markdown::{is_url_stripped, skip_controls, spec_browser_normalized, spec_is_safe_url, url_kept};

verus! {

broadcast use vstd::seq_lib::group_to_multiset_ensures;

/// `c` is, among `ths`, a band covering `v` with the lowest bound.
pub open spec fn lowest_covering(ths: Seq<Threshold>, v: Num, c: Threshold) -> bool {
    &&& ths.contains(c)
    &&& num_le(v, c.bound)
    &&& forall|i: int|
        0 <= i < ths.len() && num_le(v, (#[trigger] ths[i]).bound) ==> order_key(c.bound)
            <= order_key(ths[i].bound)
}

/// `h` is, among `ths`, a band with the highest bound.
pub open spec fn highest_band(ths: Seq<Threshold>, h: Threshold) -> bool {
    &&& ths.contains(h)
    &&& forall|i: int| 0 <= i < ths.len() ==> order_key((#[trigger] ths[i]).bound) <= order_key(h.bound)
}

pub open spec fn bounds_not_nan(ths: Seq<Threshold>) -> bool {
    forall|i: int| 0 <= i < ths.len() ==> !num_is_nan((#[trigger] ths[i]).bound)
}

/// No two bands share a bound.
pub open spec fn bounds_distinct(ths: Seq<Threshold>) -> bool {
    forall|i: int, j: int|
        0 <= i < ths.len() && 0 <= j < ths.len() && i != j ==> order_key((#[trigger] ths[i]).bound)
            != order_key((#[trigger] ths[j]).bound)
}

proof fn lemma_scan_covering(ths: Seq<Threshold>, v: Num)
    requires
        bounds_not_nan(ths),
    ensures
        match band_scan(ths, v).0 {
            Some(c) => lowest_covering(ths, v, c),
            None => forall|i: int| 0 <= i < ths.len() ==> !num_le(v, (#[trigger] ths[i]).bound),
        },
    decreases ths.len(),
{
    if ths.len() > 0 {
        let pre = ths.drop_last();
        let t = ths.last();
        assert(bounds_not_nan(pre)) by {
            assert forall|i: int| 0 <= i < pre.len() implies !num_is_nan((#[trigger] pre[i]).bound) by {
                assert(pre[i] == ths[i]);
            }
        }
        lemma_scan_covering(pre, v);
        assert(!num_is_nan(ths[ths.len() - 1].bound));
        match band_scan(pre, v).0 {
            Some(c) => {
                let k = choose|k: int| 0 <= k < pre.len() && pre[k] == c;
                assert(ths[k] == c);
                assert(!num_is_nan(ths[k].bound));
                if num_le(v, t.bound) && num_lt(t.bound, c.bound) {
                    assert(ths[ths.len() - 1] == t);
                    assert forall|i: int| 0 <= i < ths.len() && num_le(v, (#[trigger] ths[i]).bound) implies order_key(
                        t.bound,
                    ) <= order_key(ths[i].bound) by {
                        if i < ths.len() - 1 {
                            assert(pre[i] == ths[i]);
                        }
                    }
                } else {
                    assert forall|i: int| 0 <= i < ths.len() && num_le(v, (#[trigger] ths[i]).bound) implies order_key(
                        c.bound,
                    ) <= order_key(ths[i].bound) by {
                        if i < ths.len() - 1 {
                            assert(pre[i] == ths[i]);
                        } else {
                            assert(ths[i] == t);
                        }
                    }
                }
            },
            None => {
                if num_le(v, t.bound) {
                    assert(ths[ths.len() - 1] == t);
                    assert forall|i: int| 0 <= i < ths.len() && num_le(v, (#[trigger] ths[i]).bound) implies order_key(
                        t.bound,
                    ) <= order_key(ths[i].bound) by {
                        if i < ths.len() - 1 {
                            assert(pre[i] == ths[i]);
                        }
                    }
                } else {
                    assert forall|i: int| 0 <= i < ths.len() implies !num_le(v, (#[trigger] ths[i]).bound) by {
                        if i < ths.len() - 1 {
                            assert(pre[i] == ths[i]);
                        }
                    }
                }
            },
        }
    }
}

proof fn lemma_scan_highest(ths: Seq<Threshold>, v: Num)
    requires
        bounds_not_nan(ths),
    ensures
        match band_scan(ths, v).1 {
            Some(h) => highest_band(ths, h),
            None => ths.len() == 0,
        },
    decreases ths.len(),
{
    if ths.len() > 0 {
        let pre = ths.drop_last();
        let t = ths.last();
        assert(bounds_not_nan(pre)) by {
            assert forall|i: int| 0 <= i < pre.len() implies !num_is_nan((#[trigger] pre[i]).bound) by {
                assert(pre[i] == ths[i]);
            }
        }
        lemma_scan_highest(pre, v);
        assert(!num_is_nan(ths[ths.len() - 1].bound));
        assert(ths[ths.len() - 1] == t);
        match band_scan(pre, v).1 {
            Some(h) => {
                let k = choose|k: int| 0 <= k < pre.len() && pre[k] == h;
                assert(ths[k] == h);
                assert(!num_is_nan(ths[k].bound));
                if num_le(h.bound, t.bound) {
                    assert forall|i: int| 0 <= i < ths.len() implies order_key((#[trigger] ths[i]).bound)
                        <= order_key(t.bound) by {
                        if i < ths.len() - 1 {
                            assert(pre[i] == ths[i]);
                        }
                    }
                } else {
                    assert forall|i: int| 0 <= i < ths.len() implies order_key((#[trigger] ths[i]).bound)
                        <= order_key(h.bound) by {
                        if i < ths.len() - 1 {
                            assert(pre[i] == ths[i]);
                        }
                    }
                }
            },
            None => {
                assert forall|i: int| 0 <= i < ths.len() implies order_key((#[trigger] ths[i]).bound)
                    <= order_key(t.bound) by {
                    assert(i == ths.len() - 1);
                }
            },
        }
    }
}

proof fn lemma_contains_index(s: Seq<Threshold>, x: Threshold) -> (k: int)
    requires
        s.contains(x),
    ensures
        0 <= k < s.len() && s[k] == x,
{
    choose|k: int| 0 <= k < s.len() && s[k] == x
}

/// `ths[k]` covers `v` with the lowest bound, and every earlier band that
/// covers `v` has a strictly higher bound: the earliest among ties.
pub open spec fn first_lowest_covering(ths: Seq<Threshold>, v: Num, k: int) -> bool {
    &&& 0 <= k < ths.len()
    &&& lowest_covering(ths, v, ths[k])
    &&& forall|j: int|
        0 <= j < k && num_le(v, (#[trigger] ths[j]).bound) ==> order_key(ths[k].bound) < order_key(
            ths[j].bound,
        )
}

/// `ths[k]` has the highest bound, and every later band has a strictly
/// lower one: the latest among ties.
pub open spec fn last_highest(ths: Seq<Threshold>, k: int) -> bool {
    &&& 0 <= k < ths.len()
    &&& highest_band(ths, ths[k])
    &&& forall|j: int| k < j < ths.len() ==> order_key((#[trigger] ths[j]).bound) < order_key(ths[k].bound)
}

proof fn lemma_scan_covering_first(ths: Seq<Threshold>, v: Num) -> (k: int)
    requires
        bounds_not_nan(ths),
        band_scan(ths, v).0 is Some,
    ensures
        first_lowest_covering(ths, v, k),
        ths[k] == band_scan(ths, v).0->0,
    decreases ths.len(),
{
    lemma_scan_covering(ths, v);
    let pre = ths.drop_last();
    let t = ths.last();
    let last = ths.len() - 1;
    assert(ths[last] == t);
    assert(bounds_not_nan(pre)) by {
        assert forall|i: int| 0 <= i < pre.len() implies !num_is_nan((#[trigger] pre[i]).bound) by {
            assert(pre[i] == ths[i]);
        }
    }
    lemma_scan_covering(pre, v);
    let c = band_scan(ths, v).0->0;
    match band_scan(pre, v).0 {
        Some(cp) => {
            let kp = lemma_scan_covering_first(pre, v);
            assert(ths[kp] == cp);
            if c == cp && !(num_le(v, t.bound) && num_lt(t.bound, cp.bound)) {
                assert forall|j: int| 0 <= j < kp && num_le(v, (#[trigger] ths[j]).bound) implies order_key(
                    ths[kp].bound,
                ) < order_key(ths[j].bound) by {
                    assert(pre[j] == ths[j]);
                }
                kp
            } else {
                assert forall|j: int| 0 <= j < last && num_le(v, (#[trigger] ths[j]).bound) implies order_key(
                    ths[last].bound,
                ) < order_key(ths[j].bound) by {
                    assert(pre[j] == ths[j]);
                    assert(order_key(cp.bound) <= order_key(pre[j].bound));
                }
                last
            }
        },
        None => {
            assert forall|j: int| 0 <= j < last && num_le(v, (#[trigger] ths[j]).bound) implies order_key(
                ths[last].bound,
            ) < order_key(ths[j].bound) by {
                assert(pre[j] == ths[j]);
            }
            last
        },
    }
}

proof fn lemma_scan_highest_last(ths: Seq<Threshold>, v: Num) -> (k: int)
    requires
        bounds_not_nan(ths),
        ths.len() > 0,
    ensures
        last_highest(ths, k),
        band_scan(ths, v).1 == Some(ths[k]),
    decreases ths.len(),
{
    lemma_scan_highest(ths, v);
    let pre = ths.drop_last();
    let t = ths.last();
    let last = ths.len() - 1;
    assert(ths[last] == t);
    assert(!num_is_nan(t.bound));
    if pre.len() == 0 {
        last
    } else {
        assert(bounds_not_nan(pre)) by {
            assert forall|i: int| 0 <= i < pre.len() implies !num_is_nan((#[trigger] pre[i]).bound) by {
                assert(pre[i] == ths[i]);
            }
        }
        let kp = lemma_scan_highest_last(pre, v);
        assert(ths[kp] == pre[kp]);
        let hp = pre[kp];
        assert(!num_is_nan(hp.bound));
        if num_le(hp.bound, t.bound) {
            last
        } else {
            assert forall|j: int| kp < j < ths.len() implies order_key((#[trigger] ths[j]).bound) < order_key(
                ths[kp].bound,
            ) by {
                if j < last {
                    assert(pre[j] == ths[j]);
                }
            }
            kp
        }
    }
}

/// What band a reading takes, stated directly. Over bands whose bounds are
/// numbers, a numeric reading takes the level of the band with the lowest
/// bound at or above it (the earliest declared among equal bounds); when no
/// band reaches that high, the level of the band with the highest bound
/// (the latest declared among equal bounds); with no bands, no level.
pub proof fn lemma_level_for_meaning(ths: Seq<Threshold>, v: Num)
    requires
        bounds_not_nan(ths),
        !num_is_nan(v),
    ensures
        ths.len() == 0 ==> spec_level_for(ths, Some(v)) is None,
        (exists|i: int| 0 <= i < ths.len() && num_le(v, (#[trigger] ths[i]).bound)) ==> exists|k: int|
            first_lowest_covering(ths, v, k) && spec_level_for(ths, Some(v)) == Some(
                (#[trigger] ths[k]).level,
            ),
        (ths.len() > 0 && forall|i: int| 0 <= i < ths.len() ==> !num_le(v, (#[trigger] ths[i]).bound))
            ==> exists|k: int|
            last_highest(ths, k) && spec_level_for(ths, Some(v)) == Some((#[trigger] ths[k]).level),
{
    lemma_scan_covering(ths, v);
    if ths.len() > 0 {
        let kh = lemma_scan_highest_last(ths, v);
        match band_scan(ths, v).0 {
            Some(c) => {
                let k = lemma_scan_covering_first(ths, v);
                assert(num_le(v, ths[k].bound));
            },
            None => {
                assert(last_highest(ths, kh));
            },
        }
    }
}

/// Two reorderings of one band list whose bounds differ pairwise (and are
/// numbers) color every reading alike: a reading takes the band with the
/// lowest bound at or above it, else the band with the highest bound, so
/// the order the bands are declared in does not matter.
pub proof fn lemma_level_for_order_free(a: Seq<Threshold>, b: Seq<Threshold>, value: Option<Num>)
    requires
        a.to_multiset() == b.to_multiset(),
        bounds_not_nan(a),
        bounds_distinct(a),
    ensures
        spec_level_for(a, value) == spec_level_for(b, value),
{
    if let Some(v) = value {
        assert forall|x: Threshold| a.contains(x) <==> b.contains(x) by {
            vstd::seq_lib::to_multiset_contains(a, x);
            vstd::seq_lib::to_multiset_contains(b, x);
        }
        assert(bounds_not_nan(b)) by {
            assert forall|i: int| 0 <= i < b.len() implies !num_is_nan((#[trigger] b[i]).bound) by {
                assert(b.contains(b[i]));
                let k = lemma_contains_index(a, b[i]);
            }
        }
        lemma_scan_covering(a, v);
        lemma_scan_covering(b, v);
        lemma_scan_highest(a, v);
        lemma_scan_highest(b, v);
        let (ca, ha) = band_scan(a, v);
        let (cb, hb) = band_scan(b, v);
        match (ca, cb) {
            (Some(x), Some(y)) => {
                let i = lemma_contains_index(a, x);
                let j = lemma_contains_index(a, y);
                let jb = lemma_contains_index(b, y);
                let ib = lemma_contains_index(b, x);
                assert(order_key(x.bound) <= order_key(a[j].bound));
                assert(order_key(y.bound) <= order_key(b[ib].bound));
                assert(order_key(x.bound) == order_key(y.bound));
                if i != j {
                    assert(order_key(a[i].bound) != order_key(a[j].bound));
                }
            },
            (Some(x), None) => {
                let ib = lemma_contains_index(b, x);
                assert(!num_le(v, b[ib].bound));
            },
            (None, Some(y)) => {
                let j = lemma_contains_index(a, y);
                assert(!num_le(v, a[j].bound));
            },
            (None, None) => {
                match (ha, hb) {
                    (Some(x), Some(y)) => {
                        let i = lemma_contains_index(a, x);
                        let j = lemma_contains_index(a, y);
                        let ib = lemma_contains_index(b, x);
                        assert(order_key(a[j].bound) <= order_key(x.bound));
                        assert(order_key(b[ib].bound) <= order_key(y.bound));
                        if i != j {
                            assert(order_key(a[i].bound) != order_key(a[j].bound));
                        }
                    },
                    (Some(x), None) => {
                        assert(b.contains(x));
                    },
                    (None, Some(y)) => {
                        assert(a.contains(y));
                    },
                    (None, None) => {},
                }
            },
        }
    }
}

/// The worst color of a group does not depend on the order of its
/// members.
pub proof fn lemma_worst_color_order_free(a: Seq<Level>, b: Seq<Level>)
    requires
        a.to_multiset() == b.to_multiset(),
    ensures
        spec_worst_color(a) == spec_worst_color(b),
{
    vstd::seq_lib::to_multiset_contains(a, Level::Red);
    vstd::seq_lib::to_multiset_contains(b, Level::Red);
    vstd::seq_lib::to_multiset_contains(a, Level::Yellow);
    vstd::seq_lib::to_multiset_contains(b, Level::Yellow);
}

/// The worst color of two groups together is the worse of the two groups'
/// worst colors: a pane's border can be judged section by section.
pub proof fn lemma_worst_color_concat(a: Seq<Level>, b: Seq<Level>)
    ensures
        spec_worst_color(a + b) == spec_worst_color(seq![spec_worst_color(a), spec_worst_color(b)]),
{
    let ab = a + b;
    let w = seq![spec_worst_color(a), spec_worst_color(b)];
    assert forall|l: Level| ab.contains(l) <==> (a.contains(l) || b.contains(l)) by {
        if ab.contains(l) {
            let i = choose|i: int| 0 <= i < ab.len() && ab[i] == l;
            if i < a.len() {
                assert(a[i] == l);
            } else {
                assert(b[i - a.len()] == l);
            }
        }
        if a.contains(l) {
            let i = choose|i: int| 0 <= i < a.len() && a[i] == l;
            assert(ab[i] == l);
        }
        if b.contains(l) {
            let i = choose|i: int| 0 <= i < b.len() && b[i] == l;
            assert(ab[a.len() + i] == l);
        }
    }
    assert(w[0] == spec_worst_color(a) && w[1] == spec_worst_color(b));
    assert(w.contains(Level::Red) <==> (a.contains(Level::Red) || b.contains(Level::Red)));
    assert(w.contains(Level::Yellow) ==> (w[0] == Level::Yellow || w[1] == Level::Yellow));
}

/// A green member never makes a group's color worse.
pub proof fn lemma_worst_color_green_neutral(a: Seq<Level>)
    ensures
        spec_worst_color(a.push(Level::Green)) == spec_worst_color(a),
{
    let g = a.push(Level::Green);
    assert forall|l: Level| l != Level::Green implies (g.contains(l) <==> a.contains(l)) by {
        if g.contains(l) {
            let i = choose|i: int| 0 <= i < g.len() && g[i] == l;
            assert(i < a.len());
            assert(a[i] == l);
        }
        if a.contains(l) {
            let i = choose|i: int| 0 <= i < a.len() && a[i] == l;
            assert(g[i] == l);
        }
    }
}

/// A reading exactly at a band's bound takes that band (bounds are
/// inclusive), whatever order the bands are declared in.
pub proof fn lemma_level_at_bound(ths: Seq<Threshold>, i: int)
    requires
        0 <= i < ths.len(),
        bounds_not_nan(ths),
        bounds_distinct(ths),
    ensures
        spec_level_for(ths, Some(ths[i].bound)) == Some(ths[i].level),
{
    let v = ths[i].bound;
    lemma_scan_covering(ths, v);
    assert(num_le(v, ths[i].bound));
    match band_scan(ths, v).0 {
        Some(c) => {
            let k = lemma_contains_index(ths, c);
            assert(order_key(c.bound) <= order_key(ths[i].bound));
            assert(num_le(v, c.bound));
            if k != i {
                assert(order_key(ths[k].bound) != order_key(ths[i].bound));
            }
        },
        None => {},
    }
}

proof fn lemma_rows_of_idempotent(rows: Seq<LogRow>, source: Seq<char>)
    ensures
        rows_of(rows_of(rows, source), source) == rows_of(rows, source),
    decreases rows.len(),
{
    reveal_with_fuel(Seq::filter, 1);
    if rows.len() > 0 {
        let f = rows_of(rows.drop_last(), source);
        lemma_rows_of_idempotent(rows.drop_last(), source);
        if rows.last().source@ == source {
            let g = f.push(rows.last());
            assert(g.drop_last() =~= f);
            assert(g.last() == rows.last());
        }
    }
}

/// Splitting one batch of several sources' attempts by source gives each
/// source the same health inputs (its newest `limit` attempts and its last
/// success) as a batch holding that source's attempts alone, so the batched
/// and the per-source health agree.
pub proof fn lemma_batched_health_inputs_agree(rows: Seq<LogRow>, source: Seq<char>, limit: nat)
    ensures
        at_most(rows_of(rows, source), limit) == at_most(rows_of(rows_of(rows, source), source), limit),
        first_success(rows_of(rows, source)) == first_success(rows_of(rows_of(rows, source), source)),
{
    lemma_rows_of_idempotent(rows, source);
}

/// A forced poll through the daemon always gets at least the ordinary
/// request budget, more whenever the source has a timeout, and never more
/// than the longest duration there is.
pub proof fn lemma_poll_timeout_covers(t: int)
    requires
        0 <= t <= DURATION_MAX_NANOS,
    ensures
        spec_poll_timeout(t) >= DAEMON_REQUEST_NANOS,
        t > 0 ==> spec_poll_timeout(t) > DAEMON_REQUEST_NANOS,
        spec_poll_timeout(t) <= DURATION_MAX_NANOS,
        spec_poll_timeout(t) >= t,
{
}

/// The content area never leaves the screen area it is placed in.
pub proof fn lemma_content_rect_within(area: Rect, w: TuiWidth, cols: usize)
    requires
        area.x + area.width <= u16::MAX,
    ensures
        spec_content_rect(area, w, cols).width <= area.width,
        area.x <= spec_content_rect(area, w, cols).x,
        spec_content_rect(area, w, cols).x + spec_content_rect(area, w, cols).width <= area.x
            + area.width,
        spec_content_rect(area, w, cols).y == area.y,
        spec_content_rect(area, w, cols).height == area.height,
{
}

proof fn lemma_decimal_digits(n: nat)
    ensures
        decimal(n).len() > 0,
        all_digits(decimal(n)),
        digits_value(decimal(n)) == n,
    decreases n,
{
    if n < 10 {
        let d = decimal(n);
        assert(d[0] == digit_char(n));
        assert(d.drop_last() =~= Seq::<char>::empty());
        assert((digit_char(n) as nat) == n + 48);
        assert(d.last() == d[0]);
        assert(digits_value(d.drop_last()) == 0);
        assert(digits_value(d) == digits_value(d.drop_last()) * 10 + ((d.last() as nat) - 48) as nat);
    } else {
        lemma_decimal_digits(n / 10);
        let d = decimal(n);
        let m = n % 10;
        assert(d.drop_last() =~= decimal(n / 10));
        assert(d.last() == digit_char(m));
        assert((digit_char(m) as nat) == m + 48);
        assert(digits_value(d) == digits_value(d.drop_last()) * 10 + ((d.last() as nat) - 48) as nat);
        assert(n == (n / 10) * 10 + m);
        assert forall|i: int| 0 <= i < d.len() implies is_digit(#[trigger] d[i]) by {
            if i < d.len() - 1 {
                assert(d[i] == decimal(n / 10)[i]);
            }
        }
    }
}

/// A number written out in decimal reads back as itself: what
/// `u64_to_string` writes, the override parser reads as the same number
/// (when it is in range).
pub proof fn lemma_decimal_round_trip(n: nat, max: nat)
    requires
        n <= max,
    ensures
        parse_unsigned(decimal(n), max) == Some(n),
{
    lemma_decimal_digits(n);
    let d = decimal(n);
    assert(is_digit(d[0]));
}

/// A cell's one-line form never holds a line break.
pub proof fn lemma_one_line_is_one_line(s: Seq<char>)
    ensures
        !spec_one_line(s).contains('\n'),
{
    let p = first_newline(s);
    crate::tui::view::lemma_first_newline(s);
    let head = s.subrange(0, p);
    assert forall|j: int| 0 <= j < head.len() implies head[j] != '\n' by {
        assert(head[j] == s[j]);
    }
    let first = trim_spec(head);
    lemma_trim_within(head);
    let cut = take_chars(first, 60);
    assert forall|j: int| 0 <= j < cut.len() implies cut[j] != '\n' by {
        assert(cut[j] == first[j]);
    }
    reveal_strlit("…");
    let out = spec_one_line(s);
    assert forall|j: int| 0 <= j < out.len() implies out[j] != '\n' by {
        if j < cut.len() {
            assert(out[j] == cut[j]);
        }
    }
}

proof fn lemma_strip_lead_suffix(s: Seq<char>, p: spec_fn(char) -> bool) -> (k: int)
    ensures
        0 <= k <= s.len(),
        strip_lead(s, p) == s.skip(k),
    decreases s.len(),
{
    if s.len() > 0 && p(s[0]) {
        let k = lemma_strip_lead_suffix(s.drop_first(), p);
        assert(s.drop_first().skip(k) =~= s.skip(k + 1));
        k + 1
    } else {
        assert(s.skip(0) =~= s);
        0
    }
}

proof fn lemma_strip_trail_prefix(s: Seq<char>, p: spec_fn(char) -> bool) -> (k: int)
    ensures
        0 <= k <= s.len(),
        strip_trail(s, p) == s.take(k),
    decreases s.len(),
{
    if s.len() > 0 && p(s.last()) {
        let k = lemma_strip_trail_prefix(s.drop_last(), p);
        assert(s.drop_last().take(k) =~= s.take(k));
        k
    } else {
        assert(s.take(s.len() as int) =~= s);
        s.len() as int
    }
}

/// Trimming keeps a contiguous run of the text: every character of the
/// result is one of the text's.
proof fn lemma_trim_within(s: Seq<char>)
    ensures
        forall|j: int|
            0 <= j < trim_spec(s).len() ==> exists|i: int| 0 <= i < s.len() && s[i] == #[trigger] trim_spec(s)[j],
{
    let a = lemma_strip_lead_suffix(s, ws_pred());
    let led = strip_lead(s, ws_pred());
    let b = lemma_strip_trail_prefix(led, ws_pred());
    assert forall|j: int| 0 <= j < trim_spec(s).len() implies exists|i: int|
        0 <= i < s.len() && s[i] == #[trigger] trim_spec(s)[j] by {
        assert(trim_spec(s)[j] == led[j]);
        assert(led[j] == s[a + j]);
    }
}

proof fn lemma_filter_keeps_all(s: Seq<char>)
    requires
        forall|i: int| 0 <= i < s.len() ==> !is_url_stripped(#[trigger] s[i]),
    ensures
        s.filter(url_kept()) == s,
    decreases s.len(),
{
    reveal(Seq::filter);
    if s.len() > 0 {
        lemma_filter_keeps_all(s.drop_last());
        assert(s.drop_last().push(s.last()) =~= s);
    } else {
        assert(s.filter(url_kept()) =~= s);
    }
}

proof fn lemma_skip_controls_suffix(s: Seq<char>) -> (k: int)
    ensures
        0 <= k <= s.len(),
        skip_controls(s) == s.skip(k),
        skip_controls(s).len() == 0 || skip_controls(s)[0] > ' ',
    decreases s.len(),
{
    if s.len() > 0 && s[0] <= ' ' {
        let k = lemma_skip_controls_suffix(s.drop_first());
        assert(s.drop_first().skip(k) =~= s.skip(k + 1));
        k + 1
    } else {
        assert(s.skip(0) =~= s);
        0
    }
}

/// Normalizing a URL the way the browser does is idempotent, so judging a
/// destination and judging its normalized form agree.
pub proof fn lemma_safe_url_normalized(url: Seq<char>)
    ensures
        spec_browser_normalized(spec_browser_normalized(url)) == spec_browser_normalized(url),
        spec_is_safe_url(spec_browser_normalized(url)) == spec_is_safe_url(url),
{
    let f = url.filter(url_kept());
    let n = spec_browser_normalized(url);
    let k = lemma_skip_controls_suffix(f);
    assert forall|i: int| 0 <= i < f.len() implies !is_url_stripped(#[trigger] f[i]) by {
        url.lemma_filter_pred(url_kept(), i);
    }
    assert forall|i: int| 0 <= i < n.len() implies !is_url_stripped(#[trigger] n[i]) by {
        assert(n[i] == f[k + i]);
    }
    lemma_filter_keeps_all(n);
    if n.len() > 0 {
        assert(n[0] > ' ');
    }
    assert(skip_controls(n) == n);
}

/// Consecutive failures decide first: once the newest attempts hold at
/// least `failure_threshold` failures in a row, the source is failing,
/// however recent or old (or absent) its last success.
pub proof fn lemma_failures_make_failing(
    cfg: Config,
    source: Seq<char>,
    recent: Seq<LogRow>,
    last_success: Option<LogRow>,
    now: i64,
)
    requires
        leading_failures(recent) >= cfg.failure_threshold,
    ensures
        spec_status(cfg, source, recent, last_success, now) == Health::Failing,
{
}

/// A source whose `show_history` is `false` gets no history bar on its web
/// panel, whatever its bands and readings.
pub proof fn lemma_history_off_draws_no_bar(
    p: Panel,
    cfg: Config,
    latest: Seq<ReadingRow>,
    health: Option<SourceHealth>,
    name: Seq<char>,
    title: Option<Seq<char>>,
    recent: Seq<ReadingRow>,
    has_bands: bool,
)
    requires
        find_source(cfg.sources@, name) matches Some(s) && src_show_history(s) == Some(false),
    ensures
        spec_history_points(cfg, name, has_bands) is None,
        web_panel_for(p, cfg, latest, health, name, title, recent) ==> p.history@.len() == 0,
{
}

/// A history bar needs bands and a known source that does not turn it off;
/// its length is the source's own `history_points`, else the
/// configuration's.
pub proof fn lemma_history_bar_length(cfg: Config, name: Seq<char>, has_bands: bool)
    ensures
        !has_bands ==> spec_history_points(cfg, name, has_bands) is None,
        find_source(cfg.sources@, name) is None ==> spec_history_points(cfg, name, has_bands) is None,
        find_source(cfg.sources@, name) matches Some(s) ==> (has_bands && src_show_history(s)
            != Some(false) ==> spec_history_points(cfg, name, has_bands) == Some(
            match src_history_points(s) {
                Some(n) => n,
                None => cfg.history_points,
            },
        )),
{
}

proof fn lemma_worst_at_least(colors: Seq<Level>, x: Level)
    requires
        colors.contains(x),
    ensures
        severity(x) <= severity(spec_worst_color(colors)),
{
}

/// A TUI pane's border is at least as severe as the status color of each
/// of its members (main, secondary and table alike); a failing member
/// turns it red.
pub proof fn lemma_border_covers_members(s: TuiSlot, now: i64, p: TuiPanel)
    requires
        s.text is None,
        s.main == Some(p) || s.secondary@.contains(p) || s.table@.contains(p),
    ensures
        match spec_panel_view(s, now).1 {
            Some(c) => severity(spec_status_color(p.level, p.status)) <= severity(c),
            None => spec_status_color(p.level, p.status) == Level::Green,
        },
        p.status == Health::Failing ==> spec_panel_view(s, now).1 == Some(Level::Red),
{
    if !(s.secondary@.len() == 0 && s.table@.len() == 0 && s.main.is_some()) {
        let mains: Seq<TuiPanel> = match s.main {
            Some(q) => seq![q],
            None => Seq::empty(),
        };
        let members = mains + s.secondary@ + s.table@;
        let f = |q: TuiPanel| spec_status_color(q.level, q.status);
        let colors = members.map_values(f);
        let k: int = if s.main == Some(p) {
            0
        } else if s.secondary@.contains(p) {
            let i = choose|i: int| 0 <= i < s.secondary@.len() && s.secondary@[i] == p;
            mains.len() + i
        } else {
            let i = choose|i: int| 0 <= i < s.table@.len() && s.table@[i] == p;
            mains.len() + s.secondary@.len() + i
        };
        assert(members[k] == p);
        assert(colors[k] == f(p));
        assert(colors.contains(f(p)));
        lemma_worst_at_least(colors, f(p));
    } else {
        assert(s.main == Some(p));
    }
}

proof fn lemma_worst_is_one_of(colors: Seq<Level>)
    ensures
        spec_worst_color(colors) == Level::Green || colors.contains(spec_worst_color(colors)),
{
}

/// A group pane's border is never worse than its worst member: it is green
/// or the status color of one of its members.
pub proof fn lemma_border_from_members(s: TuiSlot, now: i64)
    requires
        s.text is None,
        !(s.secondary@.len() == 0 && s.table@.len() == 0 && s.main.is_some()),
    ensures
        spec_panel_view(s, now).1 matches Some(c) && (c == Level::Green || exists|p: TuiPanel|
            (s.main == Some(p) || s.secondary@.contains(p) || s.table@.contains(p))
                && #[trigger] spec_status_color(p.level, p.status) == c),
{
    let mains: Seq<TuiPanel> = match s.main {
        Some(q) => seq![q],
        None => Seq::empty(),
    };
    let members = mains + s.secondary@ + s.table@;
    let f = |q: TuiPanel| spec_status_color(q.level, q.status);
    let colors = members.map_values(f);
    lemma_worst_is_one_of(colors);
    let c = spec_worst_color(colors);
    if c != Level::Green {
        let k = choose|k: int| 0 <= k < colors.len() && colors[k] == c;
        let p = members[k];
        assert(f(p) == c);
        if k < mains.len() {
            assert(s.main == Some(p));
        } else if k < mains.len() + s.secondary@.len() {
            assert(s.secondary@[k - mains.len()] == p);
            assert(s.secondary@.contains(p));
        } else {
            assert(s.table@[k - mains.len() - s.secondary@.len()] == p);
            assert(s.table@.contains(p));
        }
        assert(spec_status_color(p.level, p.status) == c);
    }
}

proof fn lemma_duplicate_found(srcs: Seq<SourceCfg>, st: Seq<CronStatus>, m: int, j: int)
    requires
        0 <= m <= j < srcs.len(),
        duplicate_before(srcs, j),
    ensures
        sources_problem(srcs, st, m).is_some(),
    decreases j - m,
{
    if !duplicate_before(srcs, m) {
        if m < j {
            lemma_duplicate_found(srcs, st, m + 1, j);
        }
    }
}

/// Two sources sharing a name make the configuration invalid, whatever
/// else it holds and whatever the cron checks found.
pub proof fn lemma_duplicate_names_refused(cfg: Config, st: Seq<CronStatus>, i: int, j: int)
    requires
        0 <= i < j < cfg.sources@.len(),
        src_name(cfg.sources@[i]) == src_name(cfg.sources@[j]),
    ensures
        config_problem(cfg, st).is_some(),
{
    assert(duplicate_before(cfg.sources@, j));
    lemma_duplicate_found(cfg.sources@, st, 0, j);
}

/// A pushed item that is accepted keeps its value text, and that value
/// converts to the source's type: a `bigint` source's trimmed value reads
/// as an `i64`, a `double` source's value reads as a number. It also never
/// carries a lone band.
pub proof fn lemma_accepted_ingest_converts(
    item: IngestItem,
    arrival: (int, Seq<char>),
    vt: ValueType,
    number: Option<Num>,
)
    requires
        spec_ingest_item(item, arrival, vt, number) is Ok,
    ensures
        spec_ingest_item(item, arrival, vt, number)->Ok_0.0 == ingest_text(item.value),
        vt == ValueType::Bigint ==> spec_parse_i64(trim_spec(ingest_text(item.value))) is Ok,
        vt == ValueType::Double ==> number is Some,
        item.thresholds matches Some(b) ==> b@.len() != 1,
{
}

} // verus!
