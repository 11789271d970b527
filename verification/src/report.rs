//! What the command-line reports decide: which rows a `--source` filter
//! keeps, and how a value is squeezed into one table cell.

use vstd::prelude::*;
use crate::config::Config;
use crate::config::source::SourceCfg;
use crate::config::layout::ValueFormat;
use crate::config::source::{find_source, find_source_index, src_format, src_unit};
use crate::collector::{PollOutcome, opt_str_view, spec_unpollable_reason, unpollable_reason};
use crate::db::{LogRow, ReadingRow};
use crate::outside::push_char;
use crate::text::{cat, chars_of, is_whitespace, is_ws, str_eq, string_of, trim_range, trim_spec};

verus! {

/// A row that names the source it belongs to.
pub trait Named {
    spec fn name_of(&self) -> Seq<char>;

    fn name(&self) -> (r: &str)
        ensures
            r@ == self.name_of(),
    ;
}

impl Named for ReadingRow {
    open spec fn name_of(&self) -> Seq<char> {
        self.source@
    }

    fn name(&self) -> (r: &str) {
        self.source.as_str()
    }
}

impl Named for LogRow {
    open spec fn name_of(&self) -> Seq<char> {
        self.source@
    }

    fn name(&self) -> (r: &str) {
        self.source.as_str()
    }
}

/// Whether one of `sources` is `name`.
pub open spec fn names_contain(sources: Seq<String>, name: Seq<char>) -> bool {
    exists|i: int| 0 <= i < sources.len() && (#[trigger] sources[i])@ == name
}

fn any_named(sources: &[String], name: &str) -> (r: bool)
    ensures
        r == names_contain(sources@, name@),
{
    let mut i: usize = 0;
    while i < sources.len()
        invariant
            i <= sources@.len(),
            forall|k: int| 0 <= k < i ==> (#[trigger] sources@[k])@ != name@,
        decreases sources.len() - i,
    {
        if str_eq(sources[i].as_str(), name) {
            return true;
        }
        i = i + 1;
    }
    false
}

/// The `--source` filter: every row when no source is named, else the rows
/// of the named sources, in their order.
pub fn filter_named<T: Named>(rows: Vec<T>, sources: &[String]) -> (out: Vec<T>)
    ensures
        sources@.len() == 0 ==> out@ == rows@,
        sources@.len() > 0 ==> out@ == rows@.filter(|r: T| names_contain(sources@, r.name_of())),
{
    if sources.len() == 0 {
        return rows;
    }
    let ghost keep = |r: T| names_contain(sources@, r.name_of());
    let mut out: Vec<T> = Vec::new();
    let ghost mut i: int = 0;
    for row in it: rows
        invariant
            it.seq() == rows@,
            i == it.index(),
            out@ == rows@.take(i).filter(keep),
            keep == (|r: T| names_contain(sources@, r.name_of())),
    {
        proof {
            assert(rows@.take(i + 1).drop_last() =~= rows@.take(i));
            assert(rows@[i] == row);
            reveal(Seq::filter);
        }
        if any_named(sources, row.name()) {
            out.push(row);
        }
        proof {
            i = i + 1;
        }
    }
    proof {
        assert(rows@.take(i) =~= rows@);
    }
    out
}

/// Whether the source named `name` renders its value as markdown: such a
/// value is prose, set aside from the fixed-width table.
pub fn is_text_source(cfg: &Config, name: &str) -> (r: bool)
    ensures
        r == (match find_source(cfg.sources@, name@) {
            Some(s) => src_format(s) == Some(ValueFormat::Markdown),
            None => false,
        }),
{
    match find_source_index(&cfg.sources, name) {
        Some(i) => match cfg.sources[i].format() {
            Some(ValueFormat::Markdown) => true,
            _ => false,
        },
        None => false,
    }
}

/// `s.chars().take(n)`.
pub open spec fn take_chars(s: Seq<char>, n: int) -> Seq<char> {
    if n < s.len() {
        s.take(n)
    } else {
        s
    }
}

/// The first `n` characters of `s`.
pub fn truncate(s: &str, n: usize) -> (r: String)
    ensures
        r@ == take_chars(s@, n as int),
{
    let v = chars_of(s);
    let hi = if n < v.len() {
        n
    } else {
        v.len()
    };
    let r = string_of(&v, 0, hi);
    assert(v@.subrange(0, hi as int) =~= take_chars(s@, n as int));
    r
}

/// Index of the first newline in `s`, or its length.
pub open spec fn first_newline(s: Seq<char>) -> int {
    if exists|i: int| 0 <= i < s.len() && s[i] == '\n' {
        choose|i: int|
            0 <= i < s.len() && s[i] == '\n' && forall|j: int| 0 <= j < i ==> s[j] != '\n'
    } else {
        s.len() as int
    }
}

/// A value as one table cell: its first line, trimmed and cut to sixty
/// characters, marked with `…` when anything was left out (more of that
/// line, or further lines).
pub open spec fn spec_one_line(s: Seq<char>) -> Seq<char> {
    let p = first_newline(s);
    let first = trim_spec(s.subrange(0, p));
    let cut = take_chars(first, 60);
    if first.len() > 60 || p + 1 < s.len() {
        cut + "…"@
    } else {
        cut
    }
}

fn newline_index(v: &Vec<char>) -> (p: usize)
    ensures
        p == first_newline(v@),
        p <= v@.len(),
{
    let mut i: usize = 0;
    while i < v.len() && v[i] != '\n'
        invariant
            i <= v@.len(),
            forall|j: int| 0 <= j < i ==> v@[j] != '\n',
        decreases v.len() - i,
    {
        i = i + 1;
    }
    proof {
        if i < v@.len() {
            let c = choose|k: int|
                0 <= k < v@.len() && v@[k] == '\n' && forall|j: int| 0 <= j < k ==> v@[j] != '\n';
            assert(0 <= c < v@.len() && v@[c] == '\n' && forall|j: int| 0 <= j < c ==> v@[j] != '\n');
            if c < i {
                assert(v@[c] != '\n');
            }
            if i < c {
                assert(v@[i as int] != '\n');
            }
        }
    }
    i
}

pub fn one_line(value: &str) -> (r: String)
    ensures
        r@ == spec_one_line(value@),
{
    let v = chars_of(value);
    let p = newline_index(&v);
    let head = string_of(&v, 0, p);
    let hv = chars_of(head.as_str());
    let (lo, hi) = trim_range(&hv);
    let first_len = hi - lo;
    let cut_hi = if first_len > 60 {
        lo + 60
    } else {
        hi
    };
    let mut r = string_of(&hv, lo, cut_hi);
    let ghost first = trim_spec(value@.subrange(0, p as int));
    assert(hv@.subrange(lo as int, cut_hi as int) =~= take_chars(first, 60));
    if first_len > 60 || v.len() - p > 1 {
        proof {
            reveal_strlit("…");
        }
        cat(&mut r, "…");
    }
    r
}

/// Whitespace runs collapsed to single spaces and dropped at both ends
/// (`split_whitespace` joined by spaces), scanning from `i`: `started` once
/// a word has been written, `gap` when whitespace followed it.
pub open spec fn collapse_from(s: Seq<char>, i: int, started: bool, gap: bool) -> Seq<char>
    decreases s.len() - i,
{
    if i < 0 || i >= s.len() {
        Seq::empty()
    } else if is_ws(s[i]) {
        collapse_from(s, i + 1, started, true)
    } else {
        (if started && gap {
            seq![' ', s[i]]
        } else {
            seq![s[i]]
        }) + collapse_from(s, i + 1, true, false)
    }
}

pub open spec fn collapse_ws(s: Seq<char>) -> Seq<char> {
    collapse_from(s, 0, false, false)
}

/// A value for the `latest` table: whitespace collapsed, and cut to
/// thirty-nine characters plus `…` when longer than forty.
pub open spec fn spec_short_value(s: Seq<char>) -> Seq<char> {
    let c = collapse_ws(s);
    if c.len() > 40 {
        c.take(39) + "…"@
    } else {
        c
    }
}

fn collapse(v: &Vec<char>) -> (r: Vec<char>)
    ensures
        r@ == collapse_ws(v@),
{
    let mut out: Vec<char> = Vec::new();
    let mut started = false;
    let mut gap = false;
    let mut i: usize = 0;
    while i < v.len()
        invariant
            i <= v@.len(),
            out@ + collapse_from(v@, i as int, started, gap) == collapse_ws(v@),
        decreases v.len() - i,
    {
        let c = v[i];
        if is_whitespace(c) {
            gap = true;
        } else {
            let ghost before = out@;
            if started && gap {
                out.push(' ');
            }
            out.push(c);
            proof {
                let piece = if started && gap {
                    seq![' ', c]
                } else {
                    seq![c]
                };
                assert(out@ =~= before + piece);
                assert(before + (piece + collapse_from(v@, i + 1, true, false)) =~= out@
                    + collapse_from(v@, i + 1, true, false));
            }
            started = true;
            gap = false;
        }
        i = i + 1;
    }
    assert(out@ + Seq::<char>::empty() =~= out@);
    out
}

pub fn short_value(value: &str) -> (r: String)
    ensures
        r@ == spec_short_value(value@),
{
    let v = chars_of(value);
    let c = collapse(&v);
    if c.len() > 40 {
        let mut r = string_of(&c, 0, 39);
        proof {
            reveal_strlit("…");
        }
        cat(&mut r, "…");
        r
    } else {
        string_of(&c, 0, c.len())
    }
}

/// The sources a forced poll of `names` runs, checked before any of them
/// runs: the first unknown or unpollable name refuses the whole poll.
pub open spec fn spec_poll_targets(cfg: Config, names: Seq<String>) -> Result<Seq<SourceCfg>, Seq<char>>
    decreases names.len(),
{
    if names.len() == 0 {
        Ok(Seq::empty())
    } else {
        match spec_poll_targets(cfg, names.drop_last()) {
            Err(e) => Err(e),
            Ok(t) => {
                let n = names.last()@;
                match find_source(cfg.sources@, n) {
                    None => Err("unknown source `"@ + n + "`"@),
                    Some(s) => match spec_unpollable_reason(s) {
                        Some(why) => Err("source `"@ + n + "` "@ + why),
                        None => Ok(t.push(s)),
                    },
                }
            },
        }
    }
}

proof fn lemma_targets_err_sticks(cfg: Config, names: Seq<String>, i: int)
    requires
        0 <= i <= names.len(),
        spec_poll_targets(cfg, names.take(i)) is Err,
    ensures
        spec_poll_targets(cfg, names) == spec_poll_targets(cfg, names.take(i)),
    decreases names.len() - i,
{
    if i < names.len() {
        assert(names.take(i + 1).drop_last() =~= names.take(i));
        lemma_targets_err_sticks(cfg, names, i + 1);
    } else {
        assert(names.take(i) =~= names);
    }
}

/// Indices of the sources a forced poll of `names` runs, in order.
pub fn poll_targets(cfg: &Config, names: &[String]) -> (r: Result<Vec<usize>, String>)
    ensures
        match (r, spec_poll_targets(*cfg, names@)) {
            (Ok(v), Ok(t)) => v@.len() == t.len() && forall|k: int|
                0 <= k < t.len() ==> (#[trigger] v@[k]) < cfg.sources@.len() && cfg.sources@[v@[k] as int] == t[k],
            (Err(e), Err(t)) => e@ == t,
            _ => false,
        },
{
    proof {
        reveal_strlit("unknown source `");
        reveal_strlit("`");
        reveal_strlit("source `");
        reveal_strlit("` ");
    }
    let mut out: Vec<usize> = Vec::new();
    let mut i: usize = 0;
    assert(names@.take(0) =~= Seq::<String>::empty());
    while i < names.len()
        invariant
            i <= names@.len(),
            spec_poll_targets(*cfg, names@.take(i as int)) matches Ok(t) && out@.len() == t.len()
                && forall|k: int|
                0 <= k < t.len() ==> (#[trigger] out@[k]) < cfg.sources@.len() && cfg.sources@[out@[k] as int] == t[k],
        decreases names.len() - i,
    {
        assert(names@.take(i + 1).drop_last() =~= names@.take(i as int));
        assert(names@.take(i + 1).last() == names@[i as int]);
        let name = names[i].as_str();
        match find_source_index(&cfg.sources, name) {
            None => {
                let mut m = "unknown source `".to_owned();
                cat(&mut m, name);
                cat(&mut m, "`");
                proof {
                    lemma_targets_err_sticks(*cfg, names@, i + 1);
                }
                return Err(m);
            },
            Some(j) => match unpollable_reason(&cfg.sources[j]) {
                Some(why) => {
                    let mut m = "source `".to_owned();
                    cat(&mut m, name);
                    cat(&mut m, "` ");
                    cat(&mut m, why);
                    proof {
                        lemma_targets_err_sticks(*cfg, names@, i + 1);
                    }
                    return Err(m);
                },
                None => {
                    out.push(j);
                },
            },
        }
        i = i + 1;
    }
    assert(names@.take(i as int) =~= names@);
    Ok(out)
}

/// Splits rows into scalar rows and text (markdown) rows, each in order;
/// with `exclude_text` the text rows are dropped.
pub fn split_text_rows(cfg: &Config, rows: Vec<ReadingRow>, exclude_text: bool) -> (r: (
    Vec<ReadingRow>,
    Vec<ReadingRow>,
))
    ensures
        r.0@ == rows@.filter(|x: ReadingRow| !text_source_spec(*cfg, x.source@)),
        exclude_text ==> r.1@.len() == 0,
        !exclude_text ==> r.1@ == rows@.filter(|x: ReadingRow| text_source_spec(*cfg, x.source@)),
{
    let ghost keep = |x: ReadingRow| !text_source_spec(*cfg, x.source@);
    let ghost is_text = |x: ReadingRow| text_source_spec(*cfg, x.source@);
    let mut values: Vec<ReadingRow> = Vec::new();
    let mut text: Vec<ReadingRow> = Vec::new();
    let ghost mut i: int = 0;
    for row in it: rows
        invariant
            it.seq() == rows@,
            i == it.index(),
            keep == (|x: ReadingRow| !text_source_spec(*cfg, x.source@)),
            is_text == (|x: ReadingRow| text_source_spec(*cfg, x.source@)),
            values@ == rows@.take(i).filter(keep),
            text@ == rows@.take(i).filter(is_text),
    {
        proof {
            assert(rows@.take(i + 1).drop_last() =~= rows@.take(i));
            assert(rows@[i] == row);
            reveal(Seq::filter);
        }
        if is_text_source(cfg, row.source.as_str()) {
            text.push(row);
        } else {
            values.push(row);
        }
        proof {
            i = i + 1;
        }
    }
    proof {
        assert(rows@.take(i) =~= rows@);
    }
    if exclude_text {
        text = Vec::new();
    }
    (values, text)
}

/// Whether the source named `name` renders as markdown.
pub open spec fn text_source_spec(cfg: Config, name: Seq<char>) -> bool {
    match find_source(cfg.sources@, name) {
        Some(s) => src_format(s) == Some(ValueFormat::Markdown),
        None => false,
    }
}

/// Fills each log row's unit from its source's declaration (none for an
/// unknown source).
pub fn fill_units(cfg: &Config, rows: &mut Vec<LogRow>)
    ensures
        final(rows)@.len() == old(rows)@.len(),
        forall|k: int|
            0 <= k < old(rows)@.len() ==> {
                let a = #[trigger] final(rows)@[k];
                let b = old(rows)@[k];
                &&& a.source == b.source && a.ts_ms == b.ts_ms && a.ts == b.ts
                &&& a.duration_ms == b.duration_ms && a.error == b.error && a.value == b.value
                &&& a.origin == b.origin
                &&& opt_str_view(a.unit) == (match find_source(cfg.sources@, b.source@) {
                    Some(s) => src_unit(s),
                    None => None,
                })
            },
{
    let mut i: usize = 0;
    while i < rows.len()
        invariant
            i <= rows@.len(),
            rows@.len() == old(rows)@.len(),
            forall|k: int|
                i <= k < rows@.len() ==> #[trigger] rows@[k] == old(rows)@[k],
            forall|k: int|
                0 <= k < i ==> {
                    let a = #[trigger] rows@[k];
                    let b = old(rows)@[k];
                    &&& a.source == b.source && a.ts_ms == b.ts_ms && a.ts == b.ts
                    &&& a.duration_ms == b.duration_ms && a.error == b.error && a.value == b.value
                    &&& a.origin == b.origin
                    &&& opt_str_view(a.unit) == (match find_source(cfg.sources@, b.source@) {
                        Some(s) => src_unit(s),
                        None => None,
                    })
                },
        decreases rows.len() - i,
    {
        let unit: Option<String> = match find_source_index(&cfg.sources, rows[i].source.as_str()) {
            Some(j) => match cfg.sources[j].unit() {
                Some(u) => Some(u.to_owned()),
                None => None,
            },
            None => None,
        };
        let mut row = rows[i].clone_row();
        row.unit = unit;
        rows.set(i, row);
        i = i + 1;
    }
}

/// The first failed poll, reported as the command's error.
pub open spec fn spec_poll_failure(outcomes: Seq<PollOutcome>) -> Option<Seq<char>>
    decreases outcomes.len(),
{
    if outcomes.len() == 0 {
        None
    } else if !outcomes[0].success {
        Some(
            "poll failed for `"@ + outcomes[0].source@ + "`: "@ + (match opt_str_view(outcomes[0].error) {
                Some(e) => e,
                None => "unknown error"@,
            }),
        )
    } else {
        spec_poll_failure(outcomes.drop_first())
    }
}

pub fn poll_failure(outcomes: &[PollOutcome]) -> (r: Option<String>)
    ensures
        opt_str_view(r) == spec_poll_failure(outcomes@),
{
    proof {
        reveal_strlit("poll failed for `");
        reveal_strlit("`: ");
        reveal_strlit("unknown error");
    }
    let mut i: usize = 0;
    assert(outcomes@.skip(0) =~= outcomes@);
    while i < outcomes.len()
        invariant
            i <= outcomes@.len(),
            spec_poll_failure(outcomes@.skip(i as int)) == spec_poll_failure(outcomes@),
        decreases outcomes.len() - i,
    {
        assert(outcomes@.skip(i as int).drop_first() =~= outcomes@.skip(i + 1));
        assert(outcomes@.skip(i as int)[0] == outcomes@[i as int]);
        let o = &outcomes[i];
        if !o.success {
            let mut m = "poll failed for `".to_owned();
            cat(&mut m, o.source.as_str());
            cat(&mut m, "`: ");
            match &o.error {
                Some(e) => cat(&mut m, e.as_str()),
                None => cat(&mut m, "unknown error"),
            }
            return Some(m);
        }
        i = i + 1;
    }
    None
}

} // verus!
