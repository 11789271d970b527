//! Layout declarations: grid rows of [`Cell`]s, and the value-rendering
//! format shared by a text cell and a source's `format`.

use vstd::prelude::*;
use crate::config::error::ConfigError;
use crate::config::source::{GroupItem, group_item_id};
use crate::text::str_eq;

verus! {

/// How a value is rendered in the web UI.
#[derive(Debug, Clone, Copy, PartialEq, Eq, Structural)]
pub enum ValueFormat {
    Text,
    Markdown,
}

impl ValueFormat {
    /// The default format, plain text.
    pub fn default_format() -> (r: ValueFormat)
        ensures
            r == ValueFormat::Text,
    {
        ValueFormat::Text
    }

    /// Parses a format name: `text` or `markdown`.
    pub fn parse(s: &str) -> (r: Result<ValueFormat, ConfigError>)
        ensures
            s@ == "text"@ ==> r == Ok::<ValueFormat, ConfigError>(ValueFormat::Text),
            s@ == "markdown"@ ==> r == Ok::<ValueFormat, ConfigError>(ValueFormat::Markdown),
            s@ != "text"@ && s@ != "markdown"@ ==> (r matches Err(ConfigError::UnknownFormat(f))
                && f@ == s@),
    {
        proof {
            reveal_strlit("text");
            reveal_strlit("markdown");
            assert("text"@.len() != "markdown"@.len());
        }
        if str_eq(s, "text") {
            Ok(ValueFormat::Text)
        } else if str_eq(s, "markdown") {
            Ok(ValueFormat::Markdown)
        } else {
            Err(ConfigError::UnknownFormat(s.to_owned()))
        }
    }
}

/// TUI content width: `"auto"` or a fixed column count.
#[derive(Debug, Clone, PartialEq, Eq)]
pub enum TuiWidth {
    Named(String),
    Fixed(u16),
}

/// One grid cell in a layout row.
#[derive(Debug, Clone)]
pub enum Cell {
    Source(String),
    Pane { id: String, title: Option<String> },
    Space { kind: String, colspan: Option<usize> },
    Text { title: Option<String>, format: Option<String>, text: String },
    Group {
        title: Option<String>,
        main: Option<GroupItem>,
        secondary: Vec<GroupItem>,
        table: Vec<GroupItem>,
    },
}

pub open spec fn items_ids(items: Seq<GroupItem>) -> Seq<Seq<char>> {
    items.map_values(|it: GroupItem| group_item_id(it))
}

pub open spec fn opt_item_ids(item: Option<GroupItem>) -> Seq<Seq<char>> {
    match item {
        Some(it) => seq![group_item_id(it)],
        None => Seq::empty(),
    }
}

/// Every source a cell references, in order: one for a source or pane cell,
/// `main` then `secondary` then `table` for a group, none otherwise.
pub open spec fn cell_source_names(c: Cell) -> Seq<Seq<char>> {
    match c {
        Cell::Source(name) => seq![name@],
        Cell::Pane { id, .. } => seq![id@],
        Cell::Group { main, secondary, table, .. } => opt_item_ids(main) + items_ids(secondary@)
            + items_ids(table@),
        _ => Seq::empty(),
    }
}

/// Columns a cell occupies: a space cell's `colspan` (default 1), else 1.
pub open spec fn cell_span(c: Cell) -> nat {
    match c {
        Cell::Space { colspan, .. } => match colspan {
            Some(n) => n as nat,
            None => 1,
        },
        _ => 1,
    }
}

pub open spec fn cell_title(c: Cell) -> Option<Seq<char>> {
    match c {
        Cell::Pane { title, .. } => match title {
            Some(t) => Some(t@),
            None => None,
        },
        Cell::Group { title, .. } => match title {
            Some(t) => Some(t@),
            None => None,
        },
        Cell::Text { title, .. } => match title {
            Some(t) => Some(t@),
            None => None,
        },
        _ => None,
    }
}

pub open spec fn strs_view(v: Seq<&str>) -> Seq<Seq<char>> {
    v.map_values(|s: &str| s@)
}

fn push_item_ids<'a>(out: &mut Vec<&'a str>, items: &'a Vec<GroupItem>)
    ensures
        strs_view(final(out)@) == strs_view(old(out)@) + items_ids(items@),
{
    let ghost start = strs_view(out@);
    let mut i: usize = 0;
    while i < items.len()
        invariant
            i <= items@.len(),
            strs_view(out@) == start + items_ids(items@.take(i as int)),
        decreases items.len() - i,
    {
        let ghost prev = out@;
        out.push(items[i].id());
        assert(items@.take(i + 1) =~= items@.take(i as int).push(items@[i as int]));
        assert(items_ids(items@.take(i + 1)) =~= items_ids(items@.take(i as int)).push(
            group_item_id(items@[i as int]),
        ));
        assert(strs_view(out@) =~= strs_view(prev).push(group_item_id(items@[i as int])));
        assert(strs_view(out@) =~= start + items_ids(items@.take(i + 1)));
        i = i + 1;
    }
    assert(items@.take(items@.len() as int) =~= items@);
}

impl Cell {
    /// Every source this cell references.
    pub fn source_names(&self) -> (r: Vec<&str>)
        ensures
            strs_view(r@) == cell_source_names(*self),
    {
        match self {
            Cell::Source(name) => {
                let mut v: Vec<&str> = Vec::new();
                v.push(name.as_str());
                assert(strs_view(v@) =~= seq![name@]);
                v
            },
            Cell::Pane { id, .. } => {
                let mut v: Vec<&str> = Vec::new();
                v.push(id.as_str());
                assert(strs_view(v@) =~= seq![id@]);
                v
            },
            Cell::Group { main, secondary, table, .. } => {
                let mut v: Vec<&str> = Vec::new();
                match main {
                    Some(it) => {
                        v.push(it.id());
                    },
                    None => {},
                }
                assert(strs_view(v@) =~= opt_item_ids(*main));
                push_item_ids(&mut v, secondary);
                push_item_ids(&mut v, table);
                assert(strs_view(v@) =~= cell_source_names(*self));
                v
            },
            _ => {
                let v: Vec<&str> = Vec::new();
                assert(strs_view(v@) =~= Seq::<Seq<char>>::empty());
                v
            },
        }
    }

    pub fn span(&self) -> (r: usize)
        ensures
            r == cell_span(*self),
    {
        match self {
            Cell::Space { colspan, .. } => match colspan {
                Some(n) => *n,
                None => 1,
            },
            _ => 1,
        }
    }

    pub fn pane_title(&self) -> (r: Option<&str>)
        ensures
            r.is_some() == cell_title(*self).is_some(),
            r matches Some(t) ==> cell_title(*self) == Some(t@),
    {
        match self {
            Cell::Pane { title, .. } => match title {
                Some(t) => Some(t.as_str()),
                None => None,
            },
            Cell::Group { title, .. } => match title {
                Some(t) => Some(t.as_str()),
                None => None,
            },
            Cell::Text { title, .. } => match title {
                Some(t) => Some(t.as_str()),
                None => None,
            },
            _ => None,
        }
    }
}

/// One declared layout: a title and its grid rows.
#[derive(Debug, Clone)]
pub struct LayoutCfg {
    pub title: String,
    pub rows: Vec<Vec<Cell>>,
}

/// Columns one row occupies: the sum of its cells' spans.
pub open spec fn row_width(row: Seq<Cell>) -> nat
    decreases row.len(),
{
    if row.len() == 0 {
        0
    } else {
        row_width(row.drop_last()) + cell_span(row.last())
    }
}

pub open spec fn rows_of(l: LayoutCfg) -> Seq<Seq<Cell>> {
    l.rows@.map_values(|r: Vec<Cell>| r@)
}

/// The widest row of the first `n` rows (0 when there are none).
pub open spec fn max_width(rows: Seq<Seq<Cell>>) -> nat
    decreases rows.len(),
{
    if rows.len() == 0 {
        0
    } else {
        let w = row_width(rows.last());
        let m = max_width(rows.drop_last());
        if w > m { w } else { m }
    }
}

/// A layout's column count: its widest row.
pub open spec fn layout_columns(l: LayoutCfg) -> nat {
    max_width(rows_of(l))
}

/// Every row's width fits in a `usize` (summing spans cannot overflow).
pub open spec fn layout_widths_fit(l: LayoutCfg) -> bool {
    forall|i: int| 0 <= i < l.rows@.len() ==> row_width(#[trigger] l.rows@[i]@) <= usize::MAX
}

pub proof fn lemma_row_width_prefix(row: Seq<Cell>, i: int)
    requires
        0 <= i <= row.len(),
    ensures
        row_width(row.take(i)) <= row_width(row),
    decreases row.len() - i,
{
    if i < row.len() {
        lemma_row_width_prefix(row, i + 1);
        assert(row.take(i + 1).drop_last() =~= row.take(i));
    } else {
        assert(row.take(i) =~= row);
    }
}

fn row_span_sum(row: &Vec<Cell>) -> (r: usize)
    requires
        row_width(row@) <= usize::MAX,
    ensures
        r == row_width(row@),
{
    let mut sum: usize = 0;
    let mut i: usize = 0;
    while i < row.len()
        invariant
            i <= row@.len(),
            row_width(row@) <= usize::MAX,
            sum == row_width(row@.take(i as int)),
        decreases row.len() - i,
    {
        proof {
            lemma_row_width_prefix(row@, i + 1);
            assert(row@.take(i + 1).drop_last() =~= row@.take(i as int));
        }
        sum = sum + row[i].span();
        i = i + 1;
    }
    assert(row@.take(row@.len() as int) =~= row@);
    sum
}

impl LayoutCfg {
    /// Column count = widest row (cells weighted by colspan).
    pub fn columns(&self) -> (r: usize)
        requires
            layout_widths_fit(*self),
        ensures
            r == layout_columns(*self),
    {
        let mut best: usize = 0;
        let mut i: usize = 0;
        while i < self.rows.len()
            invariant
                i <= self.rows@.len(),
                layout_widths_fit(*self),
                best == max_width(rows_of(*self).take(i as int)),
            decreases self.rows.len() - i,
        {
            let w = row_span_sum(&self.rows[i]);
            assert(rows_of(*self).take(i + 1).drop_last() =~= rows_of(*self).take(i as int));
            if w > best {
                best = w;
            }
            i = i + 1;
        }
        assert(rows_of(*self).take(self.rows@.len() as int) =~= rows_of(*self));
        best
    }

    /// Every source referenced anywhere in the layout, row by row.
    pub fn source_names(&self) -> (r: Vec<&str>)
        ensures
            strs_view(r@) == layout_source_names(*self),
    {
        let mut out: Vec<&str> = Vec::new();
        let mut i: usize = 0;
        while i < self.rows.len()
            invariant
                i <= self.rows@.len(),
                strs_view(out@) == names_of_rows(rows_of(*self).take(i as int)),
            decreases self.rows.len() - i,
        {
            let row = &self.rows[i];
            let ghost before = strs_view(out@);
            let mut j: usize = 0;
            while j < row.len()
                invariant
                    j <= row@.len(),
                    row@ == rows_of(*self)[i as int],
                    strs_view(out@) == before + names_of_cells(row@.take(j as int)),
                decreases row.len() - j,
            {
                let names = row[j].source_names();
                let ghost mid = strs_view(out@);
                let mut k: usize = 0;
                while k < names.len()
                    invariant
                        k <= names@.len(),
                        strs_view(out@) == mid + strs_view(names@.take(k as int)),
                    decreases names.len() - k,
                {
                    let ghost prev = out@;
                    out.push(names[k]);
                    assert(strs_view(out@) =~= strs_view(prev).push(names@[k as int]@));
                    assert(strs_view(names@.take(k + 1)) =~= strs_view(names@.take(k as int)).push(
                        names@[k as int]@));
                    assert(strs_view(out@) =~= mid + strs_view(names@.take(k + 1)));
                    k = k + 1;
                }
                assert(names@.take(names@.len() as int) =~= names@);
                assert(row@.take(j + 1).drop_last() =~= row@.take(j as int));
                assert(strs_view(out@) =~= before + names_of_cells(row@.take(j + 1)));
                j = j + 1;
            }
            assert(row@.take(row@.len() as int) =~= row@);
            assert(rows_of(*self).take(i + 1).drop_last() =~= rows_of(*self).take(i as int));
            assert(strs_view(out@) =~= names_of_rows(rows_of(*self).take(i + 1)));
            i = i + 1;
        }
        assert(rows_of(*self).take(self.rows@.len() as int) =~= rows_of(*self));
        out
    }
}

pub open spec fn names_of_cells(cells: Seq<Cell>) -> Seq<Seq<char>>
    decreases cells.len(),
{
    if cells.len() == 0 {
        Seq::empty()
    } else {
        names_of_cells(cells.drop_last()) + cell_source_names(cells.last())
    }
}

pub open spec fn names_of_rows(rows: Seq<Seq<Cell>>) -> Seq<Seq<char>>
    decreases rows.len(),
{
    if rows.len() == 0 {
        Seq::empty()
    } else {
        names_of_rows(rows.drop_last()) + names_of_cells(rows.last())
    }
}

/// Every source a layout references, row by row and cell by cell.
pub open spec fn layout_source_names(l: LayoutCfg) -> Seq<Seq<char>> {
    names_of_rows(rows_of(l))
}

} // verus!
