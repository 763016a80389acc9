//! The table of a query result: its column headers, its cells, and which
//! columns fit on screen.

use vstd::prelude::*;
use vstd::string::StringExecFns;

use crate::row::{ResultRow, has_entry_key, lemma_entries_map_dom};
use crate::text::{
    lemma_seq_less_asymmetric, lemma_seq_less_irreflexive, lemma_seq_less_total,
    lemma_seq_less_transitive, seq_less, string_less,
};
pub use crate::value::format_db_value;
use crate::value::{spec_format_db_value, views};

verus! {

/// Every column name that occurs in some row.
pub open spec fn key_set(items: Seq<ResultRow>) -> Set<Seq<char>> {
    Set::new(|k: Seq<char>| exists|i: int| 0 <= i < items.len() && #[trigger] items[i]@.contains_key(k))
}

/// Each element comes strictly before the next ones.
pub open spec fn strictly_sorted(h: Seq<Seq<char>>) -> bool {
    forall|i: int, j: int| 0 <= i < j < h.len() ==> seq_less(#[trigger] h[i], #[trigger] h[j])
}

/// `h` lists the column names of `items` in increasing order, each once.
pub open spec fn is_header_list(h: Seq<Seq<char>>, items: Seq<ResultRow>) -> bool {
    &&& strictly_sorted(h)
    &&& forall|k: Seq<char>| h.contains(k) <==> #[trigger] key_set(items).contains(k)
}

/// The column names of `items`, in increasing order, each once (the order
/// in which a `BTreeSet<String>` yields them).
pub open spec fn sorted_keys(items: Seq<ResultRow>) -> Seq<Seq<char>> {
    choose|h: Seq<Seq<char>>| is_header_list(h, items)
}

/// Two strictly sorted sequences with the same elements are equal.
pub proof fn lemma_strictly_sorted_unique(a: Seq<Seq<char>>, b: Seq<Seq<char>>)
    requires
        strictly_sorted(a),
        strictly_sorted(b),
        forall|k: Seq<char>| a.contains(k) <==> b.contains(k),
    ensures
        a == b,
    decreases a.len() + b.len(),
{
    if a.len() == 0 {
        if b.len() > 0 {
            assert(b.contains(b[0]));
        }
        assert(a =~= b);
    } else if b.len() == 0 {
        assert(a.contains(a[0]));
    } else {
        // the first elements are both the least element
        if a[0] != b[0] {
            assert(a.contains(a[0]));
            let j = choose|j: int| 0 <= j < b.len() && b[j] == a[0];
            assert(b.contains(b[0]));
            let i = choose|i: int| 0 <= i < a.len() && a[i] == b[0];
            assert(j > 0);
            assert(i > 0);
            assert(seq_less(b[0], b[j]));
            assert(seq_less(a[0], a[i]));
            lemma_seq_less_asymmetric(a[0], b[0]);
            assert(false);
        }
        let a1 = a.drop_first();
        let b1 = b.drop_first();
        assert forall|k: Seq<char>| a1.contains(k) <==> b1.contains(k) by {
            if a1.contains(k) {
                let i = choose|i: int| 0 <= i < a1.len() && a1[i] == k;
                assert(a[i + 1] == k);
                assert(seq_less(a[0], a[i + 1]));
                lemma_seq_less_irreflexive(k);
                assert(a.contains(k));
                let j = choose|j: int| 0 <= j < b.len() && b[j] == k;
                assert(j != 0);
                assert(b1[j - 1] == k);
            }
            if b1.contains(k) {
                let j = choose|j: int| 0 <= j < b1.len() && b1[j] == k;
                assert(b[j + 1] == k);
                assert(seq_less(b[0], b[j + 1]));
                lemma_seq_less_irreflexive(k);
                assert(b.contains(k));
                let i = choose|i: int| 0 <= i < a.len() && a[i] == k;
                assert(i != 0);
                assert(a1[i - 1] == k);
            }
        }
        lemma_strictly_sorted_unique(a1, b1);
        assert(a =~= seq![a[0]] + a1);
        assert(b =~= seq![b[0]] + b1);
    }
}

/// A header list, when one exists, is `sorted_keys`.
pub proof fn lemma_sorted_keys(h: Seq<Seq<char>>, items: Seq<ResultRow>)
    requires
        is_header_list(h, items),
    ensures
        sorted_keys(items) == h,
{
    let s = sorted_keys(items);
    assert(is_header_list(s, items));
    assert forall|k: Seq<char>| s.contains(k) <==> h.contains(k) by {
        assert(s.contains(k) <==> key_set(items).contains(k));
        assert(h.contains(k) <==> key_set(items).contains(k));
    }
    lemma_strictly_sorted_unique(s, h);
}

/// Adds `key` to a strictly sorted list of names, keeping it strictly sorted.
fn insert_column(hs: &mut Vec<String>, key: &String)
    requires
        strictly_sorted(views(old(hs)@)),
    ensures
        strictly_sorted(views(final(hs)@)),
        forall|k: Seq<char>|
            #[trigger] views(final(hs)@).contains(k) <==> (views(old(hs)@).contains(k) || k
                == key@),
{
    let ghost old_v = views(hs@);
    let mut p: usize = 0;
    while p < hs.len() && string_less(hs[p].as_str(), key.as_str())
        invariant
            p <= hs@.len(),
            views(hs@) == old_v,
            strictly_sorted(old_v),
            forall|j: int| 0 <= j < p ==> seq_less(#[trigger] old_v[j], key@),
        decreases hs.len() - p,
    {
        p += 1;
    }
    if p < hs.len() && hs[p] == *key {
        assert(old_v.contains(key@)) by {
            assert(old_v[p as int] == key@);
        }
        return;
    }
    proof {
        if p < old_v.len() {
            lemma_seq_less_total(old_v[p as int], key@);
        }
    }
    hs.insert(p, key.clone());
    let ghost new_v = views(hs@);
    assert(new_v =~= old_v.insert(p as int, key@));
    assert forall|i: int, j: int| 0 <= i < j < new_v.len() implies seq_less(
        #[trigger] new_v[i],
        #[trigger] new_v[j],
    ) by {
        if j < p {
        } else if j == p {
        } else if i < p {
            // old_v[i] < key < old_v[p] <= old_v[j - 1]
            if j - 1 > p {
                lemma_seq_less_transitive(key@, old_v[p as int], old_v[j - 1]);
            }
            lemma_seq_less_transitive(old_v[i], key@, old_v[j - 1]);
        } else if i == p {
            if j - 1 > p {
                lemma_seq_less_transitive(key@, old_v[p as int], old_v[j - 1]);
            }
        } else {
            assert(seq_less(old_v[i - 1], old_v[j - 1]));
        }
    }
    assert forall|k: Seq<char>| #[trigger]
        new_v.contains(k) <==> (old_v.contains(k) || k == key@) by {
        if new_v.contains(k) {
            let i = choose|i: int| 0 <= i < new_v.len() && new_v[i] == k;
            if i < p {
                assert(old_v[i] == k);
            } else if i > p {
                assert(old_v[i - 1] == k);
            }
        }
        if old_v.contains(k) {
            let i = choose|i: int| 0 <= i < old_v.len() && old_v[i] == k;
            if i < p {
                assert(new_v[i] == k);
            } else {
                assert(new_v[i + 1] == k);
            }
        }
        if k == key@ {
            assert(new_v[p as int] == k);
        }
    }
}

/// The column names of all rows, sorted, each once.
pub fn collect_headers(items: &[ResultRow]) -> (hs: Vec<String>)
    ensures
        views(hs@) == sorted_keys(items@),
        is_header_list(views(hs@), items@),
{
    let mut hs: Vec<String> = Vec::new();
    let mut r: usize = 0;
    while r < items.len()
        invariant
            r <= items@.len(),
            strictly_sorted(views(hs@)),
            forall|k: Seq<char>|
                #[trigger] views(hs@).contains(k) <==> key_set(items@.take(r as int)).contains(k),
        decreases items.len() - r,
    {
        let row = &items[r];
        let n = row.entry_count();
        let mut e: usize = 0;
        while e < n
            invariant
                r < items@.len(),
                *row == items@[r as int],
                n == row.entries().len(),
                e <= n,
                strictly_sorted(views(hs@)),
                forall|k: Seq<char>|
                    #[trigger] views(hs@).contains(k) <==> (key_set(items@.take(r as int)).contains(
                        k,
                    ) || has_entry_key(row.entries().take(e as int), k)),
            decreases n - e,
        {
            let ghost before = views(hs@);
            let key = row.entry_column(e);
            insert_column(&mut hs, key);
            proof {
                let es = row.entries();
                assert(key@ == es[e as int].0@);
                assert forall|k: Seq<char>|
                    has_entry_key(es.take(e + 1), k) <==> (has_entry_key(es.take(e as int), k)
                        || k == es[e as int].0@) by {
                    if has_entry_key(es.take(e + 1), k) {
                        let i = choose|i: int|
                            0 <= i < es.take(e + 1).len() && #[trigger] es.take(e + 1)[i].0@ == k;
                        if i < e {
                            assert(es.take(e as int)[i].0@ == k);
                        }
                    }
                    if has_entry_key(es.take(e as int), k) {
                        let i = choose|i: int|
                            0 <= i < es.take(e as int).len() && #[trigger] es.take(e as int)[i].0@
                                == k;
                        assert(es.take(e + 1)[i].0@ == k);
                    }
                    if k == es[e as int].0@ {
                        assert(es.take(e + 1)[e as int].0@ == k);
                    }
                }
                assert forall|k: Seq<char>| #[trigger]
                    views(hs@).contains(k) <==> (key_set(items@.take(r as int)).contains(k)
                        || has_entry_key(es.take(e + 1), k)) by {
                    assert(views(hs@).contains(k) <==> (before.contains(k) || k == key@));
                    assert(before.contains(k) <==> (key_set(items@.take(r as int)).contains(k)
                        || has_entry_key(es.take(e as int), k)));
                    assert(has_entry_key(es.take(e + 1), k) <==> (has_entry_key(
                        es.take(e as int),
                        k,
                    ) || k == es[e as int].0@));
                }
            }
            e += 1;
        }
        proof {
            let es = row.entries();
            assert(es.take(n as int) =~= es);
            row.lemma_view();
            assert forall|k: Seq<char>|
                key_set(items@.take(r + 1)).contains(k) <==> (key_set(items@.take(r as int)).contains(
                    k,
                ) || has_entry_key(es, k)) by {
                lemma_entries_map_dom(es, k);
                if key_set(items@.take(r + 1)).contains(k) {
                    let i = choose|i: int|
                        0 <= i < items@.take(r + 1).len() && #[trigger] items@.take(
                            r + 1,
                        )[i]@.contains_key(k);
                    if i < r {
                        assert(items@.take(r as int)[i]@.contains_key(k));
                    }
                }
                if key_set(items@.take(r as int)).contains(k) {
                    let i = choose|i: int|
                        0 <= i < items@.take(r as int).len() && #[trigger] items@.take(
                            r as int,
                        )[i]@.contains_key(k);
                    assert(items@.take(r + 1)[i]@.contains_key(k));
                }
                if has_entry_key(es, k) {
                    assert(items@.take(r + 1)[r as int]@.contains_key(k));
                }
            }
        }
        r += 1;
    }
    assert(items@.take(items@.len() as int) =~= items@);
    proof {
        lemma_sorted_keys(views(hs@), items@);
    }
    hs
}

/// The text of a row's cell in a column: the formatted value, or `null`
/// when the row has no value for that column.
pub open spec fn cell_text(row: ResultRow, column: Seq<char>) -> Seq<char> {
    if row@.contains_key(column) {
        spec_format_db_value(row@[column])
    } else {
        "null"@
    }
}

/// The cells of a row under the given headers.
pub open spec fn row_cells(row: ResultRow, headers: Seq<Seq<char>>) -> Seq<Seq<char>> {
    headers.map_values(|h: Seq<char>| cell_text(row, h))
}

/// The headers shown for `items`: the sorted column names, or the single
/// header `result` when no row has a column.
pub open spec fn table_headers(items: Seq<ResultRow>) -> Seq<Seq<char>> {
    if sorted_keys(items).len() == 0 {
        seq!["result"@]
    } else {
        sorted_keys(items)
    }
}

/// The cells shown for `items`: one line per row under the sorted column
/// names, or the single cell `No rows` when no row has a column.
pub open spec fn table_rows(items: Seq<ResultRow>) -> Seq<Seq<Seq<char>>> {
    if sorted_keys(items).len() == 0 {
        seq![seq!["No rows"@]]
    } else {
        items.map_values(|r: ResultRow| row_cells(r, sorted_keys(items)))
    }
}

/// The character view of a grid of strings.
pub open spec fn grid_view(g: Seq<Vec<String>>) -> Seq<Seq<Seq<char>>> {
    g.map_values(|r: Vec<String>| views(r@))
}

/// The text of a row's cell in a column.
pub fn cell_string(row: &ResultRow, column: &String) -> (s: String)
    ensures
        s@ == cell_text(*row, column@),
{
    match row.get(column) {
        Some(v) => format_db_value(v),
        None => String::from_str("null"),
    }
}

fn row_strings(row: &ResultRow, headers: &Vec<String>) -> (cells: Vec<String>)
    ensures
        views(cells@) == row_cells(*row, views(headers@)),
{
    let mut cells: Vec<String> = Vec::new();
    let mut j: usize = 0;
    while j < headers.len()
        invariant
            j <= headers@.len(),
            views(cells@) =~= row_cells(*row, views(headers@.take(j as int))),
        decreases headers.len() - j,
    {
        let ghost before = views(cells@);
        let c = cell_string(row, &headers[j]);
        cells.push(c);
        assert(views(cells@) =~= before.push(cell_text(*row, headers@[j as int]@)));
        assert(views(headers@.take(j + 1)) =~= views(headers@.take(j as int)).push(headers@[j as int]@));
        assert(row_cells(*row, views(headers@.take(j + 1))) =~= row_cells(
            *row,
            views(headers@.take(j as int)),
        ).push(cell_text(*row, headers@[j as int]@)));
        j += 1;
    }
    assert(headers@.take(headers@.len() as int) =~= headers@);
    cells
}

/// The headers and the cells of the table that shows `items`.
pub fn items_to_rows_elements(items: &[ResultRow]) -> (r: (Vec<String>, Vec<Vec<String>>))
    ensures
        views(r.0@) == table_headers(items@),
        grid_view(r.1@) == table_rows(items@),
{
    let headers = collect_headers(items);
    if headers.len() == 0 {
        let mut hs: Vec<String> = Vec::new();
        hs.push(String::from_str("result"));
        let mut cell: Vec<String> = Vec::new();
        cell.push(String::from_str("No rows"));
        let mut rows: Vec<Vec<String>> = Vec::new();
        rows.push(cell);
        assert(views(hs@) =~= seq!["result"@]);
        assert(views(rows@[0]@) =~= seq!["No rows"@]);
        assert(grid_view(rows@) =~= seq![seq!["No rows"@]]);
        return (hs, rows);
    }
    let mut rows: Vec<Vec<String>> = Vec::new();
    let mut i: usize = 0;
    while i < items.len()
        invariant
            i <= items@.len(),
            views(headers@) == sorted_keys(items@),
            grid_view(rows@) =~= items@.take(i as int).map_values(
                |r: ResultRow| row_cells(r, sorted_keys(items@)),
            ),
        decreases items.len() - i,
    {
        let cells = row_strings(&items[i], &headers);
        rows.push(cells);
        i += 1;
        assert(items@.take(i as int).map_values(|r: ResultRow| row_cells(r, sorted_keys(items@)))
            =~= items@.take(i - 1).map_values(|r: ResultRow| row_cells(r, sorted_keys(items@))).push(
            row_cells(items@[i - 1], sorted_keys(items@)),
        ));
    }
    assert(items@.take(items@.len() as int) =~= items@);
    (headers, rows)
}

/// Which columns of the table are on screen.
pub struct ColumnWindow {
    /// The first column shown.
    pub column_offset: usize,
    /// The selected column, within the table.
    pub selected_column: usize,
    /// How many columns fit in the width.
    pub visible_columns: usize,
    /// One past the last column shown.
    pub visible_end: usize,
}

/// Each column takes this many cells of width.
pub const COLUMN_WIDTH: u16 = 20;

/// Columns are this many cells apart.
pub const COLUMN_SPACING: u16 = 1;

/// How many columns fit in `width` cells (at least one).
pub open spec fn visible_column_count(width: u16) -> int {
    let w: int = if width as int + 1 > 65535 { 65535 } else { width as int + 1 };
    let n = w / 21;
    if n < 1 { 1 } else { n }
}

/// The window after making the selected column visible: the selection is
/// clamped to the last column, the offset moves just enough to show it,
/// then no further than needed to fill the width.
pub open spec fn spec_column_window(header_count: usize, width: u16, offset: usize, selected: usize) -> ColumnWindow {
    let last: int = if header_count == 0 { 0 } else { header_count - 1 };
    let sel: int = if selected < last { selected as int } else { last };
    let vis = visible_column_count(width);
    let off1: int = if sel < offset {
        sel
    } else if sel >= offset + vis {
        sel + 1 - vis
    } else {
        offset as int
    };
    let max_off: int = if header_count >= vis { header_count - vis } else { 0 };
    let off2: int = if off1 < max_off { off1 } else { max_off };
    let end: int = if off2 + vis < header_count { off2 + vis } else { header_count as int };
    ColumnWindow {
        column_offset: off2 as usize,
        selected_column: sel as usize,
        visible_columns: vis as usize,
        visible_end: end as usize,
    }
}

/// Where the table scrolls horizontally so that the selected column shows.
pub fn column_window(header_count: usize, width: u16, column_offset: usize, selected_column: usize) -> (w: ColumnWindow)
    ensures
        w == spec_column_window(header_count, width, column_offset, selected_column),
        w.visible_columns >= 1,
        width >= COLUMN_WIDTH ==> w.visible_columns * COLUMN_WIDTH + (w.visible_columns - 1)
            * COLUMN_SPACING <= width,
        (w.visible_columns + 1) * COLUMN_WIDTH + w.visible_columns * COLUMN_SPACING > width,
        w.column_offset <= w.selected_column,
        w.column_offset <= w.visible_end <= header_count,
        w.visible_end - w.column_offset <= w.visible_columns,
        header_count > 0 ==> w.selected_column < w.visible_end,
        w.visible_end - w.column_offset == if header_count - w.column_offset < w.visible_columns {
            header_count - w.column_offset
        } else {
            w.visible_columns as int
        },
{
    let last = header_count.saturating_sub(1);
    let sel = if selected_column < last { selected_column } else { last };
    let wide = width.saturating_add(COLUMN_SPACING) / (COLUMN_WIDTH + COLUMN_SPACING);
    let vis: usize = if wide < 1 { 1 } else { wide as usize };
    let mut off = column_offset;
    if sel < off {
        off = sel;
    } else if sel - off >= vis {
        off = sel + 1 - vis;
    }
    let max_off = header_count.saturating_sub(vis);
    if max_off < off {
        off = max_off;
    }
    let end = if header_count - off < vis { header_count } else { off + vis };
    ColumnWindow { column_offset: off, selected_column: sel, visible_columns: vis, visible_end: end }
}

/// Laying out the columns again with nothing changed scrolls no further:
/// the window is a fixed point.
pub proof fn lemma_column_window_stable(header_count: usize, width: u16, offset: usize, selected: usize)
    ensures
        ({
            let w = spec_column_window(header_count, width, offset, selected);
            spec_column_window(header_count, width, w.column_offset, w.selected_column) == w
        }),
{
}

/// The strings `v[from..to]`.
pub fn slice_strings(v: &Vec<String>, from: usize, to: usize) -> (r: Vec<String>)
    requires
        from <= to <= v@.len(),
    ensures
        views(r@) == views(v@).subrange(from as int, to as int),
{
    let mut r: Vec<String> = Vec::new();
    let mut i = from;
    while i < to
        invariant
            from <= i <= to <= v@.len(),
            views(r@) =~= views(v@).subrange(from as int, i as int),
        decreases to - i,
    {
        let ghost before = views(r@);
        r.push(v[i].clone());
        assert(views(r@) =~= before.push(v@[i as int]@));
        assert(views(v@).subrange(from as int, i + 1) =~= views(v@).subrange(from as int, i as int).push(
            v@[i as int]@,
        ));
        i += 1;
    }
    r
}

/// The part of the table that is drawn: the visible headers, each row cut
/// to the visible columns, and the selected column's place among them.
pub struct TableLayout {
    pub headers: Vec<String>,
    pub rows: Vec<Vec<String>>,
    pub selected_visible_column: usize,
}

/// Each row of the table has one cell per header.
pub proof fn lemma_table_rectangular(items: Seq<ResultRow>)
    ensures
        forall|i: int|
            0 <= i < table_rows(items).len() ==> #[trigger] table_rows(items)[i].len()
                == table_headers(items).len(),
{
}

/// The rows of `grid` cut to the columns `from..to`.
pub open spec fn grid_columns(grid: Seq<Seq<Seq<char>>>, from: int, to: int) -> Seq<Seq<Seq<char>>> {
    grid.map_values(|r: Seq<Seq<char>>| r.subrange(from, to))
}

/// Lays out the table of `items` in `area_width` cells: clamps the selected
/// column, scrolls the column offset so that it shows, and cuts the headers
/// and rows to the visible columns.
pub fn layout_table(
    area_width: u16,
    column_offset: &mut usize,
    selected_column: &mut usize,
    items: &[ResultRow],
) -> (t: TableLayout)
    ensures
        ({
            let w = spec_column_window(
                table_headers(items@).len() as usize,
                area_width,
                *old(column_offset),
                *old(selected_column),
            );
            &&& *final(column_offset) == w.column_offset
            &&& *final(selected_column) == w.selected_column
            &&& views(t.headers@) == table_headers(items@).subrange(
                w.column_offset as int,
                w.visible_end as int,
            )
            &&& grid_view(t.rows@) == grid_columns(
                table_rows(items@),
                w.column_offset as int,
                w.visible_end as int,
            )
            &&& t.selected_visible_column == w.selected_column - w.column_offset
            &&& t.selected_visible_column < t.headers@.len()
        }),
{
    let (headers, rows) = items_to_rows_elements(items);
    let w = column_window(headers.len(), area_width, *column_offset, *selected_column);
    *column_offset = w.column_offset;
    *selected_column = w.selected_column;
    let visible_headers = slice_strings(&headers, w.column_offset, w.visible_end);
    let mut visible_rows: Vec<Vec<String>> = Vec::new();
    let mut i: usize = 0;
    proof {
        lemma_table_rectangular(items@);
    }
    while i < rows.len()
        invariant
            i <= rows@.len(),
            grid_view(rows@) == table_rows(items@),
            views(headers@) == table_headers(items@),
            w.column_offset <= w.visible_end <= headers@.len(),
            forall|k: int|
                0 <= k < table_rows(items@).len() ==> #[trigger] table_rows(items@)[k].len()
                    == table_headers(items@).len(),
            grid_view(visible_rows@) =~= grid_columns(
                table_rows(items@).take(i as int),
                w.column_offset as int,
                w.visible_end as int,
            ),
        decreases rows.len() - i,
    {
        assert(views(rows@[i as int]@) == table_rows(items@)[i as int]);
        let ghost before = grid_view(visible_rows@);
        let cut = slice_strings(&rows[i], w.column_offset, w.visible_end);
        visible_rows.push(cut);
        let ghost row_i = table_rows(items@)[i as int];
        assert(grid_view(visible_rows@) =~= before.push(
            row_i.subrange(w.column_offset as int, w.visible_end as int),
        ));
        assert(table_rows(items@).take(i + 1) =~= table_rows(items@).take(i as int).push(row_i));
        assert(grid_columns(table_rows(items@).take(i + 1), w.column_offset as int, w.visible_end as int)
            =~= grid_columns(
            table_rows(items@).take(i as int),
            w.column_offset as int,
            w.visible_end as int,
        ).push(row_i.subrange(w.column_offset as int, w.visible_end as int)));
        i += 1;
    }
    assert(table_rows(items@).take(rows@.len() as int) =~= table_rows(items@));
    assert(views(headers@).len() == headers@.len());
    assert(headers@.len() > 0);
    assert(views(visible_headers@).len() == visible_headers@.len());
    TableLayout {
        headers: visible_headers,
        rows: visible_rows,
        selected_visible_column: w.selected_column - w.column_offset,
    }
}

} // verus!
