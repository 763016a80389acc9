//! Properties of the table view that hold across its operations.
//!
//! Some laws assume that the rows, or the columns, fit in `usize`; for an
//! `App` that is shown by `App::row_count` and `App::column_count`.

use vstd::prelude::*;

use crate::app::{
    AppView, KeyCode, TableSelection, spec_after_frame, spec_column_count, spec_handle_key,
    spec_key_copy, spec_selected_value, sum_wrapped, line_widths, spec_subtitle,
    spec_select_next_column, spec_select_next_row, spec_select_previous_column,
    spec_select_previous_row, spec_toggle_query_expanded,
};
use crate::layout::Area;
use crate::query::{EventView, TableCommand};
use crate::screens::{
    COLUMN_SPACING, COLUMN_WIDTH, cell_text, lemma_column_window_stable, sorted_keys,
    spec_column_window, table_headers,
};
use crate::value::{DbValue, FloatValue, spec_format_db_value};

verus! {

/// Expanding the query heading twice leaves the view as it was.
pub proof fn lemma_toggle_query_expanded_twice(v: AppView)
    ensures
        spec_toggle_query_expanded(spec_toggle_query_expanded(v)) == v,
{
}

/// Moving down a row and back up returns to the same row, unless the
/// selection was already on the last row.
pub proof fn lemma_next_row_then_previous_row(v: AppView, r: usize)
    requires
        v.table_state.selected == Some(r),
        r + 1 < v.items.len() <= usize::MAX,
    ensures
        spec_select_previous_row(spec_select_next_row(v)) == v,
{
    let n = spec_select_next_row(v);
    let p = spec_select_previous_row(n);
    assert(p.table_state == v.table_state);
    assert(p == v);
}

/// Moving up a row and back down returns to the same row, unless the
/// selection was on the first row.
pub proof fn lemma_previous_row_then_next_row(v: AppView, r: usize)
    requires
        v.table_state.selected == Some(r),
        1 <= r < v.items.len() <= usize::MAX,
    ensures
        spec_select_next_row(spec_select_previous_row(v)) == v,
{
}

/// Moving right a column and back left returns to the same column, unless
/// the selection was already on the last column.
pub proof fn lemma_next_column_then_previous_column(v: AppView)
    requires
        v.selected_column + 1 < spec_column_count(v.items) <= usize::MAX,
    ensures
        spec_select_previous_column(spec_select_next_column(v)) == v,
{
    let n = spec_select_next_column(v);
    let p = spec_select_previous_column(n);
    assert(p.selected_column == v.selected_column);
    assert(p == v);
}

/// Moving down never leaves the rows: when there are rows, a row within
/// them is selected afterwards, whatever was selected before.
pub proof fn lemma_next_row_within_rows(v: AppView)
    requires
        0 < v.items.len() <= usize::MAX,
    ensures
        spec_select_next_row(v).table_state.selected matches Some(r) && r < v.items.len(),
{
}

/// Moving right never leaves the columns.
pub proof fn lemma_next_column_within_columns(v: AppView)
    requires
        spec_column_count(v.items) <= usize::MAX,
    ensures
        spec_select_next_column(v).selected_column < spec_column_count(v.items),
{
}

/// No key changes the rows, the query or the Enter command.
pub proof fn lemma_keys_keep_data(v: AppView, code: KeyCode)
    ensures
        spec_handle_key(v, code).items == v.items,
        spec_handle_key(v, code).query == v.query,
        spec_handle_key(v, code).command == v.command,
{
}

/// A key that raises an event also closes the view.
pub proof fn lemma_event_closes_view(v: AppView, code: KeyCode)
    requires
        spec_handle_key(v, code).event != v.event,
    ensures
        spec_handle_key(v, code).exit,
{
}

/// Once the view is closing, every key leaves it closing.
pub proof fn lemma_exit_is_final(v: AppView, code: KeyCode)
    requires
        v.exit,
    ensures
        spec_handle_key(v, code).exit,
{
}

/// After a frame the selected column lies within the table's columns and
/// within the columns on screen.
pub proof fn lemma_frame_shows_selected_column(v: AppView, area: Area)
    ensures
        spec_after_frame(v, area).selected_column < table_headers(v.items).len(),
        spec_after_frame(v, area).column_offset <= spec_after_frame(v, area).selected_column,
{
}

/// Drawing a second frame without a key in between changes nothing more:
/// the columns do not scroll again.
pub proof fn lemma_frame_is_stable(v: AppView, area: Area)
    ensures
        spec_after_frame(spec_after_frame(v, area), area) == spec_after_frame(v, area),
{
    lemma_column_window_stable(
        table_headers(v.items).len() as usize,
        area.width,
        v.column_offset,
        v.selected_column,
    );
}

/// A float cell shows the float's own text exactly when the float is
/// finite, that is when its exponent field is not all ones (zero and the
/// subnormals included); NaN and the infinities show `null`.
pub proof fn lemma_float_cell_finite_shows_display(bits: u64, display: String)
    ensures
        spec_format_db_value(DbValue::Float(FloatValue { bits, display })) == if (bits >> 52u64)
            & 0x7ffu64 != 0x7ffu64 {
            display@
        } else {
            "null"@
        },
        (bits >> 52u64) & 0x7ffu64 == 0 ==> spec_format_db_value(
            DbValue::Float(FloatValue { bits, display }),
        ) == display@,
{
}

/// The columns counted as visible fit in the width, 20 cells each and one
/// cell apart, and one more would not fit; at least one column shows even
/// when the width is narrower than a column.
pub proof fn lemma_visible_columns_fit(header_count: usize, width: u16, offset: usize, selected: usize)
    ensures
        ({
            let n = spec_column_window(header_count, width, offset, selected).visible_columns as int;
            &&& n >= 1
            &&& width >= COLUMN_WIDTH ==> n * COLUMN_WIDTH + (n - 1) * COLUMN_SPACING <= width
            &&& (n + 1) * COLUMN_WIDTH + n * COLUMN_SPACING > width
        }),
{
}

/// An expanded query heading is as high as its lines need, each line
/// measured with its label (`Query: ` or the indent) in front.
pub proof fn lemma_heading_height_counts_labels(v: AppView, avail: int)
    requires
        v.query_expanded,
    ensures
        spec_subtitle(v.query, true).len() == 0 ==> sum_wrapped(
            line_widths(spec_subtitle(v.query, true)),
            avail,
        ) == 0,
        forall|i: int|
            0 <= i < spec_subtitle(v.query, true).len() ==> #[trigger] line_widths(
                spec_subtitle(v.query, true),
            )[i] == crate::layout::line_display_width(
                spec_subtitle(v.query, true)[i].0,
                spec_subtitle(v.query, true)[i].1,
            ) && spec_subtitle(v.query, true)[i].0 == if i == 0 {
                "Query: "@
            } else {
                "       "@
            },
{
}

/// The view with the widget's row scroll offset set to `o`.
pub open spec fn with_row_offset(v: AppView, o: usize) -> AppView {
    AppView { table_state: TableSelection { offset: o, ..v.table_state }, ..v }
}

/// The row scroll offset of the widget plays no part in what a key does:
/// selections are absolute row indices, so changing the offset before a
/// key changes only the offset after it, and the text copied is the same.
pub proof fn lemma_keys_ignore_row_offset(v: AppView, code: KeyCode, o: usize)
    ensures
        spec_handle_key(with_row_offset(v, o), code) == with_row_offset(spec_handle_key(v, code), o),
        spec_key_copy(with_row_offset(v, o), code) == spec_key_copy(v, code),
        spec_selected_value(with_row_offset(v, o)) == spec_selected_value(v),
{
    assert(spec_handle_key(with_row_offset(v, o), code) =~= with_row_offset(
        spec_handle_key(v, code),
        o,
    ));
}

/// `y` copies the selected cell: the value of the selected row (an
/// absolute row index) under the selected column, `null` if the row has
/// none; nothing is copied when no cell is selected.
pub proof fn lemma_copy_is_selected_cell(v: AppView, r: usize)
    ensures
        spec_key_copy(v, KeyCode::Char('y')) == spec_selected_value(v),
        v.table_state.selected == Some(r) && r < v.items.len() && v.selected_column
            < sorted_keys(v.items).len() ==> spec_key_copy(v, KeyCode::Char('y')) == Some(
            cell_text(v.items[r as int], sorted_keys(v.items)[v.selected_column as int]),
        ),
        v.table_state.selected is None ==> spec_key_copy(v, KeyCode::Char('y')) is None,
{
}

/// Enter in the table list opens the table named in the selected row (an
/// absolute row index) and closes the view.
pub proof fn lemma_enter_opens_selected_table(v: AppView, r: usize)
    requires
        v.command == TableCommand::ShowTables,
        v.table_state.selected == Some(r),
        r < v.items.len(),
        v.items[r as int]@.contains_key("table_name"@),
    ensures
        spec_handle_key(v, KeyCode::Enter).event == Some(
            EventView::SelectTable(spec_format_db_value(v.items[r as int]@["table_name"@])),
        ),
        spec_handle_key(v, KeyCode::Enter).exit,
        spec_handle_key(v, KeyCode::Enter).items == v.items,
{
}

} // verus!
