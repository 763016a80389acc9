use std::collections::BTreeSet;

use query_table::row::ResultRow;
use query_table::screens::{collect_headers, column_window, items_to_rows_elements, layout_table};
use query_table::value::DbValue;

fn row(cells: &[(&str, DbValue)]) -> ResultRow {
    let mut r = ResultRow::new();
    for (k, v) in cells {
        r.insert(k.to_string(), clone_value(v));
    }
    r
}

fn clone_value(v: &DbValue) -> DbValue {
    match v {
        DbValue::Null => DbValue::Null,
        DbValue::Text(s) => DbValue::Text(s.clone()),
        DbValue::Integer(n) => DbValue::Integer(*n),
        DbValue::Boolean(b) => DbValue::Boolean(*b),
        _ => DbValue::Null,
    }
}

fn text(s: &str) -> DbValue {
    DbValue::Text(s.to_string())
}

#[test]
fn headers_are_sorted_and_distinct() {
    let items = vec![
        row(&[("name", text("a")), ("id", DbValue::Integer(1))]),
        row(&[("zeta", DbValue::Null), ("id", DbValue::Integer(2)), ("Alpha", text("b"))]),
        row(&[]),
    ];
    let headers = collect_headers(&items);
    let expected: Vec<String> = ["name", "id", "zeta", "Alpha"]
        .iter()
        .map(|s| s.to_string())
        .collect::<BTreeSet<_>>()
        .into_iter()
        .collect();
    assert_eq!(headers, expected);
    assert_eq!(headers, vec!["Alpha", "id", "name", "zeta"]);
}

#[test]
fn rows_follow_headers_with_null_for_missing() {
    let items = vec![
        row(&[("name", text("ann")), ("id", DbValue::Integer(1))]),
        row(&[("id", DbValue::Integer(2)), ("active", DbValue::Boolean(true))]),
    ];
    let (headers, rows) = items_to_rows_elements(&items);
    assert_eq!(headers, vec!["active", "id", "name"]);
    assert_eq!(rows, vec![vec!["null", "1", "ann"], vec!["true", "2", "null"]]);
    for r in &rows {
        assert_eq!(r.len(), headers.len());
    }
}

#[test]
fn no_columns_shows_no_rows() {
    let (headers, rows) = items_to_rows_elements(&[]);
    assert_eq!(headers, vec!["result"]);
    assert_eq!(rows, vec![vec!["No rows"]]);
    let (headers, rows) = items_to_rows_elements(&[ResultRow::new(), ResultRow::new()]);
    assert_eq!(headers, vec!["result"]);
    assert_eq!(rows, vec![vec!["No rows"]]);
}

#[test]
fn window_counts_columns_by_width() {
    // (width + 1) / 21 columns, at least one
    assert_eq!(column_window(10, 0, 0, 0).visible_columns, 1);
    assert_eq!(column_window(10, 19, 0, 0).visible_columns, 1);
    assert_eq!(column_window(10, 20, 0, 0).visible_columns, 1);
    assert_eq!(column_window(10, 41, 0, 0).visible_columns, 2);
    assert_eq!(column_window(10, 62, 0, 0).visible_columns, 3);
    assert_eq!(column_window(10, u16::MAX, 0, 0).visible_columns, 3120);
}

#[test]
fn window_scrolls_to_selected_column() {
    // 5 columns, 2 visible
    let w = column_window(5, 41, 0, 3);
    assert_eq!((w.column_offset, w.selected_column, w.visible_end), (2, 3, 4));
    // selection left of the window pulls it back
    let w = column_window(5, 41, 3, 1);
    assert_eq!((w.column_offset, w.selected_column, w.visible_end), (1, 1, 3));
    // a selection past the last column is clamped
    let w = column_window(5, 41, 0, 99);
    assert_eq!((w.column_offset, w.selected_column, w.visible_end), (3, 4, 5));
    // an offset past the end is pulled back to fill the width
    let w = column_window(5, 62, 4, 4);
    assert_eq!((w.column_offset, w.selected_column, w.visible_end), (2, 4, 5));
    // everything fits
    let w = column_window(2, 200, 7, 1);
    assert_eq!((w.column_offset, w.selected_column, w.visible_end), (0, 1, 2));
    // no columns
    let w = column_window(0, 41, 3, 2);
    assert_eq!((w.column_offset, w.selected_column, w.visible_end), (0, 0, 0));
}

#[test]
fn window_keeps_selection_visible() {
    for count in 1..8usize {
        for width in [0u16, 20, 41, 62, 100] {
            for offset in 0..10usize {
                for selected in 0..10usize {
                    let w = column_window(count, width, offset, selected);
                    assert!(w.column_offset <= w.selected_column);
                    assert!(w.selected_column < w.visible_end);
                    assert!(w.visible_end <= count);
                    assert!(w.visible_end - w.column_offset <= w.visible_columns);
                }
            }
        }
    }
}

#[test]
fn layout_cuts_rows_to_visible_columns() {
    let items = vec![
        row(&[("a", text("1")), ("b", text("2")), ("c", text("3")), ("d", text("4"))]),
        row(&[("a", text("5")), ("d", text("8"))]),
    ];
    let mut offset = 0usize;
    let mut selected = 3usize;
    let t = layout_table(41, &mut offset, &mut selected, &items);
    assert_eq!(offset, 2);
    assert_eq!(selected, 3);
    assert_eq!(t.headers, vec!["c", "d"]);
    assert_eq!(t.rows, vec![vec!["3", "4"], vec!["null", "8"]]);
    assert_eq!(t.selected_visible_column, 1);
}
