use query_table::app::{
    capped_rows, stacked_rows, wrapped_rows, App, KeyAction, KeyCode, KeyEventKind, TableSelection,
};
use query_table::layout::Area;
use query_table::query::{TableCommand, TableEvent};
use query_table::row::ResultRow;
use query_table::value::DbValue;

fn row(cells: &[(&str, &str)]) -> ResultRow {
    let mut r = ResultRow::new();
    for (k, v) in cells {
        r.insert(k.to_string(), DbValue::Text(v.to_string()));
    }
    r
}

fn sample(command: TableCommand) -> App {
    let items = vec![
        row(&[("table_name", "users"), ("rows", "10")]),
        row(&[("table_name", "posts"), ("rows", "3")]),
        row(&[("table_name", "tags")]),
    ];
    App::new(items, command, "select *\nfrom tables".to_string())
}

fn press(app: &mut App, c: char) -> KeyAction {
    app.handle_key_event(KeyCode::Char(c))
}

fn selected(app: &App) -> Option<usize> {
    app.table_state().selected
}

#[test]
fn new_selects_first_row_when_there_are_rows() {
    let app = sample(TableCommand::ShowValue);
    assert_eq!(selected(&app), Some(0));
    assert_eq!(app.selected_column(), 0);
    assert!(!app.should_exit());
    let empty = App::new(vec![], TableCommand::ShowValue, String::new());
    assert_eq!(selected(&empty), None);
}

#[test]
fn rows_move_and_stop_at_the_ends() {
    let mut app = sample(TableCommand::ShowValue);
    press(&mut app, 'k');
    assert_eq!(selected(&app), Some(0));
    press(&mut app, 'j');
    app.handle_key_event(KeyCode::Down);
    assert_eq!(selected(&app), Some(2));
    press(&mut app, 'j');
    assert_eq!(selected(&app), Some(2));
    app.handle_key_event(KeyCode::Up);
    assert_eq!(selected(&app), Some(1));
    press(&mut app, 'g');
    assert_eq!(selected(&app), Some(0));
    press(&mut app, 'G');
    assert_eq!(selected(&app), Some(usize::MAX));
    press(&mut app, 'j');
    assert_eq!(selected(&app), Some(2));
}

#[test]
fn moving_on_an_empty_table_does_nothing() {
    let mut app = App::new(vec![], TableCommand::ShowValue, String::new());
    press(&mut app, 'j');
    press(&mut app, 'G');
    press(&mut app, 'g');
    assert_eq!(selected(&app), None);
}

#[test]
fn columns_move_and_stop_at_the_ends() {
    let mut app = sample(TableCommand::ShowValue);
    // columns: rows, table_name
    press(&mut app, 'h');
    assert_eq!(app.selected_column(), 0);
    press(&mut app, 'l');
    assert_eq!(app.selected_column(), 1);
    app.handle_key_event(KeyCode::Right);
    assert_eq!(app.selected_column(), 1);
    app.handle_key_event(KeyCode::Left);
    assert_eq!(app.selected_column(), 0);
}

#[test]
fn selected_value_follows_row_and_column() {
    let mut app = sample(TableCommand::ShowValue);
    assert_eq!(app.selected_value().as_deref(), Some("10"));
    press(&mut app, 'l');
    assert_eq!(app.selected_value().as_deref(), Some("users"));
    press(&mut app, 'G');
    assert_eq!(app.selected_value(), None);
    press(&mut app, 'j');
    press(&mut app, 'h');
    // the last row has no `rows` value
    assert_eq!(app.selected_value().as_deref(), Some("null"));
}

#[test]
fn yank_hands_out_the_selected_value() {
    let mut app = sample(TableCommand::ShowValue);
    match press(&mut app, 'y') {
        KeyAction::CopyToClipboard(t) => assert_eq!(t, "10"),
        KeyAction::Nothing => panic!("expected a copy"),
    }
    let mut empty = App::new(vec![], TableCommand::ShowValue, String::new());
    assert!(matches!(press(&mut empty, 'y'), KeyAction::Nothing));
    assert!(matches!(press(&mut app, 'j'), KeyAction::Nothing));
}

#[test]
fn quit_closes_without_event() {
    let mut app = sample(TableCommand::ShowValue);
    press(&mut app, 'q');
    assert!(app.should_exit());
    assert!(app.take_event().is_none());
}

#[test]
fn edit_query_closes_with_the_query() {
    let mut app = sample(TableCommand::ShowValue);
    press(&mut app, 'p');
    assert!(app.should_exit());
    match app.take_event() {
        Some(TableEvent::EditQuery(q)) => assert_eq!(q, "select *\nfrom tables"),
        _ => panic!("expected EditQuery"),
    }
    assert!(app.take_event().is_none());
}

#[test]
fn enter_on_tables_selects_the_table() {
    let mut app = sample(TableCommand::ShowTables);
    press(&mut app, 'j');
    app.handle_key_event(KeyCode::Enter);
    assert!(app.should_exit());
    match app.take_event() {
        Some(TableEvent::SelectTable(t)) => assert_eq!(t, "posts"),
        _ => panic!("expected SelectTable"),
    }
}

#[test]
fn enter_on_tables_without_table_name_does_nothing() {
    let items = vec![row(&[("name", "x")])];
    let mut app = App::new(items, TableCommand::ShowTables, String::new());
    app.handle_key_event(KeyCode::Enter);
    assert!(!app.should_exit());
    assert!(app.take_event().is_none());
}

#[test]
fn enter_on_values_toggles_the_value() {
    let mut app = sample(TableCommand::ShowValue);
    app.handle_key_event(KeyCode::Enter);
    assert!(app.value_expanded());
    app.handle_key_event(KeyCode::Enter);
    assert!(!app.value_expanded());
    let mut empty = App::new(vec![], TableCommand::ShowValue, String::new());
    empty.handle_key_event(KeyCode::Enter);
    assert!(!empty.value_expanded());
}

#[test]
fn e_toggles_the_query_heading() {
    let mut app = sample(TableCommand::ShowValue);
    press(&mut app, 'e');
    assert!(app.query_expanded());
    press(&mut app, 'e');
    assert!(!app.query_expanded());
}

#[test]
fn only_presses_act() {
    let mut app = sample(TableCommand::ShowValue);
    app.handle_input(KeyCode::Char('q'), KeyEventKind::Release);
    app.handle_input(KeyCode::Char('j'), KeyEventKind::Repeat);
    assert!(!app.should_exit());
    assert_eq!(selected(&app), Some(0));
    app.handle_input(KeyCode::Char('j'), KeyEventKind::Press);
    assert_eq!(selected(&app), Some(1));
}

#[test]
fn collapsed_frame_shows_query_on_one_line() {
    let mut app = sample(TableCommand::ShowValue);
    let f = app.layout_frame(Area { x: 0, y: 0, width: 80, height: 24 });
    assert_eq!(f.subtitle.len(), 1);
    assert_eq!(f.subtitle[0].label, "Query [e to expand]: ");
    assert_eq!(f.subtitle[0].text, "select * from tables");
    assert!(!f.wrap_subtitle);
    assert!(f.value.is_none());
    assert_eq!((f.subtitle_area.y, f.subtitle_area.height), (0, 1));
    assert_eq!(f.value_area.height, 0);
    assert_eq!((f.table_area.y, f.table_area.height, f.table_area.width), (1, 23, 80));
    assert_eq!(f.table.headers, vec!["rows", "table_name"]);
    assert_eq!(f.table.rows, vec![vec!["10", "users"], vec!["3", "posts"], vec!["null", "tags"]]);
    assert_eq!(app.table_state().selected_column, Some(0));
}

#[test]
fn expanded_frame_wraps_query_and_value() {
    let items = vec![row(&[("a", "x"), ("b", "y"), ("c", "z")])];
    let mut app = App::new(items, TableCommand::ShowValue, "abc\ndefghijklmn".to_string());
    app.handle_key_event(KeyCode::Char('e'));
    app.handle_key_event(KeyCode::Enter);
    app.handle_key_event(KeyCode::Char('l'));
    app.handle_key_event(KeyCode::Char('l'));
    let f = app.layout_frame(Area { x: 2, y: 1, width: 10, height: 20 });
    assert_eq!(f.subtitle.len(), 2);
    assert_eq!(f.subtitle[0].label, "Query: ");
    assert_eq!(f.subtitle[0].text, "abc");
    assert_eq!(f.subtitle[1].label, "       ");
    assert_eq!(f.subtitle[1].text, "defghijklmn");
    assert!(f.wrap_subtitle);
    // "Query: abc" fits in 10 cells, "       defghijklmn" takes 2 rows
    assert_eq!((f.subtitle_area.y, f.subtitle_area.height), (1, 3));
    // "Value [Enter to collapse]: z" is 28 cells: 3 rows
    assert_eq!(f.value.as_ref().map(|v| v.text.as_str()), Some("z"));
    assert_eq!(f.value.as_ref().map(|v| v.label.as_str()), Some("Value [Enter to collapse]: "));
    assert_eq!((f.value_area.y, f.value_area.height), (4, 3));
    assert_eq!((f.table_area.x, f.table_area.y, f.table_area.height, f.table_area.width), (2, 7, 14, 10));
    // one column fits: the selected third column
    assert_eq!(f.table.headers, vec!["c"]);
    assert_eq!(f.table.rows, vec![vec!["z"]]);
    assert_eq!(app.column_offset(), 2);
    assert_eq!(app.table_state().selected_column, Some(0));
}

#[test]
fn frame_measures_wide_characters() {
    // each CJK character is two cells wide
    let mut app = App::new(vec![], TableCommand::ShowValue, "日本語日本語".to_string());
    app.handle_key_event(KeyCode::Char('e'));
    let f = app.layout_frame(Area { x: 0, y: 0, width: 10, height: 20 });
    // "Query: " (7) + 12 cells = 19 cells: 2 rows
    assert_eq!(f.subtitle_area.height, 2);
}

#[test]
fn frame_clamps_selection_to_columns() {
    let mut app = sample(TableCommand::ShowValue);
    press(&mut app, 'l');
    press(&mut app, 'l');
    app.layout_frame(Area { x: 0, y: 0, width: 20, height: 10 });
    assert_eq!(app.selected_column(), 1);
    assert_eq!(app.column_offset(), 1);
}

#[test]
fn recorded_table_state_is_kept() {
    let mut app = sample(TableCommand::ShowValue);
    press(&mut app, 'G');
    app.record_table_state(TableSelection { offset: 1, selected: Some(2), selected_column: Some(0) });
    assert_eq!(selected(&app), Some(2));
    assert_eq!(app.table_state().offset, 1);
    assert_eq!(app.selected_value().as_deref(), Some("null"));
}

#[test]
fn empty_query_has_no_heading_lines_when_expanded() {
    let mut app = App::new(vec![], TableCommand::ShowValue, String::new());
    press(&mut app, 'e');
    let f = app.layout_frame(Area { x: 0, y: 0, width: 30, height: 5 });
    assert_eq!(f.subtitle.len(), 0);
    assert_eq!(f.subtitle_area.height, 0);
    assert_eq!(f.table.headers, vec!["result"]);
    assert_eq!(f.table.rows, vec![vec!["No rows"]]);
}

#[test]
fn wrapping_rounds_up_and_counts_at_least_one_row() {
    assert_eq!(wrapped_rows(0, 10), 1);
    assert_eq!(wrapped_rows(10, 10), 1);
    assert_eq!(wrapped_rows(11, 10), 2);
    assert_eq!(wrapped_rows(25, 1), 25);
    assert_eq!(wrapped_rows(usize::MAX, 2), usize::MAX / 2 + 1);
    assert_eq!(capped_rows(usize::MAX, 1), u16::MAX);
    assert_eq!(capped_rows(30, 7), 5);
    assert_eq!(stacked_rows(&vec![], 10), 0);
    assert_eq!(stacked_rows(&vec![0, 10, 11, 35], 10), 1 + 1 + 2 + 4);
    assert_eq!(stacked_rows(&vec![usize::MAX, 5], 1), u16::MAX);
}

#[test]
fn second_frame_does_not_scroll_again() {
    let items = vec![row(&[("a", "1"), ("b", "2"), ("c", "3"), ("d", "4"), ("e", "5")])];
    let mut app = App::new(items, TableCommand::ShowValue, "q".to_string());
    for _ in 0..3 {
        press(&mut app, 'l');
    }
    let area = Area { x: 0, y: 0, width: 41, height: 10 };
    let first = app.layout_frame(area);
    let (offset, column) = (app.column_offset(), app.selected_column());
    let second = app.layout_frame(area);
    assert_eq!((app.column_offset(), app.selected_column()), (offset, column));
    assert_eq!((offset, column), (2, 3));
    assert_eq!(first.table.headers, second.table.headers);
    assert_eq!(second.table.headers, vec!["c", "d"]);
}

#[test]
fn moving_there_and_back_returns() {
    let mut app = sample(TableCommand::ShowValue);
    press(&mut app, 'j');
    press(&mut app, 'j');
    press(&mut app, 'k');
    assert_eq!(selected(&app), Some(1));
    press(&mut app, 'k');
    press(&mut app, 'j');
    assert_eq!(selected(&app), Some(1));
    press(&mut app, 'l');
    press(&mut app, 'h');
    assert_eq!(app.selected_column(), 0);
}

#[test]
fn row_count_counts_rows() {
    assert_eq!(sample(TableCommand::ShowValue).row_count(), 3);
    assert_eq!(App::new(vec![], TableCommand::ShowValue, String::new()).row_count(), 0);
}
