//! The interactive table of query results: its state, what each key does,
//! and what a frame shows.

use vstd::prelude::*;
use vstd::string::StringExecFns;

use crate::layout::{Area, line_display_width, line_width, split_vertically, vertical_areas};
use crate::query::{EventView, TableCommand, TableEvent, event_view};
use crate::row::ResultRow;
use crate::screens::{
    TableLayout, cell_string, cell_text, collect_headers, grid_columns, grid_view, layout_table,
    sorted_keys, spec_column_window, table_headers, table_rows,
};
use crate::text::{flatten_newlines, replace_newlines, split_lines, text_lines};
use crate::value::{format_db_value, spec_format_db_value, views};

verus! {

/// The state of the table widget, as ratatui keeps it in a `TableState`:
/// the first row shown, the selected row and the selected column. Its
/// methods do what the `TableState` methods of the same names do; the
/// widget itself changes the state when it draws the table, and the caller
/// hands that state back with `App::record_table_state`.
#[derive(Clone, Copy, Debug)]
pub struct TableSelection {
    pub offset: usize,
    pub selected: Option<usize>,
    pub selected_column: Option<usize>,
}

impl TableSelection {
    /// Selecting a row; selecting none also scrolls back to the top.
    pub open spec fn spec_select(self, index: Option<usize>) -> TableSelection {
        TableSelection {
            offset: if index is None {
                0
            } else {
                self.offset
            },
            selected: index,
            selected_column: self.selected_column,
        }
    }

    /// Nothing selected, scrolled to the top.
    pub fn new() -> (s: Self)
        ensures
            s == (TableSelection { offset: 0, selected: None, selected_column: None }),
    {
        TableSelection { offset: 0, selected: None, selected_column: None }
    }

    /// Selects a row (or none).
    pub fn select(&mut self, index: Option<usize>)
        ensures
            *final(self) == old(self).spec_select(index),
    {
        self.selected = index;
        if index.is_none() {
            self.offset = 0;
        }
    }

    /// Selects the first row.
    pub fn select_first(&mut self)
        ensures
            *final(self) == old(self).spec_select(Some(0)),
    {
        self.select(Some(0));
    }

    /// Selects the last row: the largest index, which the widget brings
    /// down to the last row when it draws the table.
    pub fn select_last(&mut self)
        ensures
            *final(self) == old(self).spec_select(Some(usize::MAX)),
    {
        self.select(Some(usize::MAX));
    }

    /// Selects a column (or none).
    pub fn select_column(&mut self, index: Option<usize>)
        ensures
            *final(self) == (TableSelection { selected_column: index, ..*old(self) }),
    {
        self.selected_column = index;
    }
}

/// A key, as far as the table tells keys apart.
#[derive(Clone, Copy, Debug, PartialEq, Eq, Structural)]
pub enum KeyCode {
    Char(char),
    Up,
    Down,
    Left,
    Right,
    Enter,
    Other,
}

/// Whether a key went down, repeats or went up.
#[derive(Clone, Copy, Debug, PartialEq, Eq, Structural)]
pub enum KeyEventKind {
    Press,
    Repeat,
    Release,
}

/// What the caller has to do after a key.
pub enum KeyAction {
    Nothing,
    /// Put this text on the clipboard and report how it went.
    CopyToClipboard(String),
}

/// The text to copy, if a key asks for a copy.
pub open spec fn action_view(a: KeyAction) -> Option<Seq<char>> {
    match a {
        KeyAction::Nothing => None,
        KeyAction::CopyToClipboard(t) => Some(t@),
    }
}

/// The abstract state of the table view.
pub struct AppView {
    pub items: Seq<ResultRow>,
    pub command: TableCommand,
    pub query: Seq<char>,
    pub query_expanded: bool,
    pub value_expanded: bool,
    pub exit: bool,
    pub table_state: TableSelection,
    pub column_offset: usize,
    pub selected_column: usize,
    pub event: Option<EventView>,
}

/// The table view of a query's rows.
pub struct App {
    items: Vec<ResultRow>,
    command: TableCommand,
    query: String,
    query_expanded: bool,
    value_expanded: bool,
    exit: bool,
    table_state: TableSelection,
    column_offset: usize,
    selected_column: usize,
    event: Option<TableEvent>,
}

impl View for App {
    type V = AppView;

    closed spec fn view(&self) -> AppView {
        AppView {
            items: self.items@,
            command: self.command,
            query: self.query@,
            query_expanded: self.query_expanded,
            value_expanded: self.value_expanded,
            exit: self.exit,
            table_state: self.table_state,
            column_offset: self.column_offset,
            selected_column: self.selected_column,
            event: event_view(self.event),
        }
    }
}

/// The number of columns: the distinct column names, at least one.
pub open spec fn spec_column_count(items: Seq<ResultRow>) -> int {
    if sorted_keys(items).len() == 0 {
        1
    } else {
        sorted_keys(items).len() as int
    }
}

/// The text of the selected cell: the selected row's value under the
/// selected column, `null` when the row lacks that column; none when no
/// row is selected or the selection lies past the rows or the columns.
pub open spec fn spec_selected_value(v: AppView) -> Option<Seq<char>> {
    match v.table_state.selected {
        Some(r) => if r < v.items.len() && v.selected_column < sorted_keys(v.items).len() {
            Some(cell_text(v.items[r as int], sorted_keys(v.items)[v.selected_column as int]))
        } else {
            None
        },
        None => None,
    }
}

pub open spec fn spec_exit(v: AppView) -> AppView {
    AppView { exit: true, ..v }
}

pub open spec fn spec_toggle_query_expanded(v: AppView) -> AppView {
    AppView { query_expanded: !v.query_expanded, ..v }
}

pub open spec fn spec_toggle_value_expanded(v: AppView) -> AppView {
    if spec_selected_value(v) is Some {
        AppView { value_expanded: !v.value_expanded, ..v }
    } else {
        v
    }
}

/// The selected row index, reading no selection as the first row.
pub open spec fn current_row(v: AppView) -> int {
    match v.table_state.selected {
        Some(r) => r as int,
        None => 0,
    }
}

pub open spec fn spec_select_next_row(v: AppView) -> AppView {
    if v.items.len() == 0 {
        v
    } else {
        let last = v.items.len() - 1;
        let next = if current_row(v) + 1 < last {
            current_row(v) + 1
        } else {
            last
        };
        AppView { table_state: v.table_state.spec_select(Some(next as usize)), ..v }
    }
}

pub open spec fn spec_select_previous_row(v: AppView) -> AppView {
    if v.items.len() == 0 {
        v
    } else {
        let prev = if current_row(v) == 0 {
            0
        } else {
            current_row(v) - 1
        };
        AppView { table_state: v.table_state.spec_select(Some(prev as usize)), ..v }
    }
}

pub open spec fn spec_select_next_column(v: AppView) -> AppView {
    let last = spec_column_count(v.items) - 1;
    let next = if v.selected_column + 1 < last {
        v.selected_column + 1
    } else {
        last
    };
    AppView { selected_column: next as usize, ..v }
}

pub open spec fn spec_select_previous_column(v: AppView) -> AppView {
    let prev = if v.selected_column == 0 {
        0
    } else {
        v.selected_column - 1
    };
    AppView { selected_column: prev as usize, ..v }
}

pub open spec fn spec_select_first_row(v: AppView) -> AppView {
    if v.items.len() == 0 {
        v
    } else {
        AppView { table_state: v.table_state.spec_select(Some(0)), ..v }
    }
}

pub open spec fn spec_select_last_row(v: AppView) -> AppView {
    if v.items.len() == 0 {
        v
    } else {
        AppView { table_state: v.table_state.spec_select(Some(usize::MAX)), ..v }
    }
}

pub open spec fn spec_edit_query(v: AppView) -> AppView {
    AppView { event: Some(EventView::EditQuery(v.query)), exit: true, ..v }
}

/// Opening the selected row's table: when a row is selected and has a
/// `table_name`, its text becomes the event and the view closes.
pub open spec fn spec_select_table(v: AppView) -> AppView {
    match v.table_state.selected {
        Some(r) => if r < v.items.len() && v.items[r as int]@.contains_key("table_name"@) {
            AppView {
                event: Some(
                    EventView::SelectTable(
                        spec_format_db_value(v.items[r as int]@["table_name"@]),
                    ),
                ),
                exit: true,
                ..v
            }
        } else {
            v
        },
        None => v,
    }
}

/// What a key press does to the state.
pub open spec fn spec_handle_key(v: AppView, code: KeyCode) -> AppView {
    if code == KeyCode::Char('q') {
        spec_exit(v)
    } else if code == KeyCode::Down || code == KeyCode::Char('j') {
        spec_select_next_row(v)
    } else if code == KeyCode::Up || code == KeyCode::Char('k') {
        spec_select_previous_row(v)
    } else if code == KeyCode::Right || code == KeyCode::Char('l') {
        spec_select_next_column(v)
    } else if code == KeyCode::Left || code == KeyCode::Char('h') {
        spec_select_previous_column(v)
    } else if code == KeyCode::Char('g') {
        spec_select_first_row(v)
    } else if code == KeyCode::Char('G') {
        spec_select_last_row(v)
    } else if code == KeyCode::Char('e') {
        spec_toggle_query_expanded(v)
    } else if code == KeyCode::Char('p') {
        spec_edit_query(v)
    } else if code == KeyCode::Enter {
        match v.command {
            TableCommand::ShowTables => spec_select_table(v),
            TableCommand::ShowValue => spec_toggle_value_expanded(v),
        }
    } else {
        v
    }
}

/// The text a key press asks to copy: the selected value on `y`.
pub open spec fn spec_key_copy(v: AppView, code: KeyCode) -> Option<Seq<char>> {
    if code == KeyCode::Char('y') {
        spec_selected_value(v)
    } else {
        None
    }
}

/// A line of text after a label.
pub struct LabelledText {
    pub label: String,
    pub text: String,
}

pub open spec fn subtitle_view(s: Seq<LabelledText>) -> Seq<(Seq<char>, Seq<char>)> {
    s.map_values(|l: LabelledText| (l.label@, l.text@))
}

/// The query heading: when expanded, one line per line of the query, the
/// first labelled `Query: ` and the others indented as far; otherwise the
/// query on one line after `Query [e to expand]: `.
pub open spec fn spec_subtitle(query: Seq<char>, expanded: bool) -> Seq<(Seq<char>, Seq<char>)> {
    if expanded {
        Seq::new(
            text_lines(query).len(),
            |i: int|
                (
                    if i == 0 {
                        "Query: "@
                    } else {
                        "       "@
                    },
                    text_lines(query)[i],
                ),
        )
    } else {
        seq![("Query [e to expand]: "@, flatten_newlines(query))]
    }
}

/// The rows that a line `width` cells wide takes when wrapped at `avail`
/// cells: the width divided by `avail`, rounded up, and at least one.
pub open spec fn wrapped_height(width: int, avail: int) -> int {
    let q = width / avail;
    let c = if width % avail == 0 {
        q
    } else {
        q + 1
    };
    if c < 1 {
        1
    } else {
        c
    }
}

/// The display widths of labelled lines.
pub open spec fn line_widths(lines: Seq<(Seq<char>, Seq<char>)>) -> Seq<usize> {
    lines.map_values(|l: (Seq<char>, Seq<char>)| line_display_width(l.0, l.1))
}

/// The rows that lines of these widths take together when each is wrapped
/// at `avail` cells.
pub open spec fn sum_wrapped(widths: Seq<usize>, avail: int) -> int
    decreases widths.len(),
{
    if widths.len() == 0 {
        0
    } else {
        sum_wrapped(widths.drop_last(), avail) + wrapped_height(widths.last() as int, avail)
    }
}

/// The rows that the lines take together when wrapped at `avail` cells.
pub open spec fn total_height(lines: Seq<(Seq<char>, Seq<char>)>, avail: int) -> int {
    sum_wrapped(line_widths(lines), avail)
}

pub open spec fn cap_u16(n: int) -> int {
    if n < 65535 {
        n
    } else {
        65535
    }
}

/// The usable width for wrapping: the area's width, at least one.
pub open spec fn available_width(area: Area) -> int {
    if area.width < 1 {
        1
    } else {
        area.width as int
    }
}

/// The rows of the query heading.
pub open spec fn subtitle_height(v: AppView, area: Area) -> int {
    if v.query_expanded {
        cap_u16(total_height(spec_subtitle(v.query, true), available_width(area)))
    } else {
        1
    }
}

/// The value shown in full above the table, when one is expanded.
pub open spec fn expanded_value(v: AppView) -> Option<Seq<char>> {
    if v.value_expanded {
        spec_selected_value(v)
    } else {
        None
    }
}

/// The rows of the expanded value.
pub open spec fn value_height(v: AppView, area: Area) -> int {
    match expanded_value(v) {
        Some(t) => cap_u16(
            wrapped_height(
                line_display_width("Value [Enter to collapse]: "@, t) as int,
                available_width(area),
            ),
        ),
        None => 0,
    }
}

/// The areas of the heading, the value and the table.
pub open spec fn frame_areas(v: AppView, area: Area) -> (Area, Area, Area) {
    vertical_areas(area, subtitle_height(v, area) as u16, value_height(v, area) as u16)
}

/// The state after drawing a frame: the column window follows the
/// selected column and the widget's column selection is set to it. The
/// table gets the full width of the frame.
pub open spec fn spec_after_frame(v: AppView, area: Area) -> AppView {
    let w = spec_column_window(
        table_headers(v.items).len() as usize,
        area.width,
        v.column_offset,
        v.selected_column,
    );
    AppView {
        column_offset: w.column_offset,
        selected_column: w.selected_column,
        table_state: TableSelection {
            selected_column: Some((w.selected_column - w.column_offset) as usize),
            ..v.table_state
        },
        ..v
    }
}

/// What one frame shows, for the caller to draw.
pub struct AppFrame {
    /// The lines of the query heading.
    pub subtitle: Vec<LabelledText>,
    /// Whether the heading wraps (it does when expanded).
    pub wrap_subtitle: bool,
    /// The value shown in full, after the label `Value [Enter to collapse]: `.
    pub value: Option<LabelledText>,
    pub subtitle_area: Area,
    pub value_area: Area,
    pub table_area: Area,
    /// The visible part of the table.
    pub table: TableLayout,
}

/// The expanded value line, labelled.
pub open spec fn value_line(v: AppView) -> Option<(Seq<char>, Seq<char>)> {
    match expanded_value(v) {
        Some(t) => Some(("Value [Enter to collapse]: "@, t)),
        None => None,
    }
}

pub open spec fn labelled_view(o: Option<LabelledText>) -> Option<(Seq<char>, Seq<char>)> {
    match o {
        Some(l) => Some((l.label@, l.text@)),
        None => None,
    }
}

pub open spec fn option_view(o: Option<String>) -> Option<Seq<char>> {
    match o {
        Some(s) => Some(s@),
        None => None,
    }
}

proof fn lemma_inexact_quotient(width: int, avail: int)
    requires
        avail >= 1,
        width >= 0,
        width % avail != 0,
    ensures
        width / avail < width,
{
    assert(avail >= 2) by {
        if avail == 1 {
            assert(width % 1 == 0) by (nonlinear_arith);
        }
    }
    assert(width >= 1) by {
        if width == 0 {
            assert(0int % avail == 0) by (nonlinear_arith)
                requires
                    avail >= 1,
            ;
        }
    }
    assert(width / avail < width) by (nonlinear_arith)
        requires
            avail >= 2,
            width >= 1,
    ;
}

/// `h` rows of `avail` cells hold a line `width` cells wide, and one row
/// fewer would not (an empty line still takes one row).
pub open spec fn rows_hold_exactly(h: int, width: int, avail: int) -> bool {
    &&& h >= 1
    &&& width <= h * avail
    &&& width > 0 ==> (h - 1) * avail < width
}

/// A wrapped line takes just enough rows to hold it.
pub proof fn lemma_wrapped_height_holds(width: int, avail: int)
    requires
        width >= 0,
        avail >= 1,
    ensures
        rows_hold_exactly(wrapped_height(width, avail), width, avail),
{
    let q = width / avail;
    let r = width % avail;
    assert(width == q * avail + r && 0 <= r < avail) by (nonlinear_arith)
        requires
            avail >= 1,
            q == width / avail,
            r == width % avail,
    ;
    assert(q >= 0) by (nonlinear_arith)
        requires
            width >= 0,
            avail >= 1,
            q == width / avail,
    ;
    let h = wrapped_height(width, avail);
    if r == 0 {
        if q < 1 {
            assert(q == 0);
            assert(width == 0) by (nonlinear_arith)
                requires
                    width == q * avail + r,
                    q == 0,
                    r == 0,
            ;
            assert(width <= 1 * avail);
        } else {
            assert(h == q);
            assert((q - 1) * avail < width) by (nonlinear_arith)
                requires
                    width == q * avail,
                    avail >= 1,
            ;
        }
    } else {
        assert(h == q + 1);
        assert(width <= (q + 1) * avail) by (nonlinear_arith)
            requires
                width == q * avail + r,
                r < avail,
        ;
        assert(q * avail < width) by (nonlinear_arith)
            requires
                width == q * avail + r,
                r > 0,
        ;
    }
}

/// The rows that a line `width` cells wide takes when wrapped at `avail`.
pub fn wrapped_rows(width: usize, avail: usize) -> (h: usize)
    requires
        avail >= 1,
    ensures
        h == wrapped_height(width as int, avail as int),
        rows_hold_exactly(h as int, width as int, avail as int),
{
    proof {
        lemma_wrapped_height_holds(width as int, avail as int);
    }
    let q = width / avail;
    let c = if width % avail == 0 {
        q
    } else {
        proof {
            lemma_inexact_quotient(width as int, avail as int);
        }
        q + 1
    };
    if c < 1 {
        1
    } else {
        c
    }
}

/// The rows that a line `width` cells wide takes when wrapped at `avail`,
/// at most `u16::MAX`.
pub fn capped_rows(width: usize, avail: usize) -> (h: u16)
    requires
        avail >= 1,
    ensures
        h == cap_u16(wrapped_height(width as int, avail as int)),
{
    let rows = wrapped_rows(width, avail);
    if rows < 65535 {
        rows as u16
    } else {
        65535
    }
}

/// The rows that lines of these widths take together when each is wrapped
/// at `avail` cells, at most `u16::MAX`.
pub fn stacked_rows(widths: &Vec<usize>, avail: usize) -> (h: u16)
    requires
        avail >= 1,
    ensures
        h == cap_u16(sum_wrapped(widths@, avail as int)),
{
    let mut total: usize = 0;
    let mut i: usize = 0;
    while i < widths.len()
        invariant
            i <= widths@.len(),
            avail >= 1,
            total == cap_u16(sum_wrapped(widths@.take(i as int), avail as int)),
        decreases widths.len() - i,
    {
        let rows = wrapped_rows(widths[i], avail);
        proof {
            assert(widths@.take(i + 1).drop_last() =~= widths@.take(i as int));
            lemma_sum_wrapped_nonnegative(widths@.take(i as int), avail as int);
        }
        total = if rows >= 65535 - total {
            65535
        } else {
            total + rows
        };
        i += 1;
    }
    assert(widths@.take(widths@.len() as int) =~= widths@);
    total as u16
}

proof fn lemma_sum_wrapped_nonnegative(widths: Seq<usize>, avail: int)
    ensures
        sum_wrapped(widths, avail) >= 0,
    decreases widths.len(),
{
    if widths.len() > 0 {
        lemma_sum_wrapped_nonnegative(widths.drop_last(), avail);
    }
}

impl App {
    /// A view of `items` for `query`, with the first row selected when
    /// there is one, everything collapsed, the first column selected.
    pub fn new(items: Vec<ResultRow>, command: TableCommand, query: String) -> (app: Self)
        ensures
            app@ == (AppView {
                items: items@,
                command: command,
                query: query@,
                query_expanded: false,
                value_expanded: false,
                exit: false,
                table_state: TableSelection {
                    offset: 0,
                    selected: if items@.len() > 0 {
                        Some(0)
                    } else {
                        None
                    },
                    selected_column: None,
                },
                column_offset: 0,
                selected_column: 0,
                event: None,
            }),
    {
        let mut table_state = TableSelection::new();
        if items.len() > 0 {
            table_state.select_first();
        }
        App {
            items,
            command,
            query,
            query_expanded: false,
            value_expanded: false,
            exit: false,
            table_state,
            column_offset: 0,
            selected_column: 0,
            event: None,
        }
    }

    /// Whether the view has been asked to close.
    pub fn should_exit(&self) -> (b: bool)
        ensures
            b == self@.exit,
    {
        self.exit
    }

    /// The state of the table widget.
    pub fn table_state(&self) -> (s: TableSelection)
        ensures
            s == self@.table_state,
    {
        self.table_state
    }

    /// The number of rows; it shows that an app's rows fit in `usize`, the
    /// bound that the laws on row moves assume.
    pub fn row_count(&self) -> (n: usize)
        ensures
            n == self@.items.len(),
    {
        self.items.len()
    }

    /// The selected column.
    pub fn selected_column(&self) -> (c: usize)
        ensures
            c == self@.selected_column,
    {
        self.selected_column
    }

    /// The first column on screen.
    pub fn column_offset(&self) -> (c: usize)
        ensures
            c == self@.column_offset,
    {
        self.column_offset
    }

    /// Whether the query heading shows every line of the query.
    pub fn query_expanded(&self) -> (b: bool)
        ensures
            b == self@.query_expanded,
    {
        self.query_expanded
    }

    /// Whether the selected value is shown in full.
    pub fn value_expanded(&self) -> (b: bool)
        ensures
            b == self@.value_expanded,
    {
        self.value_expanded
    }

    /// Stores the widget state as drawing the table left it.
    pub fn record_table_state(&mut self, state: TableSelection)
        ensures
            final(self)@ == (AppView { table_state: state, ..old(self)@ }),
    {
        self.table_state = state;
    }

    /// Hands out the event, leaving none.
    pub fn take_event(&mut self) -> (e: Option<TableEvent>)
        ensures
            event_view(e) == old(self)@.event,
            final(self)@ == (AppView { event: None, ..old(self)@ }),
    {
        self.event.take()
    }

    /// The number of columns (distinct column names), at least one.
    pub fn column_count(&self) -> (n: usize)
        ensures
            n == spec_column_count(self@.items),
    {
        let headers = collect_headers(self.items.as_slice());
        if headers.len() < 1 {
            1
        } else {
            headers.len()
        }
    }

    /// The text of the selected cell (see `spec_selected_value`).
    pub fn selected_value(&self) -> (r: Option<String>)
        ensures
            option_view(r) == spec_selected_value(self@),
    {
        let r = match self.table_state.selected {
            Some(r) => r,
            None => {
                return None;
            },
        };
        if r >= self.items.len() {
            return None;
        }
        let headers = collect_headers(self.items.as_slice());
        if self.selected_column >= headers.len() {
            return None;
        }
        assert(headers@[self.selected_column as int]@ == sorted_keys(self.items@)[self.selected_column as int]);
        Some(cell_string(&self.items[r], &headers[self.selected_column]))
    }

    /// Asks the view to close.
    pub fn exit(&mut self)
        ensures
            final(self)@ == spec_exit(old(self)@),
    {
        self.exit = true;
    }

    /// Shows the query on several lines, or on one.
    pub fn toggle_query_expanded(&mut self)
        ensures
            final(self)@ == spec_toggle_query_expanded(old(self)@),
    {
        self.query_expanded = !self.query_expanded;
    }

    /// Shows the selected value in full, or hides it; nothing happens when
    /// no value is selected.
    pub fn toggle_value_expanded(&mut self)
        ensures
            final(self)@ == spec_toggle_value_expanded(old(self)@),
    {
        if self.selected_value().is_some() {
            self.value_expanded = !self.value_expanded;
        }
    }

    /// Moves the selection one row down, stopping at the last row.
    pub fn select_next_row(&mut self)
        ensures
            final(self)@ == spec_select_next_row(old(self)@),
    {
        if self.items.len() == 0 {
            return;
        }
        let current = match self.table_state.selected {
            Some(r) => r,
            None => 0,
        };
        let last = self.items.len() - 1;
        let next = current.saturating_add(1);
        let next = if next < last {
            next
        } else {
            last
        };
        self.table_state.select(Some(next));
    }

    /// Moves the selection one row up, stopping at the first row.
    pub fn select_previous_row(&mut self)
        ensures
            final(self)@ == spec_select_previous_row(old(self)@),
    {
        if self.items.len() == 0 {
            return;
        }
        let current = match self.table_state.selected {
            Some(r) => r,
            None => 0,
        };
        self.table_state.select(Some(current.saturating_sub(1)));
    }

    /// Moves the column selection right, stopping at the last column.
    pub fn select_next_column(&mut self)
        ensures
            final(self)@ == spec_select_next_column(old(self)@),
    {
        let last_column = self.column_count().saturating_sub(1);
        let next = self.selected_column.saturating_add(1);
        self.selected_column = if next < last_column {
            next
        } else {
            last_column
        };
    }

    /// Moves the column selection left, stopping at the first column.
    pub fn select_previous_column(&mut self)
        ensures
            final(self)@ == spec_select_previous_column(old(self)@),
    {
        self.selected_column = self.selected_column.saturating_sub(1);
    }

    /// Selects the first row, when there are rows.
    pub fn select_first_row(&mut self)
        ensures
            final(self)@ == spec_select_first_row(old(self)@),
    {
        if self.items.len() > 0 {
            self.table_state.select_first();
        }
    }

    /// Selects the last row, when there are rows.
    pub fn select_last_row(&mut self)
        ensures
            final(self)@ == spec_select_last_row(old(self)@),
    {
        if self.items.len() > 0 {
            self.table_state.select_last();
        }
    }

    /// Closes the view asking to edit the query.
    pub fn edit_query(&mut self)
        ensures
            final(self)@ == spec_edit_query(old(self)@),
    {
        self.event = Some(TableEvent::EditQuery(self.query.clone()));
        self.exit();
    }

    /// Closes the view asking to open the selected row's table, when a row
    /// is selected and has a `table_name`.
    pub fn select_table(&mut self)
        ensures
            final(self)@ == spec_select_table(old(self)@),
    {
        let r = match self.table_state.selected {
            Some(r) => r,
            None => {
                return;
            },
        };
        if r >= self.items.len() {
            return;
        }
        let key = String::from_str("table_name");
        let table_name = match self.items[r].get(&key) {
            Some(v) => format_db_value(v),
            None => {
                return;
            },
        };
        self.event = Some(TableEvent::SelectTable(table_name));
        self.exit();
    }

    /// Applies a key press (see `spec_handle_key`); on `y` the selected
    /// value is handed back for the clipboard.
    pub fn handle_key_event(&mut self, code: KeyCode) -> (a: KeyAction)
        ensures
            final(self)@ == spec_handle_key(old(self)@, code),
            action_view(a) == spec_key_copy(old(self)@, code),
    {
        if code == KeyCode::Char('q') {
            self.exit();
            return KeyAction::Nothing;
        }
        match code {
            KeyCode::Down | KeyCode::Char('j') => self.select_next_row(),
            KeyCode::Up | KeyCode::Char('k') => self.select_previous_row(),
            KeyCode::Right | KeyCode::Char('l') => self.select_next_column(),
            KeyCode::Left | KeyCode::Char('h') => self.select_previous_column(),
            KeyCode::Char('g') => self.select_first_row(),
            KeyCode::Char('G') => self.select_last_row(),
            KeyCode::Char('y') => {
                return match self.selected_value() {
                    Some(text) => KeyAction::CopyToClipboard(text),
                    None => KeyAction::Nothing,
                };
            },
            KeyCode::Char('e') => self.toggle_query_expanded(),
            KeyCode::Char('p') => self.edit_query(),
            KeyCode::Enter => match self.command {
                TableCommand::ShowTables => self.select_table(),
                TableCommand::ShowValue => self.toggle_value_expanded(),
            },
            _ => {},
        }
        KeyAction::Nothing
    }

    /// Applies a key event: presses act, repeats and releases do nothing.
    pub fn handle_input(&mut self, code: KeyCode, kind: KeyEventKind) -> (a: KeyAction)
        ensures
            kind == KeyEventKind::Press ==> final(self)@ == spec_handle_key(old(self)@, code)
                && action_view(a) == spec_key_copy(old(self)@, code),
            kind != KeyEventKind::Press ==> final(self)@ == old(self)@ && action_view(a)
                is None,
    {
        if kind == KeyEventKind::Press {
            self.handle_key_event(code)
        } else {
            KeyAction::Nothing
        }
    }

    /// Works out a frame for `area`: the query heading and its height, the
    /// expanded value and its height, the areas they get, and the visible
    /// part of the table; the column window follows the selected column.
    pub fn layout_frame(&mut self, area: Area) -> (f: AppFrame)
        ensures
            subtitle_view(f.subtitle@) == spec_subtitle(old(self)@.query, old(self)@.query_expanded),
            f.wrap_subtitle == old(self)@.query_expanded,
            labelled_view(f.value) == value_line(old(self)@),
            (f.subtitle_area, f.value_area, f.table_area) == frame_areas(old(self)@, area),
            (f.subtitle_area, f.value_area, f.table_area) == vertical_areas(
                area,
                (if f.wrap_subtitle {
                    cap_u16(
                        sum_wrapped(
                            line_widths(subtitle_view(f.subtitle@)),
                            if area.width < 1 {
                                1
                            } else {
                                area.width as int
                            },
                        ),
                    )
                } else {
                    1
                }) as u16,
                (match labelled_view(f.value) {
                    Some(l) => cap_u16(
                        wrapped_height(
                            line_display_width(l.0, l.1) as int,
                            if area.width < 1 {
                                1
                            } else {
                                area.width as int
                            },
                        ),
                    ),
                    None => 0,
                }) as u16,
            ),
            final(self)@ == spec_after_frame(old(self)@, area),
            ({
                let w = spec_column_window(
                    table_headers(old(self)@.items).len() as usize,
                    area.width,
                    old(self)@.column_offset,
                    old(self)@.selected_column,
                );
                &&& views(f.table.headers@) == table_headers(old(self)@.items).subrange(
                    w.column_offset as int,
                    w.visible_end as int,
                )
                &&& grid_view(f.table.rows@) == grid_columns(
                    table_rows(old(self)@.items),
                    w.column_offset as int,
                    w.visible_end as int,
                )
                &&& f.table.selected_visible_column == w.selected_column - w.column_offset
                &&& f.table.selected_visible_column < f.table.headers@.len()
            }),
    {
        let ghost v = self@;
        let avail: usize = if area.width < 1 {
            1
        } else {
            area.width as usize
        };
        let mut subtitle: Vec<LabelledText> = Vec::new();
        let subtitle_rows: u16;
        if self.query_expanded {
            let lines = split_lines(self.query.as_str());
            let ghost all = spec_subtitle(v.query, true);
            let mut widths: Vec<usize> = Vec::new();
            let mut i: usize = 0;
            while i < lines.len()
                invariant
                    i <= lines@.len(),
                    lines@.len() == text_lines(v.query).len(),
                    forall|j: int| 0 <= j < lines@.len() ==> #[trigger] lines@[j]@ == text_lines(v.query)[j],
                    all == spec_subtitle(v.query, true),
                    subtitle_view(subtitle@) =~= all.take(i as int),
                    widths@ =~= line_widths(all.take(i as int)),
                decreases lines.len() - i,
            {
                let prefix = if i == 0 {
                    String::from_str("Query: ")
                } else {
                    String::from_str("       ")
                };
                let text = lines[i].clone();
                widths.push(line_width(prefix.as_str(), text.as_str()));
                let ghost before = subtitle_view(subtitle@);
                subtitle.push(LabelledText { label: prefix, text });
                assert(subtitle_view(subtitle@) =~= before.push(all[i as int]));
                assert(all.take(i + 1) =~= all.take(i as int).push(all[i as int]));
                assert(line_widths(all.take(i + 1)) =~= line_widths(all.take(i as int)).push(
                    line_display_width(all[i as int].0, all[i as int].1),
                ));
                i += 1;
            }
            assert(all.take(lines@.len() as int) =~= all);
            subtitle_rows = stacked_rows(&widths, avail);
        } else {
            let text = replace_newlines(self.query.as_str());
            subtitle.push(LabelledText { label: String::from_str("Query [e to expand]: "), text });
            assert(subtitle_view(subtitle@) =~= spec_subtitle(v.query, false));
            subtitle_rows = 1;
        }
        let value = if self.value_expanded {
            self.selected_value()
        } else {
            None
        };
        let value_rows: u16 = match &value {
            Some(t) => {
                let width = line_width("Value [Enter to collapse]: ", t.as_str());
                capped_rows(width, avail)
            },
            None => 0,
        };
        let (subtitle_area, value_area, table_area) = split_vertically(
            area,
            subtitle_rows,
            value_rows,
        );
        let table = layout_table(
            table_area.width,
            &mut self.column_offset,
            &mut self.selected_column,
            self.items.as_slice(),
        );
        self.table_state.select_column(Some(table.selected_visible_column));
        let value = match value {
            Some(t) => Some(LabelledText { label: String::from_str("Value [Enter to collapse]: "), text: t }),
            None => None,
        };
        AppFrame {
            subtitle,
            wrap_subtitle: self.query_expanded,
            value,
            subtitle_area,
            value_area,
            table_area,
            table,
        }
    }
}

} // verus!
