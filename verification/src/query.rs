//! The query command's options, events and errors.

use vstd::prelude::*;
use vstd::string::StringExecFns;

verus! {

/// How the rows of a query are shown.
#[derive(Clone, Copy, Debug, PartialEq, Eq, Structural)]
pub enum QueryOutputFormat {
    Table,
    Json,
}

/// What the Enter key does in the table.
#[derive(Clone, Copy, Debug, PartialEq, Eq, Structural)]
pub enum TableCommand {
    /// Show the selected value in full.
    ShowValue,
    /// Take the selected row's `table_name` as the table to open.
    ShowTables,
}

/// What the table view asks of its caller when it closes.
pub enum TableEvent {
    /// Edit the query, which is given.
    EditQuery(String),
    /// Open the table with the given name.
    SelectTable(String),
}

/// A table event with its text as characters.
pub enum EventView {
    EditQuery(Seq<char>),
    SelectTable(Seq<char>),
}

impl View for TableEvent {
    type V = EventView;

    open spec fn view(&self) -> EventView {
        match self {
            TableEvent::EditQuery(q) => EventView::EditQuery(q@),
            TableEvent::SelectTable(t) => EventView::SelectTable(t@),
        }
    }
}

/// The view of an optional event.
pub open spec fn event_view(e: Option<TableEvent>) -> Option<EventView> {
    match e {
        Some(ev) => Some(ev@),
        None => None,
    }
}

/// Why the query command failed; each variant carries the text of the
/// underlying error.
pub enum Error {
    ExecuteQuery(String),
    RenderTable(String),
}

pub open spec fn spec_error_message(e: Error) -> Seq<char> {
    match e {
        Error::ExecuteQuery(_) => "Fail to run the query"@,
        Error::RenderTable(_) => "Fail to render query results"@,
    }
}

impl Error {
    /// The message shown for the error.
    pub fn message(&self) -> (m: String)
        ensures
            m@ == spec_error_message(*self),
    {
        match self {
            Error::ExecuteQuery(_) => String::from_str("Fail to run the query"),
            Error::RenderTable(_) => String::from_str("Fail to render query results"),
        }
    }
}

/// Whether the list holds `ShowTables`.
pub open spec fn lists_show_tables(commands: Seq<TableCommand>) -> bool {
    exists|i: int| 0 <= i < commands.len() && commands[i] == TableCommand::ShowTables
}

/// The command that Enter runs, given the table commands of the invocation:
/// `ShowTables` when they name it, `ShowValue` otherwise and when none are
/// given.
pub open spec fn spec_enter_command(commands: Option<Seq<TableCommand>>) -> TableCommand {
    match commands {
        Some(cs) => if lists_show_tables(cs) {
            TableCommand::ShowTables
        } else {
            TableCommand::ShowValue
        },
        None => TableCommand::ShowValue,
    }
}

/// The commands of an invocation as a sequence.
pub open spec fn commands_view(commands: Option<Vec<TableCommand>>) -> Option<Seq<TableCommand>> {
    match commands {
        Some(v) => Some(v@),
        None => None,
    }
}

/// The command that Enter runs (see `spec_enter_command`).
pub fn enter_command(table_commands: &Option<Vec<TableCommand>>) -> (c: TableCommand)
    ensures
        c == spec_enter_command(commands_view(*table_commands)),
{
    match table_commands {
        None => TableCommand::ShowValue,
        Some(cs) => {
            let mut i: usize = 0;
            while i < cs.len()
                invariant
                    i <= cs@.len(),
                    commands_view(*table_commands) == Some(cs@),
                    forall|j: int| 0 <= j < i ==> cs@[j] != TableCommand::ShowTables,
                decreases cs.len() - i,
            {
                if cs[i] == TableCommand::ShowTables {
                    assert(lists_show_tables(cs@)) by {
                        assert(cs@[i as int] == TableCommand::ShowTables);
                    }
                    return TableCommand::ShowTables;
                }
                i += 1;
            }
            TableCommand::ShowValue
        },
    }
}

/// What happens to the rows of a query.
#[derive(Clone, Copy, Debug, PartialEq, Eq, Structural)]
pub enum OutputPlan {
    /// Browse them in the table view, with this command on Enter.
    Table(TableCommand),
    /// Print them as JSON.
    Json,
}

/// What the query command does with its rows: the table view (with the
/// Enter command of `enter_command`) or JSON output.
pub fn plan_output(format: QueryOutputFormat, table_commands: &Option<Vec<TableCommand>>) -> (p: OutputPlan)
    ensures
        p == match format {
            QueryOutputFormat::Table => OutputPlan::Table(
                spec_enter_command(commands_view(*table_commands)),
            ),
            QueryOutputFormat::Json => OutputPlan::Json,
        },
{
    match format {
        QueryOutputFormat::Table => OutputPlan::Table(enter_command(table_commands)),
        QueryOutputFormat::Json => OutputPlan::Json,
    }
}

/// How copying to the clipboard went.
pub enum ClipboardOutcome {
    /// There is no clipboard.
    Unavailable,
    /// The text was copied.
    Copied,
    /// The clipboard refused; the error's text.
    Failed(String),
}

pub open spec fn spec_clipboard_message(outcome: ClipboardOutcome) -> Seq<char> {
    match outcome {
        ClipboardOutcome::Unavailable => "Clipboard is unavailable"@,
        ClipboardOutcome::Copied => "Copied selected value"@,
        ClipboardOutcome::Failed(e) => "Clipboard error: "@ + e@,
    }
}

/// The message printed after copying the selected value.
pub fn clipboard_message(outcome: &ClipboardOutcome) -> (m: String)
    ensures
        m@ == spec_clipboard_message(*outcome),
{
    match outcome {
        ClipboardOutcome::Unavailable => String::from_str("Clipboard is unavailable"),
        ClipboardOutcome::Copied => String::from_str("Copied selected value"),
        ClipboardOutcome::Failed(e) => {
            let mut m = String::from_str("Clipboard error: ");
            m.append(e.as_str());
            m
        },
    }
}

} // verus!
