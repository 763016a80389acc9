use query_table::query::{
    clipboard_message, enter_command, plan_output, ClipboardOutcome, Error, OutputPlan,
    QueryOutputFormat, TableCommand,
};

#[test]
fn enter_command_defaults_to_show_value() {
    assert_eq!(enter_command(&None), TableCommand::ShowValue);
    assert_eq!(enter_command(&Some(vec![])), TableCommand::ShowValue);
    assert_eq!(enter_command(&Some(vec![TableCommand::ShowValue])), TableCommand::ShowValue);
    assert_eq!(
        enter_command(&Some(vec![TableCommand::ShowValue, TableCommand::ShowTables])),
        TableCommand::ShowTables
    );
}

#[test]
fn output_plan_follows_format() {
    assert_eq!(plan_output(QueryOutputFormat::Json, &Some(vec![TableCommand::ShowTables])), OutputPlan::Json);
    assert_eq!(
        plan_output(QueryOutputFormat::Table, &Some(vec![TableCommand::ShowTables])),
        OutputPlan::Table(TableCommand::ShowTables)
    );
    assert_eq!(plan_output(QueryOutputFormat::Table, &None), OutputPlan::Table(TableCommand::ShowValue));
}

#[test]
fn clipboard_messages() {
    assert_eq!(clipboard_message(&ClipboardOutcome::Copied), "Copied selected value");
    assert_eq!(clipboard_message(&ClipboardOutcome::Unavailable), "Clipboard is unavailable");
    assert_eq!(
        clipboard_message(&ClipboardOutcome::Failed("no display".to_string())),
        "Clipboard error: no display"
    );
}

#[test]
fn error_messages() {
    assert_eq!(Error::ExecuteQuery("x".to_string()).message(), "Fail to run the query");
    assert_eq!(Error::RenderTable("y".to_string()).message(), "Fail to render query results");
}
