use cue_shell::parser::resolved::ScriptSource;
use cue_shell::tui::ipc::ScriptRunStatus;
use cue_shell::tui::script_summary::{format_finished, format_submission, summarize_source};

#[test]
fn submission_format_includes_file_source() {
    let text = format_submission(
        &ScriptSource::File {
            path: "scripts/build.cue".into(),
        },
        &Vec::new(),
        &None,
    );
    assert!(text.contains("submitted 0 item(s)"));
    assert!(text.contains("source: scripts/build.cue"));
}

#[test]
fn finished_format_includes_exit_and_failed_item() {
    let text = format_finished(ScriptRunStatus::Failed, 2, Some(1));
    assert!(text.contains("exit=2"));
    assert!(text.contains("failed at item 2"));
}

#[test]
fn source_summary_compacts_and_truncates_whitespace() {
    let source = "echo    one\n  two";
    assert_eq!(summarize_source(source), "echo one two");

    let long = "x".repeat(100);
    assert_eq!(summarize_source(&long), format!("{}...", "x".repeat(96)));
}
