use cue_shell::cron::CronStatus;
use cue_shell::job::JobStatus;
use cue_shell::tui::ipc::{JobInfo, JobOpenHint};
use cue_shell::tui::record_format::{
    format_cron_trigger_record, format_job_list_snapshot, format_job_record, JobRecord,
};

#[test]
fn job_record_includes_pending_reason_and_scope_side_effects() {
    let warnings = vec!["warning: direct shell syntax".to_string()];
    let text = format_job_record(JobRecord {
        id: "J1",
        status: JobStatus::Done,
        start_scope: Some("S@start"),
        end_scope: Some("S@end"),
        warnings: &warnings,
        pending_reason: Some("gpu: waiting GPU"),
    });

    assert!(text.contains("warning: direct shell syntax"));
    assert!(text.contains("pending reason: gpu: waiting GPU"));
    assert!(text.contains("start scope: S@start"));
    assert!(text.contains("end scope: S@end"));
}

#[test]
fn job_record_marks_same_terminal_scope_as_no_side_effect() {
    let text = format_job_record(JobRecord {
        id: "J1",
        status: JobStatus::Done,
        start_scope: Some("S@same"),
        end_scope: Some("S@same"),
        warnings: &Vec::new(),
        pending_reason: None,
    });

    assert!(text.contains("end scope: no side effect (S@same)"));
}

#[test]
fn job_list_snapshot_formats_pending_reason() {
    let text = format_job_list_snapshot(&vec![JobInfo {
        id: "J1".into(),
        status: JobStatus::Pending,
        pipeline: "train".into(),
        exit_code: None,
        start_scope: None,
        end_scope: None,
        open_hint: JobOpenHint::Stream,
        chain_id: None,
        chain_index: None,
        chain_total: None,
        pending_reason: Some("gpu: waiting GPU".into()),
    }]);

    assert!(text.contains("J1 [pending] train"));
    assert!(text.contains("pending reason: gpu: waiting GPU"));
}

#[test]
fn cron_trigger_record_can_show_waiting_for_snapshot() {
    let text =
        format_cron_trigger_record("C1", "every 5m cargo test", CronStatus::Scheduled, None);

    assert!(text.contains("cron: C1"));
    assert!(text.contains("job: awaiting snapshot"));
}
