use cue_shell::cron::CronStatus;
use cue_shell::job::{CancelReason, JobStatus};
use cue_shell::tui::ipc::{ChainInfo, ChainJobInfo};
use cue_shell::tui::main_view::CardStatus;
use cue_shell::tui::status_view::{
    chain_card_status, cron_status_icon, cron_status_text, job_card_status, job_status_icon,
    job_status_text,
};

fn chain(statuses: Vec<JobStatus>) -> ChainInfo {
    ChainInfo {
        id: "CH1".into(),
        pipeline: "build -> test".into(),
        total_jobs: statuses.len(),
        jobs: statuses
            .into_iter()
            .enumerate()
            .map(|(index, status)| ChainJobInfo {
                index,
                pipeline: format!("step {index}"),
                status,
                job_id: None,
                start_scope: None,
                end_scope: None,
                open_hint: None,
            })
            .collect(),
    }
}

#[test]
fn job_status_maps_to_text_icon_and_card_status() {
    assert_eq!(job_status_text(JobStatus::Running), "running");
    assert_eq!(job_status_icon(JobStatus::Killed), "🛑");
    assert_eq!(job_card_status(JobStatus::Done), CardStatus::Success);
    assert_eq!(
        job_card_status(JobStatus::Cancelled(CancelReason::User)),
        CardStatus::Error
    );
}

#[test]
fn chain_card_status_prioritizes_errors_then_running_then_success() {
    assert_eq!(
        chain_card_status(&chain(vec![JobStatus::Done, JobStatus::Failed])),
        CardStatus::Error
    );
    assert_eq!(
        chain_card_status(&chain(vec![JobStatus::Done, JobStatus::Running])),
        CardStatus::Streaming
    );
    assert_eq!(
        chain_card_status(&chain(vec![JobStatus::Done, JobStatus::Done])),
        CardStatus::Success
    );
}

#[test]
fn cron_status_maps_to_text_and_icon() {
    assert_eq!(cron_status_text(CronStatus::Paused), "paused");
    assert_eq!(cron_status_icon(CronStatus::Expired), "⌛");
}
