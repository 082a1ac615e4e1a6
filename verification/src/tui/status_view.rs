//! States as text, icons and card states.

use vstd::prelude::*;
use vstd::string::*;

use crate::cron::CronStatus;
use crate::job::{CancelReason, JobStatus};
use crate::text::Text;
use crate::tui::ipc::{ChainInfo, ChainJobInfo};
use crate::tui::main_view::CardStatus;

verus! {

pub open spec fn job_text(status: JobStatus) -> Text {
    match status {
        JobStatus::Pending => "pending"@,
        JobStatus::Running => "running"@,
        JobStatus::Done => "done"@,
        JobStatus::Failed => "failed"@,
        JobStatus::Killed => "killed"@,
        JobStatus::Cancelled(CancelReason::User) => "cancelled(user)"@,
    }
}

pub fn job_status_text(status: JobStatus) -> (r: String)
    ensures
        r@ == job_text(status),
{
    match status {
        JobStatus::Pending => "pending".to_owned(),
        JobStatus::Running => "running".to_owned(),
        JobStatus::Done => "done".to_owned(),
        JobStatus::Failed => "failed".to_owned(),
        JobStatus::Killed => "killed".to_owned(),
        JobStatus::Cancelled(CancelReason::User) => "cancelled(user)".to_owned(),
    }
}

pub open spec fn cron_text(status: CronStatus) -> Text {
    match status {
        CronStatus::Scheduled => "scheduled"@,
        CronStatus::Paused => "paused"@,
        CronStatus::Completed => "completed"@,
        CronStatus::Expired => "expired"@,
        CronStatus::Failed => "failed"@,
    }
}

pub fn cron_status_text(status: CronStatus) -> (r: &'static str)
    ensures
        r@ == cron_text(status),
{
    match status {
        CronStatus::Scheduled => "scheduled",
        CronStatus::Paused => "paused",
        CronStatus::Completed => "completed",
        CronStatus::Expired => "expired",
        CronStatus::Failed => "failed",
    }
}

pub open spec fn card_status_of(status: JobStatus) -> CardStatus {
    match status {
        JobStatus::Pending => CardStatus::Pending,
        JobStatus::Running => CardStatus::Streaming,
        JobStatus::Done => CardStatus::Success,
        JobStatus::Failed => CardStatus::Error,
        JobStatus::Killed => CardStatus::Error,
        JobStatus::Cancelled(_) => CardStatus::Error,
    }
}

pub fn job_card_status(status: JobStatus) -> (r: CardStatus)
    ensures
        r == card_status_of(status),
{
    match status {
        JobStatus::Pending => CardStatus::Pending,
        JobStatus::Running => CardStatus::Streaming,
        JobStatus::Done => CardStatus::Success,
        JobStatus::Failed => CardStatus::Error,
        JobStatus::Killed => CardStatus::Error,
        JobStatus::Cancelled(_) => CardStatus::Error,
    }
}

/// Whether one of the jobs has a state whose card state is this.
pub open spec fn some_job(jobs: Seq<ChainJobInfo>, status: CardStatus) -> bool {
    exists|i: int| 0 <= i < jobs.len() && card_status_of((#[trigger] jobs[i]).status) == status
}

/// Whether all jobs are done.
pub open spec fn all_done(jobs: Seq<ChainJobInfo>) -> bool {
    forall|i: int| 0 <= i < jobs.len() ==> (#[trigger] jobs[i]).status == JobStatus::Done
}

/// The state of a chain: an error before a running job, success once all jobs
/// are done.
pub open spec fn chain_status(chain: ChainInfo) -> CardStatus {
    let jobs = chain.jobs@;
    if some_job(jobs, CardStatus::Error) {
        CardStatus::Error
    } else if some_job(jobs, CardStatus::Streaming) {
        CardStatus::Streaming
    } else if chain.total_jobs > 0 && jobs.len() == chain.total_jobs && all_done(jobs) {
        CardStatus::Success
    } else {
        CardStatus::Pending
    }
}

fn has_job(jobs: &Vec<ChainJobInfo>, status: CardStatus) -> (r: bool)
    ensures
        r == some_job(jobs@, status),
{
    let mut i: usize = 0;
    while i < jobs.len()
        invariant
            i <= jobs@.len(),
            forall|j: int| 0 <= j < i ==> card_status_of((#[trigger] jobs@[j]).status) != status,
        decreases jobs@.len() - i,
    {
        if job_card_status(jobs[i].status) == status {
            return true;
        }
        i = i + 1;
    }
    false
}

fn are_all_done(jobs: &Vec<ChainJobInfo>) -> (r: bool)
    ensures
        r == all_done(jobs@),
{
    let mut i: usize = 0;
    while i < jobs.len()
        invariant
            i <= jobs@.len(),
            forall|j: int| 0 <= j < i ==> (#[trigger] jobs@[j]).status == JobStatus::Done,
        decreases jobs@.len() - i,
    {
        if jobs[i].status != JobStatus::Done {
            return false;
        }
        i = i + 1;
    }
    true
}

pub fn chain_card_status(chain: &ChainInfo) -> (r: CardStatus)
    ensures
        r == chain_status(*chain),
{
    if has_job(&chain.jobs, CardStatus::Error) {
        return CardStatus::Error;
    }
    if has_job(&chain.jobs, CardStatus::Streaming) {
        return CardStatus::Streaming;
    }
    if chain.total_jobs > 0 && chain.jobs.len() == chain.total_jobs && are_all_done(&chain.jobs) {
        return CardStatus::Success;
    }
    CardStatus::Pending
}

pub open spec fn job_icon(status: JobStatus) -> Text {
    match status {
        JobStatus::Pending => "⏳"@,
        JobStatus::Running => "🔄"@,
        JobStatus::Done => "✅"@,
        JobStatus::Failed => "❌"@,
        JobStatus::Killed => "🛑"@,
        JobStatus::Cancelled(_) => "⏹"@,
    }
}

pub fn job_status_icon(status: JobStatus) -> (r: &'static str)
    ensures
        r@ == job_icon(status),
{
    match status {
        JobStatus::Pending => "⏳",
        JobStatus::Running => "🔄",
        JobStatus::Done => "✅",
        JobStatus::Failed => "❌",
        JobStatus::Killed => "🛑",
        JobStatus::Cancelled(_) => "⏹",
    }
}

pub open spec fn cron_icon(status: CronStatus) -> Text {
    match status {
        CronStatus::Scheduled => "⏰"@,
        CronStatus::Paused => "⏸"@,
        CronStatus::Completed => "✅"@,
        CronStatus::Expired => "⌛"@,
        CronStatus::Failed => "✖"@,
    }
}

pub fn cron_status_icon(status: CronStatus) -> (r: &'static str)
    ensures
        r@ == cron_icon(status),
{
    match status {
        CronStatus::Scheduled => "⏰",
        CronStatus::Paused => "⏸",
        CronStatus::Completed => "✅",
        CronStatus::Expired => "⌛",
        CronStatus::Failed => "✖",
    }
}

} // verus!
