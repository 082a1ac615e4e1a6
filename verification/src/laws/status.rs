//! States: what is shown of a job and of a chain.

use vstd::prelude::*;

use crate::cron::CronStatus;
use crate::job::{terminal_status, JobStatus};
use crate::tui::ipc::{ChainInfo, ChainJobInfo};
use crate::tui::main_view::CardStatus;
use crate::tui::status_view::{
    all_done, card_status_of, chain_status, cron_icon, cron_text, job_icon, job_text, some_job,
};

verus! {

/// A card shows success only for a job that is done, an error just for one that
/// failed, was killed or was cancelled, and waits just while the job does.
pub proof fn lemma_card_shows_the_job(status: JobStatus)
    ensures
        card_status_of(status) == CardStatus::Success <==> status == JobStatus::Done,
        card_status_of(status) == CardStatus::Error <==> (status == JobStatus::Failed || status
            == JobStatus::Killed || status is Cancelled),
        card_status_of(status) == CardStatus::Streaming <==> status == JobStatus::Running,
        card_status_of(status) == CardStatus::Pending <==> status == JobStatus::Pending,
{
}

/// A job has come to its end just when its card shows success or an error.
pub proof fn lemma_ended_jobs(status: JobStatus)
    ensures
        terminal_status(status) <==> status != JobStatus::Pending && status != JobStatus::Running,
        terminal_status(status) <==> card_status_of(status) == CardStatus::Success
            || card_status_of(status) == CardStatus::Error,
{
}

/// A job of the chain is in a state in which it has gone wrong.
pub open spec fn gone_wrong(job: ChainJobInfo) -> bool {
    job.status == JobStatus::Failed || job.status == JobStatus::Killed || job.status is Cancelled
}

/// A chain shows an error just when one of its jobs has gone wrong, success just when
/// all of its jobs are there and done, and that it runs just when a job runs and none has
/// gone wrong.
pub proof fn lemma_chain_shows_its_jobs(chain: ChainInfo)
    ensures
        chain_status(chain) == CardStatus::Error <==> exists|i: int|
            0 <= i < chain.jobs@.len() && gone_wrong(#[trigger] chain.jobs@[i]),
        chain_status(chain) == CardStatus::Success <==> chain.jobs@.len() > 0
            && chain.jobs@.len() == chain.total_jobs && forall|i: int|
            0 <= i < chain.jobs@.len() ==> (#[trigger] chain.jobs@[i]).status == JobStatus::Done,
        chain_status(chain) == CardStatus::Streaming <==> (exists|i: int|
            0 <= i < chain.jobs@.len() && (#[trigger] chain.jobs@[i]).status == JobStatus::Running)
            && forall|i: int|
            0 <= i < chain.jobs@.len() ==> !gone_wrong(#[trigger] chain.jobs@[i]),
{
    let jobs = chain.jobs@;
    assert forall|i: int| 0 <= i < jobs.len() implies (gone_wrong(#[trigger] jobs[i])
        <==> card_status_of(jobs[i].status) == CardStatus::Error) by {
        lemma_card_shows_the_job(jobs[i].status);
    }
    assert forall|i: int| 0 <= i < jobs.len() implies ((#[trigger] jobs[i]).status
        == JobStatus::Running <==> card_status_of(jobs[i].status) == CardStatus::Streaming) by {
        lemma_card_shows_the_job(jobs[i].status);
    }
    if exists|i: int| 0 <= i < jobs.len() && gone_wrong(#[trigger] jobs[i]) {
        let i = choose|i: int| 0 <= i < jobs.len() && gone_wrong(#[trigger] jobs[i]);
        assert(card_status_of(jobs[i].status) == CardStatus::Error);
        assert(some_job(jobs, CardStatus::Error));
        assert(jobs[i].status != JobStatus::Done);
    }
    if some_job(jobs, CardStatus::Error) {
        let i = choose|i: int|
            0 <= i < jobs.len() && card_status_of((#[trigger] jobs[i]).status)
                == CardStatus::Error;
        assert(gone_wrong(jobs[i]));
    }
    if exists|i: int| 0 <= i < jobs.len() && (#[trigger] jobs[i]).status == JobStatus::Running {
        let i = choose|i: int|
            0 <= i < jobs.len() && (#[trigger] jobs[i]).status == JobStatus::Running;
        assert(card_status_of(jobs[i].status) == CardStatus::Streaming);
        assert(some_job(jobs, CardStatus::Streaming));
    }
    if some_job(jobs, CardStatus::Streaming) {
        let i = choose|i: int|
            0 <= i < jobs.len() && card_status_of((#[trigger] jobs[i]).status)
                == CardStatus::Streaming;
        assert(jobs[i].status == JobStatus::Running);
    }
    if all_done(jobs) {
        assert(!some_job(jobs, CardStatus::Error));
        assert(!some_job(jobs, CardStatus::Streaming));
    }
}

/// Each state of a job has its own word and its own icon.
pub proof fn lemma_job_states_told_apart(a: JobStatus, b: JobStatus)
    ensures
        job_text(a) == job_text(b) <==> a == b,
        job_icon(a) == job_icon(b) <==> a == b,
        job_text(JobStatus::Pending) == "pending"@,
        job_text(JobStatus::Running) == "running"@,
        job_text(JobStatus::Done) == "done"@,
        job_text(JobStatus::Failed) == "failed"@,
        job_text(JobStatus::Killed) == "killed"@,
        a is Cancelled ==> job_text(a) == "cancelled(user)"@,
        job_icon(JobStatus::Done) == "✅"@,
        job_icon(JobStatus::Failed) == "❌"@,
        job_icon(JobStatus::Running) == "🔄"@,
        job_icon(JobStatus::Pending) == "⏳"@,
        job_icon(JobStatus::Killed) == "🛑"@,
        a is Cancelled ==> job_icon(a) == "⏹"@,
{
    reveal_strlit("pending");
    reveal_strlit("running");
    reveal_strlit("done");
    reveal_strlit("failed");
    reveal_strlit("killed");
    reveal_strlit("cancelled(user)");
    assert("pending"@[0] == 'p' && "running"@[0] == 'r' && "done"@[0] == 'd' && "failed"@[0] == 'f'
        && "killed"@[0] == 'k' && "cancelled(user)"@[0] == 'c');
    reveal_strlit("⏳");
    reveal_strlit("🔄");
    reveal_strlit("✅");
    reveal_strlit("❌");
    reveal_strlit("🛑");
    reveal_strlit("⏹");
    assert("⏳"@[0] == '⏳' && "🔄"@[0] == '🔄' && "✅"@[0] == '✅' && "❌"@[0] == '❌' && "🛑"@[0]
        == '🛑' && "⏹"@[0] == '⏹');
}

/// Each state of a cron has its own word and its own icon.
pub proof fn lemma_cron_states_told_apart(a: CronStatus, b: CronStatus)
    ensures
        cron_text(a) == cron_text(b) <==> a == b,
        cron_icon(a) == cron_icon(b) <==> a == b,
        cron_text(CronStatus::Scheduled) == "scheduled"@,
        cron_text(CronStatus::Paused) == "paused"@,
        cron_text(CronStatus::Completed) == "completed"@,
        cron_text(CronStatus::Expired) == "expired"@,
        cron_text(CronStatus::Failed) == "failed"@,
        cron_icon(CronStatus::Scheduled) == "⏰"@,
        cron_icon(CronStatus::Paused) == "⏸"@,
        cron_icon(CronStatus::Completed) == "✅"@,
        cron_icon(CronStatus::Expired) == "⌛"@,
        cron_icon(CronStatus::Failed) == "✖"@,
{
    reveal_strlit("scheduled");
    reveal_strlit("paused");
    reveal_strlit("completed");
    reveal_strlit("expired");
    reveal_strlit("failed");
    assert("scheduled"@[0] == 's' && "paused"@[0] == 'p' && "completed"@[0] == 'c' && "expired"@[0]
        == 'e' && "failed"@[0] == 'f');
    reveal_strlit("⏰");
    reveal_strlit("⏸");
    reveal_strlit("✅");
    reveal_strlit("⌛");
    reveal_strlit("✖");
    assert("⏰"@[0] == '⏰' && "⏸"@[0] == '⏸' && "✅"@[0] == '✅' && "⌛"@[0] == '⌛' && "✖"@[0]
        == '✖');
}

} // verus!
