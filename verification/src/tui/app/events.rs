//! What the daemon tells without being asked.

use vstd::prelude::*;
use vstd::string::*;

use super::rows::{crons_without, jobs_without, remove_cron, remove_job, CronRow, JobRow};
use super::state::{AppModel, AppState};
use super::tables::{card_of, remove_cron_card, without_card_of, without_cron_card};
use crate::job::JobStatus;
use crate::text;
use crate::text::Text;
use crate::tui::ipc::{ChainInfo, ChainJobInfo, EventPayload, JobOpenHint};
use crate::tui::main_view::{chain_step, chain_step_label, CardStatus, MainViewMsg};
use crate::tui::status_bar::{StatusBar, StatusBarMsg};

verus! {

/// The first job from `i` on that runs.
pub open spec fn running_from(jobs: Seq<ChainJobInfo>, i: int) -> Option<int>
    decreases jobs.len() - i,
{
    if !(0 <= i < jobs.len()) {
        None
    } else if jobs[i].status == JobStatus::Running {
        Some(i)
    } else {
        running_from(jobs, i + 1)
    }
}

/// One more than the last of the first `n` jobs that is done; none if none is.
pub open spec fn done_before(jobs: Seq<ChainJobInfo>, n: int) -> int
    decreases n,
{
    if n <= 0 || n > jobs.len() {
        0
    } else if jobs[n - 1].status == JobStatus::Done {
        n
    } else {
        done_before(jobs, n - 1)
    }
}

/// The step that a chain starts with.
pub open spec fn first_step(chain: ChainInfo) -> int {
    match running_from(chain.jobs@, 0) {
        Some(i) => i,
        None => 0,
    }
}

/// The step that a chain is at: the job that runs, or the one behind those that
/// are done, but no later than the last.
pub open spec fn current_step(chain: ChainInfo) -> int {
    let step = match running_from(chain.jobs@, 0) {
        Some(i) => i,
        None => done_before(chain.jobs@, chain.jobs@.len() as int),
    };
    let last = if chain.total_jobs >= 1 {
        chain.total_jobs - 1
    } else {
        0
    };
    if step <= last {
        step
    } else {
        last
    }
}

fn find_running(jobs: &Vec<ChainJobInfo>) -> (r: Option<usize>)
    ensures
        match r {
            Some(i) => running_from(jobs@, 0) == Some(i as int),
            None => running_from(jobs@, 0) is None,
        },
{
    let mut i: usize = 0;
    while i < jobs.len()
        invariant
            i <= jobs@.len(),
            running_from(jobs@, 0) == running_from(jobs@, i as int),
        decreases jobs@.len() - i,
    {
        if let JobStatus::Running = jobs[i].status {
            return Some(i);
        }
        i = i + 1;
    }
    None
}

fn count_done(jobs: &Vec<ChainJobInfo>) -> (r: usize)
    ensures
        r == done_before(jobs@, jobs@.len() as int),
{
    let mut n: usize = jobs.len();
    while n > 0
        invariant
            n <= jobs@.len(),
            done_before(jobs@, jobs@.len() as int) == done_before(jobs@, n as int),
        decreases n,
    {
        if let JobStatus::Done = jobs[n - 1].status {
            return n;
        }
        n = n - 1;
    }
    0
}

impl AppModel {
    /// With the step that a chain is at on its card.
    pub open spec fn with_chain_step(self, chain_id: Text, step: int, total: usize) -> AppModel {
        match card_of(self.chain_cards, chain_id) {
            Some(card) => if total > 1 {
                AppModel {
                    main_view: self.main_view.with_chain_label(
                        card as int,
                        chain_step(chain_id, step, total as int),
                    ),
                    ..self
                }
            } else {
                self
            },
            None => self,
        }
    }

    pub open spec fn chain_finished(self, chain_id: Text, success: bool) -> AppModel {
        match card_of(self.chain_cards, chain_id) {
            Some(card) => AppModel {
                main_view: self.main_view.with_status(
                    card as int,
                    if success {
                        CardStatus::Success
                    } else {
                        CardStatus::Error
                    },
                ),
                ..self
            },
            None => self,
        }
    }

    pub open spec fn job_started(
        self,
        job_id: Text,
        pipeline: Text,
        start_scope: Option<Text>,
        open_hint: JobOpenHint,
        chain_id: Option<Text>,
        chain_index: Option<usize>,
        chain_total: Option<usize>,
    ) -> AppModel {
        let s = self.with_job(job_id, pipeline, JobStatus::Running, start_scope, open_hint);
        let s = match (chain_id, chain_index, chain_total) {
            (Some(c), Some(i), Some(total)) => s.with_chain_step(c, i as int, total),
            _ => s,
        };
        s.with_trigger_shown(job_id).with_items()
    }

    pub open spec fn job_removed(self, job_id: Text) -> AppModel {
        AppModel {
            jobs: jobs_without(self.jobs, job_id),
            job_cards: without_card_of(self.job_cards, job_id),
            cron_job_cards: without_cron_card(self.cron_job_cards, job_id),
            ..self
        }.with_items()
    }

    pub open spec fn cron_triggered(self, cron_id: Text, job_id: Text) -> AppModel {
        self.with_trigger_card(cron_id, job_id).with_trigger_shown(job_id).with_cron_snapshot()
    }

    pub open spec fn cron_removed(self, cron_id: Text) -> AppModel {
        AppModel { crons: crons_without(self.crons, cron_id), ..self }.with_triggers_shown(
            Some(cron_id),
        ).with_items()
    }

    pub open spec fn shutting_down(self, reason: Text) -> AppModel {
        AppModel {
            main_view: self.main_view.with_appended("⚠ Daemon shutting down: "@ + reason),
            connected: false,
            status_bar: StatusBar { connected: false, ..self.status_bar },
            ..self
        }
    }

    /// After an event.
    #[verifier::opaque]
    pub open spec fn told(self, event: EventPayload) -> AppModel {
        match event {
            EventPayload::OutputChunk { id, stream, data } => AppModel {
                display: self.display.with_appended(id@, stream, data@),
                ..self
            },
            EventPayload::OutputEof { id } => self,
            EventPayload::JobCreated {
                job_id,
                pipeline,
                start_scope,
                open_hint,
                chain_id,
                chain_index,
                chain_total,
            } => self.job_started(
                job_id@,
                pipeline@,
                text::opt_text(start_scope),
                open_hint,
                text::opt_text(chain_id),
                chain_index,
                chain_total,
            ),
            EventPayload::JobStateChanged {
                job_id,
                old_state,
                new_state,
                end_scope,
                chain_id,
                chain_index,
            } => self.with_job_status(job_id@, new_state, text::opt_text(end_scope)).with_items(),
            EventPayload::JobRemoved { job_id } => self.job_removed(job_id@),
            EventPayload::ChainStarted { chain } => self.with_chain_step(
                chain.id@,
                first_step(chain),
                chain.total_jobs,
            ),
            EventPayload::ChainProgress { chain } => self.with_chain_step(
                chain.id@,
                current_step(chain),
                chain.total_jobs,
            ),
            EventPayload::ChainFinished { chain_id, success } => self.chain_finished(
                chain_id@,
                success,
            ),
            EventPayload::FgOutput { data } => self.fg_fed(data@),
            EventPayload::FgExited { id, reason } => self.fg_finished(id@, reason@),
            EventPayload::CronTriggered { cron_id, job_id } => self.cron_triggered(
                cron_id@,
                job_id@,
            ),
            EventPayload::CronRemoved { cron_id } => self.cron_removed(cron_id@),
            EventPayload::ShuttingDown { reason } => self.shutting_down(reason@),
            EventPayload::Other => self,
        }
    }
}

impl AppState {
    fn label_chain_step(&mut self, chain_id: &str, step: usize, total: usize)
        ensures
            final(self)@ == old(self)@.with_chain_step(chain_id@, step as int, total),
            old(self).wf() ==> final(self).wf(),
    {
        if let Some(card) = self.chain_cards.get(chain_id) {
            if total > 1 {
                let label = chain_step_label(chain_id, step, total);
                self.main_view.set_card_chain_label(card, label);
            }
        }
    }

    fn on_chain_started(&mut self, chain: &ChainInfo)
        ensures
            final(self)@ == old(self)@.with_chain_step(
                chain.id@,
                first_step(*chain),
                chain.total_jobs,
            ),
            old(self).wf() ==> final(self).wf(),
    {
        let step: usize = match find_running(&chain.jobs) {
            Some(i) => i,
            None => 0,
        };
        self.label_chain_step(chain.id.as_str(), step, chain.total_jobs);
    }

    fn on_chain_progress(&mut self, chain: &ChainInfo)
        ensures
            final(self)@ == old(self)@.with_chain_step(
                chain.id@,
                current_step(*chain),
                chain.total_jobs,
            ),
            old(self).wf() ==> final(self).wf(),
    {
        let step: usize = match find_running(&chain.jobs) {
            Some(i) => i,
            None => count_done(&chain.jobs),
        };
        let last: usize = if chain.total_jobs >= 1 {
            chain.total_jobs - 1
        } else {
            0
        };
        let shown: usize = if step <= last {
            step
        } else {
            last
        };
        self.label_chain_step(chain.id.as_str(), shown, chain.total_jobs);
    }

    fn on_job_started(
        &mut self,
        job_id: String,
        pipeline: String,
        start_scope: Option<String>,
        open_hint: JobOpenHint,
        chain_id: &Option<String>,
        chain_index: Option<usize>,
        chain_total: Option<usize>,
    )
        ensures
            final(self)@ == old(self)@.job_started(
                job_id@,
                pipeline@,
                text::opt_text(start_scope),
                open_hint,
                text::opt_text(*chain_id),
                chain_index,
                chain_total,
            ),
            old(self).wf() ==> final(self).wf(),
    {
        let id = job_id.clone();
        self.upsert_job(job_id, pipeline, JobStatus::Running, start_scope, open_hint);
        if let (Some(c), Some(i), Some(total)) = (chain_id, chain_index, chain_total) {
            self.label_chain_step(c.as_str(), i, total);
        }
        self.refresh_cron_trigger_card(id.as_str());
        self.sync_sidebar_items();
    }

    fn on_job_removed(&mut self, job_id: &str)
        ensures
            final(self)@ == old(self)@.job_removed(job_id@),
            old(self).wf() ==> final(self).wf(),
    {
        let mut jobs: Vec<JobRow> = Vec::new();
        std::mem::swap(&mut jobs, &mut self.jobs);
        self.jobs = remove_job(jobs, job_id);
        self.job_cards.remove(job_id);
        remove_cron_card(&mut self.cron_job_cards, job_id);
        self.sync_sidebar_items();
    }

    fn on_chain_finished(&mut self, chain_id: &str, success: bool)
        ensures
            final(self)@ == old(self)@.chain_finished(chain_id@, success),
            old(self).wf() ==> final(self).wf(),
    {
        if let Some(card) = self.chain_cards.get(chain_id) {
            let status = if success {
                CardStatus::Success
            } else {
                CardStatus::Error
            };
            self.main_view.set_card_status(card, status);
        }
    }

    fn on_cron_triggered(&mut self, cron_id: &str, job_id: &str)
        ensures
            final(self)@ == old(self)@.cron_triggered(cron_id@, job_id@),
            old(self).wf() ==> final(self).wf(),
    {
        self.ensure_cron_trigger_card(cron_id, job_id);
        self.refresh_cron_trigger_card(job_id);
        self.request_cron_snapshot();
    }

    fn on_cron_removed(&mut self, cron_id: &str)
        ensures
            final(self)@ == old(self)@.cron_removed(cron_id@),
            old(self).wf() ==> final(self).wf(),
    {
        let mut crons: Vec<CronRow> = Vec::new();
        std::mem::swap(&mut crons, &mut self.crons);
        self.crons = remove_cron(crons, cron_id);
        self.refresh_cron_cards_for_cron(cron_id);
        self.sync_sidebar_items();
    }

    fn on_shutting_down(&mut self, reason: &str)
        ensures
            final(self)@ == old(self)@.shutting_down(reason@),
            old(self).wf() ==> final(self).wf(),
    {
        self.main_view.update(
            MainViewMsg::AppendOutput { data: text::concat2("⚠ Daemon shutting down: ", reason) },
        );
        self.connected = false;
        self.status_bar.update(StatusBarMsg::SetConnected(false));
    }

    /// Takes an event of the daemon.
    pub(crate) fn on_event(&mut self, event: EventPayload)
        requires
            old(self).wf(),
        ensures
            final(self).wf(),
            final(self)@ == old(self)@.told(event),
    {
        proof {
            reveal(AppModel::told);
        }
        match event {
            EventPayload::OutputChunk { id, stream, data } => {
                self.display.append_output(id.as_str(), stream, data.as_str());
            },
            EventPayload::OutputEof { .. } => {},
            EventPayload::JobCreated {
                job_id,
                pipeline,
                start_scope,
                open_hint,
                chain_id,
                chain_index,
                chain_total,
            } => {
                self.on_job_started(
                    job_id,
                    pipeline,
                    start_scope,
                    open_hint,
                    &chain_id,
                    chain_index,
                    chain_total,
                );
            },
            EventPayload::JobStateChanged { job_id, new_state, end_scope, .. } => {
                self.update_job_status(job_id.as_str(), new_state, end_scope);
                self.sync_sidebar_items();
            },
            EventPayload::JobRemoved { job_id } => {
                self.on_job_removed(job_id.as_str());
            },
            EventPayload::ChainStarted { chain } => {
                self.on_chain_started(&chain);
            },
            EventPayload::ChainProgress { chain } => {
                self.on_chain_progress(&chain);
            },
            EventPayload::ChainFinished { chain_id, success } => {
                self.on_chain_finished(chain_id.as_str(), success);
            },
            EventPayload::FgOutput { data } => {
                self.append_fg_output(data);
            },
            EventPayload::FgExited { id, reason } => {
                self.finish_fg_session(id.as_str(), reason.as_str());
            },
            EventPayload::CronTriggered { cron_id, job_id } => {
                self.on_cron_triggered(cron_id.as_str(), job_id.as_str());
            },
            EventPayload::CronRemoved { cron_id } => {
                self.on_cron_removed(cron_id.as_str());
            },
            EventPayload::ShuttingDown { reason } => {
                self.on_shutting_down(reason.as_str());
            },
            EventPayload::Other => {},
        }
    }
}

} // verus!
