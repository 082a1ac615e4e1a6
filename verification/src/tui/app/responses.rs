//! Answers of the daemon.

use vstd::prelude::*;
use vstd::string::*;

use super::cards::result_shown;
use super::rows::{cron_rows, cron_rows_of, find_job, job_rows, job_rows_of, job_with};
use super::state::{AppModel, AppState};
use super::tables::{pending_with, pending_without, with_card_of};
use crate::cron::CronStatus;
use crate::job::JobStatus;
use crate::parser::resolved::ScriptSource;
use crate::text;
use crate::text::Text;
use crate::tui::display::{display_stream_from_ipc, shown_stream, stream_label};
use crate::tui::ipc::{
    ChainInfo, ChainJobInfo, CronInfo, JobInfo, JobOpenHint, OkPayload, ResponsePayload,
    ScriptItemInfo, ScriptItemResult, ScriptSubmitError, Stream,
};
use crate::tui::main_view::CardStatus;
use crate::tui::script_summary::{format_submission, submission_text, summarize_source, summary};
use crate::tui::submission::{
    ack_text, command_label, display_request_of, DisplayRequest, PendingModel, PendingSubmission,
};

verus! {

/// Whether an answer is shown.
pub open spec fn shown_to_user(pending: Option<PendingModel>) -> bool {
    pending matches Some(p) && p.kind is User
}

/// Whether a job of a chain has started.
pub open spec fn has_started(job: ChainJobInfo) -> bool {
    job.job_id is Some && job.open_hint is Some
}

/// Whether some of the first `n` jobs of a chain has started.
pub open spec fn some_started(jobs: Seq<ChainJobInfo>, n: int) -> bool
    decreases n,
{
    if n <= 0 {
        false
    } else {
        some_started(jobs, n - 1) || has_started(jobs[n - 1])
    }
}

/// Whether an item of a script added a job or a cron.
pub open spec fn item_adds(item: ScriptItemInfo) -> bool {
    match item.result {
        ScriptItemResult::Job { job_id, start_scope, open_hint } => true,
        ScriptItemResult::Chain { chain_id, job_ids, chain } => some_started(
            chain.jobs@,
            chain.jobs@.len() as int,
        ),
        ScriptItemResult::Cron { cron_id } => true,
        ScriptItemResult::Message { text } => false,
    }
}

/// Whether some of the first `n` items added a job or a cron.
pub open spec fn some_item_adds(items: Seq<ScriptItemInfo>, n: int) -> bool
    decreases n,
{
    if n <= 0 {
        false
    } else {
        some_item_adds(items, n - 1) || item_adds(items[n - 1])
    }
}

/// The output that an answered command asked for: that of the job if it did not
/// say.
pub open spec fn wanted_output(input: Text) -> DisplayRequest {
    match display_request_of(input) {
        Some(r) => r,
        None => DisplayRequest { stream: Stream::Stdout, follow: false },
    }
}

impl AppModel {
    /// With an answer shown, if it is one for the user.
    pub open spec fn answered(
        self,
        pending: Option<PendingModel>,
        body: Text,
        status: CardStatus,
        label: Option<Text>,
    ) -> AppModel {
        if shown_to_user(pending) {
            self.with_result(pending->0, body, status, label)
        } else {
            self
        }
    }

    /// With the first `n` jobs of a chain, as far as they have started.
    pub open spec fn with_chain_jobs(self, jobs: Seq<ChainJobInfo>, n: int) -> AppModel
        decreases n,
    {
        if n <= 0 {
            self
        } else {
            let before = self.with_chain_jobs(jobs, n - 1);
            let job = jobs[n - 1];
            match (job.job_id, job.open_hint) {
                (Some(id), Some(hint)) => before.with_job(
                    id@,
                    summary(job.pipeline@),
                    job.status,
                    text::opt_text(job.start_scope),
                    hint,
                ),
                _ => before,
            }
        }
    }

    pub open spec fn with_script_item(self, item: ScriptItemInfo) -> AppModel {
        match item.result {
            ScriptItemResult::Job { job_id, start_scope, open_hint } => self.with_job(
                job_id@,
                summary(item.source@),
                JobStatus::Running,
                text::opt_text(start_scope),
                open_hint,
            ),
            ScriptItemResult::Chain { chain_id, job_ids, chain } => self.with_chain_jobs(
                chain.jobs@,
                chain.jobs@.len() as int,
            ),
            ScriptItemResult::Cron { cron_id } => self.with_cron(
                cron_id@,
                summary(item.source@),
                CronStatus::Scheduled,
            ),
            ScriptItemResult::Message { text } => self,
        }
    }

    /// With what the first `n` items of a script added.
    pub open spec fn with_script_items(self, items: Seq<ScriptItemInfo>, n: int) -> AppModel
        decreases n,
    {
        if n <= 0 {
            self
        } else {
            self.with_script_items(items, n - 1).with_script_item(items[n - 1])
        }
    }

    pub open spec fn script_created(
        self,
        pending: Option<PendingModel>,
        script_id: Text,
        items: Seq<ScriptItemInfo>,
        error: Option<ScriptSubmitError>,
    ) -> AppModel {
        let s = self.with_script_items(items, items.len() as int);
        let s = if some_item_adds(items, items.len() as int) {
            s.with_items()
        } else {
            s
        };
        s.answered(
            pending,
            submission_text(ScriptSource::Inline, items, error),
            if error is Some {
                CardStatus::Error
            } else {
                CardStatus::Success
            },
            Some(script_id),
        )
    }

    pub open spec fn job_created(
        self,
        pending: Option<PendingModel>,
        job_id: Text,
        start_scope: Option<Text>,
        open_hint: JobOpenHint,
    ) -> AppModel {
        let label = match pending {
            Some(p) => command_label(p.input),
            None => job_id,
        };
        let s = self.with_job(job_id, label, JobStatus::Running, start_scope, open_hint).with_items();
        if shown_to_user(pending) {
            let (s, card) = match (pending->0).card_index {
                Some(card) => (
                    AppModel {
                        main_view: s.main_view.with_label(card as int, job_id),
                        job_cards: with_card_of(s.job_cards, job_id, card),
                        ..s
                    },
                    card,
                ),
                None => s.with_job_card(job_id, (pending->0).input),
            };
            match job_with(s.jobs, job_id) {
                Some(job) => s.with_job_shown(card, job),
                None => s,
            }
        } else {
            s
        }
    }

    pub open spec fn chain_created(
        self,
        pending: Option<PendingModel>,
        chain_id: Text,
        job_ids: Seq<Text>,
        chain: ChainInfo,
    ) -> AppModel {
        if shown_to_user(pending) {
            let (log, card) = result_shown(
                self.main_view,
                pending->0,
                chain_id + ": "@ + text::join(job_ids, ", "@),
                CardStatus::Success,
                Some(chain_id),
            );
            AppModel {
                main_view: if chain.total_jobs > 1 {
                    log.with_chain_label(card as int, "chain:"@ + chain_id)
                } else {
                    log
                },
                chain_cards: with_card_of(self.chain_cards, chain_id, card),
                ..self
            }
        } else {
            self
        }
    }

    pub open spec fn fg_attached(self, pending: Option<PendingModel>, id: Text) -> AppModel {
        let (s, card) = if shown_to_user(pending) {
            let (log, card) = result_shown(
                self.main_view,
                pending->0,
                id,
                CardStatus::Streaming,
                Some(id),
            );
            (AppModel { main_view: log, ..self }, Some(card))
        } else {
            (self, None)
        };
        s.fg_started(id, card).with_fg_size_sent()
    }

    pub open spec fn cron_added(self, pending: Option<PendingModel>, cron_id: Text) -> AppModel {
        let label = match pending {
            Some(p) => command_label(p.input),
            None => cron_id,
        };
        self.with_cron(cron_id, label, CronStatus::Scheduled).with_items().answered(
            pending,
            cron_id,
            CardStatus::Success,
            Some(cron_id),
        )
    }

    pub open spec fn jobs_listed(self, pending: Option<PendingModel>, list: Seq<JobInfo>) -> AppModel {
        AppModel { jobs: job_rows_of(list), ..self }.with_items().answered(
            pending,
            "loaded "@ + text::decimal(list.len()) + " job(s) into sidebar"@,
            CardStatus::Success,
            None,
        )
    }

    pub open spec fn crons_listed(
        self,
        pending: Option<PendingModel>,
        list: Seq<CronInfo>,
    ) -> AppModel {
        AppModel { crons: cron_rows_of(list), ..self }.with_triggers_shown(None).with_items().answered(
            pending,
            "loaded "@ + text::decimal(list.len()) + " cron(s) into sidebar"@,
            CardStatus::Success,
            None,
        )
    }

    pub open spec fn output_came(
        self,
        pending: Option<PendingModel>,
        id: Text,
        data: Text,
        truncated: bool,
    ) -> AppModel {
        if shown_to_user(pending) {
            let request = wanted_output((pending->0).input);
            let stream = shown_stream(request.stream);
            self.with_output(id, stream, data, truncated, request.follow).answered(
                pending,
                (if request.follow {
                    "following"@
                } else {
                    "opened"@
                }) + " "@ + stream_label(stream) + " for "@ + id,
                CardStatus::Success,
                None,
            )
        } else {
            self
        }
    }

    pub open spec fn succeeded(self, pending: Option<PendingModel>, payload: OkPayload) -> AppModel {
        match payload {
            OkPayload::Ack => self.answered(
                pending,
                ack_text((pending->0).input),
                CardStatus::Success,
                None,
            ),
            OkPayload::ScriptCreated { script_id, items, submit_error } => self.script_created(
                pending,
                script_id@,
                items@,
                submit_error,
            ),
            OkPayload::JobCreated {
                job_id,
                start_scope,
                open_hint,
                chain_id,
                chain_index,
                chain_total,
            } => self.job_created(pending, job_id@, text::opt_text(start_scope), open_hint),
            OkPayload::ChainCreated { chain_id, job_ids, chain } => self.chain_created(
                pending,
                chain_id@,
                text::texts(job_ids@),
                chain,
            ),
            OkPayload::FgAttached { id } => self.fg_attached(pending, id@),
            OkPayload::CronAdded { cron_id } => self.cron_added(pending, cron_id@),
            OkPayload::ScopeCreated { hash, label, summary } => self.answered(
                pending,
                summary@,
                CardStatus::Success,
                Some(hash@),
            ),
            OkPayload::JobList(list) => self.jobs_listed(pending, list@),
            OkPayload::CronList(list) => self.crons_listed(pending, list@),
            OkPayload::EvalText { text } => self.answered(
                pending,
                text@,
                CardStatus::Success,
                None,
            ),
            OkPayload::Pong => self,
            OkPayload::Output { id, data, truncated } => self.output_came(
                pending,
                id@,
                data@,
                truncated,
            ),
            OkPayload::Other(text) => self.answered(pending, text@, CardStatus::Success, None),
        }
    }

    /// After the answer to the request with this number.
    #[verifier::opaque]
    pub open spec fn responded(self, id: u32, payload: ResponsePayload) -> AppModel {
        let pending = pending_with(self.pending_submissions, id);
        let s = AppModel {
            pending_submissions: pending_without(self.pending_submissions, id),
            ..self
        }.with_clear_action();
        match payload {
            ResponsePayload::Success(ok) => s.succeeded(pending, ok),
            ResponsePayload::Failure { code, message } => s.answered(
                pending,
                "Error ["@ + code@ + "]: "@ + message@,
                CardStatus::Error,
                None,
            ),
        }
    }
}

pub open spec fn opt_pending(p: Option<PendingSubmission>) -> Option<PendingModel> {
    match p {
        Some(x) => Some(x@),
        None => None,
    }
}

fn visible(pending: &Option<PendingSubmission>) -> (r: bool)
    ensures
        r == shown_to_user(opt_pending(*pending)),
{
    match pending {
        Some(p) => p.is_user_visible(),
        None => false,
    }
}

fn label_or(pending: &Option<PendingSubmission>, id: &str) -> (r: String)
    ensures
        r@ == match opt_pending(*pending) {
            Some(p) => command_label(p.input),
            None => id@,
        },
{
    match pending {
        Some(p) => p.normalized_command_label(),
        None => id.to_owned(),
    }
}

impl AppState {
    fn answer(
        &mut self,
        pending: &Option<PendingSubmission>,
        body: String,
        status: CardStatus,
        label: Option<String>,
    )
        ensures
            final(self)@ == old(self)@.answered(
                opt_pending(*pending),
                body@,
                status,
                text::opt_text(label),
            ),
            old(self).wf() ==> final(self).wf(),
    {
        if let Some(p) = pending {
            if p.is_user_visible() {
                let _ = self.show_submission_result(p, body, status, label);
            }
        }
    }

    fn add_chain_jobs(&mut self, jobs: &Vec<ChainJobInfo>) -> (r: bool)
        ensures
            final(self)@ == old(self)@.with_chain_jobs(jobs@, jobs@.len() as int),
            r == some_started(jobs@, jobs@.len() as int),
            old(self).wf() ==> final(self).wf(),
    {
        let mut added = false;
        let mut i: usize = 0;
        while i < jobs.len()
            invariant
                i <= jobs@.len(),
                self@ == old(self)@.with_chain_jobs(jobs@, i as int),
                added == some_started(jobs@, i as int),
                old(self).wf() ==> self.wf(),
            decreases jobs@.len() - i,
        {
            let job = &jobs[i];
            if let Some(id) = &job.job_id {
                if let Some(hint) = &job.open_hint {
                    self.upsert_job(
                        id.clone(),
                        summarize_source(job.pipeline.as_str()),
                        job.status,
                        text::clone_opt(&job.start_scope),
                        *hint,
                    );
                    added = true;
                }
            }
            i = i + 1;
        }
        added
    }

    fn add_script_items(&mut self, items: &Vec<ScriptItemInfo>) -> (r: bool)
        ensures
            final(self)@ == old(self)@.with_script_items(items@, items@.len() as int),
            r == some_item_adds(items@, items@.len() as int),
            old(self).wf() ==> final(self).wf(),
    {
        let mut dirty = false;
        let mut i: usize = 0;
        while i < items.len()
            invariant
                i <= items@.len(),
                self@ == old(self)@.with_script_items(items@, i as int),
                dirty == some_item_adds(items@, i as int),
                old(self).wf() ==> self.wf(),
            decreases items@.len() - i,
        {
            let item = &items[i];
            match &item.result {
                ScriptItemResult::Job { job_id, start_scope, open_hint } => {
                    self.upsert_job(
                        job_id.clone(),
                        summarize_source(item.source.as_str()),
                        JobStatus::Running,
                        text::clone_opt(start_scope),
                        *open_hint,
                    );
                    dirty = true;
                },
                ScriptItemResult::Chain { chain, .. } => {
                    let added = self.add_chain_jobs(&chain.jobs);
                    if added {
                        dirty = true;
                    }
                },
                ScriptItemResult::Cron { cron_id } => {
                    self.upsert_cron(
                        cron_id.clone(),
                        summarize_source(item.source.as_str()),
                        CronStatus::Scheduled,
                    );
                    dirty = true;
                },
                ScriptItemResult::Message { .. } => {},
            }
            i = i + 1;
        }
        dirty
    }

    fn on_script_created(
        &mut self,
        pending: &Option<PendingSubmission>,
        script_id: String,
        items: &Vec<ScriptItemInfo>,
        submit_error: &Option<ScriptSubmitError>,
    )
        ensures
            final(self)@ == old(self)@.script_created(
                opt_pending(*pending),
                script_id@,
                items@,
                *submit_error,
            ),
            old(self).wf() ==> final(self).wf(),
    {
        if self.add_script_items(items) {
            self.sync_sidebar_items();
        }
        let body = format_submission(&ScriptSource::Inline, items, submit_error);
        let status = if submit_error.is_some() {
            CardStatus::Error
        } else {
            CardStatus::Success
        };
        self.answer(pending, body, status, Some(script_id));
    }

    fn on_job_created(
        &mut self,
        pending: &Option<PendingSubmission>,
        job_id: String,
        start_scope: Option<String>,
        open_hint: JobOpenHint,
    )
        ensures
            final(self)@ == old(self)@.job_created(
                opt_pending(*pending),
                job_id@,
                text::opt_text(start_scope),
                open_hint,
            ),
            old(self).wf() ==> final(self).wf(),
    {
        let label = label_or(pending, job_id.as_str());
        self.upsert_job(job_id.clone(), label, JobStatus::Running, start_scope, open_hint);
        self.sync_sidebar_items();
        if let Some(p) = pending {
            if p.is_user_visible() {
                let card = match p.card_index() {
                    Some(card) => {
                        self.main_view.set_card_label(card, job_id.clone());
                        self.job_cards.insert(job_id.clone(), card);
                        card
                    },
                    None => self.ensure_job_card(job_id.as_str(), p.input().to_owned()),
                };
                if let Some(at) = find_job(&self.jobs, job_id.as_str()) {
                    self.refresh_job_card(card, at);
                }
            }
        }
    }

    fn on_chain_created(
        &mut self,
        pending: &Option<PendingSubmission>,
        chain_id: String,
        job_ids: &Vec<String>,
        chain: &ChainInfo,
    )
        ensures
            final(self)@ == old(self)@.chain_created(
                opt_pending(*pending),
                chain_id@,
                text::texts(job_ids@),
                *chain,
            ),
            old(self).wf() ==> final(self).wf(),
    {
        if let Some(p) = pending {
            if p.is_user_visible() {
                let joined = text::join_strings(job_ids, ", ");
                let body = text::concat3(chain_id.as_str(), ": ", joined.as_str());
                let card = self.show_submission_result(
                    p,
                    body,
                    CardStatus::Success,
                    Some(chain_id.clone()),
                );
                if chain.total_jobs > 1 {
                    self.main_view.set_card_chain_label(
                        card,
                        text::concat2("chain:", chain_id.as_str()),
                    );
                }
                self.chain_cards.insert(chain_id, card);
            }
        }
    }

    fn on_fg_attached(&mut self, pending: &Option<PendingSubmission>, id: String)
        ensures
            final(self)@ == old(self)@.fg_attached(opt_pending(*pending), id@),
            old(self).wf() ==> final(self).wf(),
    {
        let mut card: Option<usize> = None;
        if let Some(p) = pending {
            if p.is_user_visible() {
                card = Some(
                    self.show_submission_result(
                        p,
                        id.clone(),
                        CardStatus::Streaming,
                        Some(id.clone()),
                    ),
                );
            }
        }
        self.start_fg_session(id, card);
        self.send_fg_size();
    }

    fn on_output(
        &mut self,
        pending: &Option<PendingSubmission>,
        id: String,
        data: String,
        truncated: bool,
    )
        ensures
            final(self)@ == old(self)@.output_came(opt_pending(*pending), id@, data@, truncated),
            old(self).wf() ==> final(self).wf(),
    {
        if let Some(p) = pending {
            if p.is_user_visible() {
                let request = match p.display_request() {
                    Some(r) => r,
                    None => DisplayRequest { stream: Stream::Stdout, follow: false },
                };
                let stream = display_stream_from_ipc(request.stream);
                let verb = if request.follow {
                    "following"
                } else {
                    "opened"
                };
                let body = text::concat5(verb, " ", stream.label(), " for ", id.as_str());
                self.show_output_display(id, stream, data, truncated, request.follow);
                let _ = self.show_submission_result(p, body, CardStatus::Success, None);
            }
        }
    }

    fn on_success(&mut self, pending: &Option<PendingSubmission>, payload: OkPayload)
        ensures
            final(self)@ == old(self)@.succeeded(opt_pending(*pending), payload),
            old(self).wf() ==> final(self).wf(),
    {
        match payload {
            OkPayload::Ack => {
                if let Some(p) = pending {
                    let body = p.ack_message();
                    self.answer(pending, body, CardStatus::Success, None);
                }
            },
            OkPayload::ScriptCreated { script_id, items, submit_error } => {
                self.on_script_created(pending, script_id, &items, &submit_error);
            },
            OkPayload::JobCreated { job_id, start_scope, open_hint, .. } => {
                self.on_job_created(pending, job_id, start_scope, open_hint);
            },
            OkPayload::ChainCreated { chain_id, job_ids, chain } => {
                self.on_chain_created(pending, chain_id, &job_ids, &chain);
            },
            OkPayload::FgAttached { id } => {
                self.on_fg_attached(pending, id);
            },
            OkPayload::CronAdded { cron_id } => {
                let label = label_or(pending, cron_id.as_str());
                self.upsert_cron(cron_id.clone(), label, CronStatus::Scheduled);
                self.sync_sidebar_items();
                self.answer(pending, cron_id.clone(), CardStatus::Success, Some(cron_id));
            },
            OkPayload::ScopeCreated { hash, summary, .. } => {
                self.answer(pending, summary, CardStatus::Success, Some(hash));
            },
            OkPayload::JobList(list) => {
                self.jobs = job_rows(&list);
                self.sync_sidebar_items();
                let count = text::decimal_usize(list.len());
                let body = text::concat3("loaded ", count.as_str(), " job(s) into sidebar");
                self.answer(pending, body, CardStatus::Success, None);
            },
            OkPayload::CronList(list) => {
                self.crons = cron_rows(&list);
                self.refresh_all_cron_trigger_cards();
                self.sync_sidebar_items();
                let count = text::decimal_usize(list.len());
                let body = text::concat3("loaded ", count.as_str(), " cron(s) into sidebar");
                self.answer(pending, body, CardStatus::Success, None);
            },
            OkPayload::EvalText { text } => {
                self.answer(pending, text, CardStatus::Success, None);
            },
            OkPayload::Pong => {},
            OkPayload::Output { id, data, truncated } => {
                self.on_output(pending, id, data, truncated);
            },
            OkPayload::Other(text) => {
                self.answer(pending, text, CardStatus::Success, None);
            },
        }
    }

    /// Takes the answer to the request with this number.
    pub(crate) fn on_response(&mut self, id: u32, payload: ResponsePayload)
        ensures
            final(self)@ == old(self)@.responded(id, payload),
            old(self).wf() ==> final(self).wf(),
    {
        proof {
            reveal(AppModel::responded);
        }
        let pending = self.pending_submissions.take(id);
        self.refresh_clear_action();
        match payload {
            ResponsePayload::Success(ok) => {
                self.on_success(&pending, ok);
            },
            ResponsePayload::Failure { code, message } => {
                let body = text::concat4("Error [", code.as_str(), "]: ", message.as_str());
                self.answer(&pending, body, CardStatus::Error, None);
            },
        }
    }
}

// ── Laws ──

/// An answered request does not wait any more, and an answer that nobody waits
/// for, or that is not for the user, adds no card of its own.
pub proof fn lemma_silent_answers_add_no_card(s: AppModel, body: Text, status: CardStatus, label: Option<Text>, pending: Option<PendingModel>)
    requires
        !shown_to_user(pending),
    ensures
        s.answered(pending, body, status, label) == s,
{
}

/// A failure is answered with its code and message in a card that is marked as
/// failed.
pub proof fn lemma_failure_is_shown(s: AppModel, id: u32, code: String, message: String)
    requires
        shown_to_user(pending_with(s.pending_submissions, id)),
        (pending_with(s.pending_submissions, id)->0).card_index is None,
        (pending_with(s.pending_submissions, id)->0).warnings.len() == 0,
        s.main_view.cards.len() < usize::MAX,
    ensures
        ({
            let t = s.responded(id, ResponsePayload::Failure { code, message });
            &&& t.main_view.cards.len() == s.main_view.cards.len() + 1
            &&& t.main_view.cards.last().status == CardStatus::Error
            &&& t.main_view.cards.last().output == "Error ["@ + code@ + "]: "@ + message@
        }),
{
    reveal(AppModel::responded);
}

} // verus!
