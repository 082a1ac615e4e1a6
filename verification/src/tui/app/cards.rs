//! Records of commands, jobs and cron triggers.

use vstd::prelude::*;
use vstd::string::*;

use super::rows::{
    cron_upserted, cron_with, find_cron, find_job, job_status_set, job_upserted, job_with,
    opt_record_of, opt_ref, record_for, record_of, set_job_status, upsert_cron_row, upsert_job_row,
    JobRowModel,
};
use super::state::{AppModel, AppState};
use super::tables::{
    card_of, cron_card_from, cron_card_models, find_cron_card, put_cron_card, with_card_of,
    with_cron_card, without_card_of, CronCard, CronCardModel, PendingTable,
};
use crate::cron::CronStatus;
use crate::job::JobStatus;
use crate::mode::Mode;
use crate::text;
use crate::text::Text;
use crate::tui::ipc::JobOpenHint;
use crate::tui::main_view::{new_card, CardStatus, MainViewModel};
use crate::tui::record_format::{
    cron_trigger_record, format_cron_trigger_record, format_job_record, job_record,
};
use crate::tui::status_view::{card_status_of, job_card_status};
use crate::tui::target_settings::opt_is;
use crate::tui::submission::{decorated, PendingModel, PendingSubmission};

verus! {

/// The result of a command in its card; a new card if it has none yet.
pub open spec fn result_shown(
    log: MainViewModel,
    pending: PendingModel,
    body: Text,
    status: CardStatus,
    label: Option<Text>,
) -> (MainViewModel, usize) {
    let (log, card) = match pending.card_index {
        Some(i) => (log, i),
        None => (log.push(new_card(pending.input, pending.mode)), log.cards.len() as usize),
    };
    let log = match label {
        Some(l) => log.with_label(card as int, l),
        None => log,
    };
    (
        log.with_output(card as int, decorated(pending.warnings, body)).with_status(
            card as int,
            status,
        ),
        card,
    )
}

/// A card with the record of its job.
pub open spec fn job_card_shown(log: MainViewModel, card: int, job: JobRowModel) -> MainViewModel {
    log.with_output(card, job_record(record_of(job))).with_status(card, card_status_of(job.status))
}

impl AppModel {
    pub open spec fn with_result(
        self,
        pending: PendingModel,
        body: Text,
        status: CardStatus,
        label: Option<Text>,
    ) -> AppModel {
        AppModel {
            main_view: result_shown(self.main_view, pending, body, status, label).0,
            ..self
        }
    }

    /// With the first `n` waiting commands shown as failed.
    pub open spec fn with_failed(self, pending: Seq<(u32, PendingModel)>, n: int, message: Text) -> AppModel
        decreases n,
    {
        if n <= 0 {
            self
        } else {
            let before = self.with_failed(pending, n - 1, message);
            let p = pending[n - 1].1;
            if p.kind is User {
                before.with_result(p, message, CardStatus::Error, None)
            } else {
                before
            }
        }
    }

    /// With every waiting command failed.
    pub open spec fn with_all_failed(self, message: Text) -> AppModel {
        AppModel { pending_submissions: Seq::empty(), ..self }.with_failed(
            self.pending_submissions,
            self.pending_submissions.len() as int,
            message,
        ).with_clear_action()
    }

    pub open spec fn with_job(
        self,
        id: Text,
        label: Text,
        status: JobStatus,
        start_scope: Option<Text>,
        open_hint: JobOpenHint,
    ) -> AppModel {
        AppModel {
            jobs: job_upserted(self.jobs, id, label, status, start_scope, open_hint),
            ..self
        }
    }

    /// Whether a card shows this job.
    pub open spec fn is_job_card(self, card: usize, job_id: Text) -> bool {
        card < self.main_view.cards.len() && self.main_view.cards[card as int].mode == Mode::Job
            && self.main_view.cards[card as int].label == Some(job_id)
    }

    /// With a card for a job, and which one it is.
    pub open spec fn with_job_card(self, job_id: Text, input: Text) -> (AppModel, usize) {
        match card_of(self.job_cards, job_id) {
            Some(card) => if self.is_job_card(card, job_id) {
                (self, card)
            } else {
                AppModel { job_cards: without_card_of(self.job_cards, job_id), ..self }
                    .with_new_job_card(job_id, input)
            },
            None => self.with_new_job_card(job_id, input),
        }
    }

    pub open spec fn with_new_job_card(self, job_id: Text, input: Text) -> (AppModel, usize) {
        let card = self.main_view.cards.len() as usize;
        (
            AppModel {
                main_view: self.main_view.push(new_card(input, Mode::Job)).with_label(
                    card as int,
                    job_id,
                ),
                job_cards: with_card_of(self.job_cards, job_id, card),
                ..self
            },
            card,
        )
    }

    /// With a card showing its job.
    pub open spec fn with_job_shown(self, card: usize, job: JobRowModel) -> AppModel {
        AppModel { main_view: job_card_shown(self.main_view, card as int, job), ..self }
    }

    /// With the card of a cron trigger brought up to date.
    pub open spec fn with_trigger_shown(self, job_id: Text) -> AppModel {
        match cron_card_from(self.cron_job_cards, job_id, 0) {
            None => self,
            Some(i) => {
                let c = self.cron_job_cards[i];
                let cron = cron_with(self.crons, c.cron_id);
                let job = job_with(self.jobs, job_id);
                AppModel {
                    main_view: self.main_view.with_output(
                        c.card as int,
                        cron_trigger_record(
                            c.cron_id,
                            match cron {
                                Some(x) => x.label,
                                None => c.cron_id,
                            },
                            match cron {
                                Some(x) => x.status,
                                None => CronStatus::Scheduled,
                            },
                            opt_record_of(job),
                        ),
                    ).with_status(
                        c.card as int,
                        match job {
                            Some(j) => card_status_of(j.status),
                            None => CardStatus::Pending,
                        },
                    ),
                    ..self
                }
            },
        }
    }

    /// With the trigger cards of one cron brought up to date, of the first `n`.
    pub open spec fn with_cron_triggers(self, t: Seq<CronCardModel>, n: int, cron_id: Option<Text>) -> AppModel
        decreases n,
    {
        if n <= 0 {
            self
        } else {
            let before = self.with_cron_triggers(t, n - 1, cron_id);
            if cron_id is None || cron_id == Some(t[n - 1].cron_id) {
                before.with_trigger_shown(t[n - 1].job_id)
            } else {
                before
            }
        }
    }

    /// With the trigger cards of one cron, or of all, brought up to date.
    pub open spec fn with_triggers_shown(self, cron_id: Option<Text>) -> AppModel {
        self.with_cron_triggers(
            self.cron_job_cards,
            self.cron_job_cards.len() as int,
            cron_id,
        )
    }

    /// With a job's status changed, and its cards.
    pub open spec fn with_job_status(
        self,
        id: Text,
        status: JobStatus,
        end_scope: Option<Text>,
    ) -> AppModel {
        let known = job_with(self.jobs, id) is Some;
        let s = AppModel { jobs: job_status_set(self.jobs, id, status, end_scope), ..self };
        let s = match card_of(self.job_cards, id) {
            Some(card) if known => s.with_job_shown(card, job_with(s.jobs, id)->0),
            _ => s,
        };
        s.with_trigger_shown(id)
    }

    pub open spec fn with_cron(self, id: Text, label: Text, status: CronStatus) -> AppModel {
        AppModel { crons: cron_upserted(self.crons, id, label, status), ..self }
            .with_triggers_shown(Some(id))
    }

    /// With a card for a job that a cron started.
    pub open spec fn with_trigger_card(self, cron_id: Text, job_id: Text) -> AppModel {
        let found = match cron_card_from(self.cron_job_cards, job_id, 0) {
            Some(i) => {
                let c = self.cron_job_cards[i];
                c.cron_id == cron_id && c.card < self.main_view.cards.len()
                    && self.main_view.cards[c.card as int].mode == Mode::Cron
            },
            None => false,
        };
        if found {
            self
        } else {
            let card = self.main_view.cards.len() as usize;
            AppModel {
                main_view: self.main_view.push(
                    new_card("cron trigger "@ + cron_id, Mode::Cron),
                ).with_label(card as int, cron_id),
                cron_job_cards: with_cron_card(
                    self.cron_job_cards,
                    CronCardModel { job_id, cron_id, card },
                ),
                ..self
            }
        }
    }
}

impl AppState {
    /// Shows the result of a command in its card; gives the card.
    pub(crate) fn show_submission_result(
        &mut self,
        pending: &PendingSubmission,
        body: String,
        status: CardStatus,
        label: Option<String>,
    ) -> (r: usize)
        ensures
            final(self)@ == old(self)@.with_result(pending@, body@, status, text::opt_text(label)),
            r == result_shown(old(self)@.main_view, pending@, body@, status, text::opt_text(label)).1,
            old(self).wf() ==> final(self).wf(),
    {
        let card = match pending.card_index() {
            Some(i) => i,
            None => self.main_view.push_card(pending.input().to_owned(), pending.mode()),
        };
        if let Some(l) = label {
            self.main_view.set_card_label(card, l);
        }
        self.main_view.set_card_output(card, pending.decorated_output(body));
        self.main_view.set_card_status(card, status);
        card
    }

    pub(crate) fn fail_pending_submissions(&mut self, message: &str)
        ensures
            final(self)@ == old(self)@.with_all_failed(message@),
            old(self).wf() ==> final(self).wf(),
    {
        let ghost all = self@.pending_submissions;
        let ghost start = AppModel { pending_submissions: Seq::empty(), ..self@ };
        let mut waiting = PendingTable::new();
        std::mem::swap(&mut waiting, &mut self.pending_submissions);
        let ghost mut n: int = 0;
        assert(all.skip(0) =~= all);
        while waiting.len() > 0
            invariant
                0 <= n <= all.len(),
                waiting@ == all.skip(n),
                self@ == start.with_failed(all, n, message@),
                old(self).wf() ==> self.wf(),
            decreases waiting@.len(),
        {
            let next = waiting.take_first();
            if let Some(p) = next {
                assert(p@ == all[n].1);
                if p.is_user_visible() {
                    let _ = self.show_submission_result(
                        &p,
                        message.to_owned(),
                        CardStatus::Error,
                        None,
                    );
                }
            }
            proof {
                n = n + 1;
                assert(waiting@ =~= all.skip(n));
            }
        }
        assert(n == all.len());
        self.refresh_clear_action();
    }

    pub(crate) fn upsert_job(
        &mut self,
        id: String,
        label: String,
        status: JobStatus,
        start_scope: Option<String>,
        open_hint: JobOpenHint,
    )
        ensures
            final(self)@ == old(self)@.with_job(
                id@,
                label@,
                status,
                text::opt_text(start_scope),
                open_hint,
            ),
            old(self).wf() ==> final(self).wf(),
    {
        upsert_job_row(&mut self.jobs, id, label, status, start_scope, open_hint);
    }

    /// A card for a job: the one that it has, or a new one.
    pub(crate) fn ensure_job_card(&mut self, job_id: &str, input: String) -> (r: usize)
        ensures
            (final(self)@, r) == old(self)@.with_job_card(job_id@, input@),
            old(self).wf() ==> final(self).wf(),
    {
        if let Some(card) = self.job_cards.get(job_id) {
            if card < self.main_view.cards.len() {
                assert(self@.main_view.cards[card as int] == self.main_view.cards@[card as int]@);
                let c = &self.main_view.cards[card];
                let is_job = match c.mode {
                    Mode::Job => true,
                    Mode::Cron => false,
                };
                if is_job && opt_is(opt_ref(&c.label), job_id) {
                    return card;
                }
            }
            self.job_cards.remove(job_id);
        }
        let card = self.main_view.push_card(input, Mode::Job);
        self.main_view.set_card_label(card, job_id.to_owned());
        self.job_cards.insert(job_id.to_owned(), card);
        card
    }

    /// Shows the job in a card.
    pub(crate) fn refresh_job_card(&mut self, card: usize, at: usize)
        requires
            at < old(self)@.jobs.len(),
        ensures
            final(self)@ == old(self)@.with_job_shown(card, old(self)@.jobs[at as int]),
            old(self).wf() ==> final(self).wf(),
    {
        let none: Vec<String> = Vec::new();
        assert(self@.jobs[at as int] == self.jobs@[at as int]@);
        let record = format_job_record(record_for(&self.jobs[at], &none));
        let status = job_card_status(self.jobs[at].status);
        self.main_view.set_card_output(card, record);
        self.main_view.set_card_status(card, status);
    }

    pub(crate) fn refresh_cron_trigger_card(&mut self, job_id: &str)
        ensures
            final(self)@ == old(self)@.with_trigger_shown(job_id@),
            old(self).wf() ==> final(self).wf(),
    {
        let at = match find_cron_card(&self.cron_job_cards, job_id) {
            Some(i) => i,
            None => {
                return;
            },
        };
        assert(self@.cron_job_cards[at as int] == self.cron_job_cards@[at as int]@);
        let cron_id = self.cron_job_cards[at].cron_id.clone();
        let card = self.cron_job_cards[at].card;
        let (label, status) = match find_cron(&self.crons, cron_id.as_str()) {
            Some(i) => {
                assert(self@.crons[i as int] == self.crons@[i as int]@);
                (self.crons[i].label.clone(), self.crons[i].status)
            },
            None => (cron_id.clone(), CronStatus::Scheduled),
        };
        let none: Vec<String> = Vec::new();
        let (record, card_status) = match find_job(&self.jobs, job_id) {
            Some(i) => {
                assert(self@.jobs[i as int] == self.jobs@[i as int]@);
                (
                    format_cron_trigger_record(
                        cron_id.as_str(),
                        label.as_str(),
                        status,
                        Some(record_for(&self.jobs[i], &none)),
                    ),
                    job_card_status(self.jobs[i].status),
                )
            },
            None => (
                format_cron_trigger_record(cron_id.as_str(), label.as_str(), status, None),
                CardStatus::Pending,
            ),
        };
        self.main_view.set_card_output(card, record);
        self.main_view.set_card_status(card, card_status);
    }

    fn refresh_triggers(&mut self, cron_id: Option<&str>)
        ensures
            final(self)@ == old(self)@.with_triggers_shown(text::opt_str(cron_id)),
            old(self).wf() ==> final(self).wf(),
    {
        let ghost t = self@.cron_job_cards;
        let mut i: usize = 0;
        while i < self.cron_job_cards.len()
            invariant
                i <= self.cron_job_cards@.len(),
                self@.cron_job_cards == t,
                t == old(self)@.cron_job_cards,
                self@ == old(self)@.with_cron_triggers(t, i as int, text::opt_str(cron_id)),
                old(self).wf() ==> self.wf(),
            decreases self.cron_job_cards@.len() - i,
        {
            assert(t[i as int] == self.cron_job_cards@[i as int]@);
            let wanted = match cron_id {
                Some(id) => text::str_eq(self.cron_job_cards[i].cron_id.as_str(), id),
                None => true,
            };
            let job_id = self.cron_job_cards[i].job_id.clone();
            if wanted {
                self.refresh_cron_trigger_card(job_id.as_str());
            }
            assert(cron_card_models(self.cron_job_cards@).len() == self.cron_job_cards@.len());
            i = i + 1;
        }
        assert(t.len() == self.cron_job_cards@.len());
    }

    pub(crate) fn refresh_cron_cards_for_cron(&mut self, cron_id: &str)
        ensures
            final(self)@ == old(self)@.with_triggers_shown(Some(cron_id@)),
            old(self).wf() ==> final(self).wf(),
    {
        self.refresh_triggers(Some(cron_id));
    }

    pub(crate) fn refresh_all_cron_trigger_cards(&mut self)
        ensures
            final(self)@ == old(self)@.with_triggers_shown(None),
            old(self).wf() ==> final(self).wf(),
    {
        self.refresh_triggers(None);
    }

    pub(crate) fn update_job_status(
        &mut self,
        id: &str,
        status: JobStatus,
        end_scope: Option<String>,
    )
        ensures
            final(self)@ == old(self)@.with_job_status(id@, status, text::opt_text(end_scope)),
            old(self).wf() ==> final(self).wf(),
    {
        let ghost before = self@.jobs;
        let known = set_job_status(&mut self.jobs, id, status, end_scope);
        if known {
            if let Some(card) = self.job_cards.get(id) {
                let found = find_job(&self.jobs, id);
                proof {
                    lemma_status_keeps_place(before, id@, status, text::opt_text(end_scope));
                }
                if let Some(at) = found {
                    self.refresh_job_card(card, at);
                }
            }
        }
        self.refresh_cron_trigger_card(id);
    }

    pub(crate) fn upsert_cron(&mut self, id: String, label: String, status: CronStatus)
        ensures
            final(self)@ == old(self)@.with_cron(id@, label@, status),
            old(self).wf() ==> final(self).wf(),
    {
        let cron_id = id.clone();
        upsert_cron_row(&mut self.crons, id, label, status);
        self.refresh_cron_cards_for_cron(cron_id.as_str());
    }

    pub(crate) fn ensure_cron_trigger_card(&mut self, cron_id: &str, job_id: &str)
        ensures
            final(self)@ == old(self)@.with_trigger_card(cron_id@, job_id@),
            old(self).wf() ==> final(self).wf(),
    {
        if let Some(i) = find_cron_card(&self.cron_job_cards, job_id) {
            assert(self@.cron_job_cards[i as int] == self.cron_job_cards@[i as int]@);
            let card = self.cron_job_cards[i].card;
            if text::str_eq(self.cron_job_cards[i].cron_id.as_str(), cron_id) && card
                < self.main_view.cards.len() {
                assert(self@.main_view.cards[card as int] == self.main_view.cards@[card as int]@);
                if let Mode::Cron = self.main_view.cards[card].mode {
                    return;
                }
            }
        }
        let card = self.main_view.push_card(text::concat2("cron trigger ", cron_id), Mode::Cron);
        self.main_view.set_card_label(card, cron_id.to_owned());
        put_cron_card(
            &mut self.cron_job_cards,
            CronCard { job_id: job_id.to_owned(), cron_id: cron_id.to_owned(), card },
        );
    }
}

/// A known job stays in its place when its status changes.
proof fn lemma_status_keeps_place(
    jobs: Seq<JobRowModel>,
    id: Text,
    status: JobStatus,
    end_scope: Option<Text>,
)
    requires
        super::rows::job_from(jobs, id, 0) is Some,
    ensures
        super::rows::job_from(job_status_set(jobs, id, status, end_scope), id, 0)
            == super::rows::job_from(jobs, id, 0),
{
    super::rows::lemma_job_from(jobs, id, 0);
    let after = job_status_set(jobs, id, status, end_scope);
    super::rows::lemma_job_from_same(jobs, after, id, 0);
}

/// The card of a job, once made, is found again and shows the job.
pub proof fn lemma_job_card_found(s: AppModel, job_id: Text, input: Text)
    requires
        s.main_view.cards.len() < usize::MAX,
    ensures
        ({
            let (t, card) = s.with_job_card(job_id, input);
            &&& card_of(t.job_cards, job_id) == Some(card)
            &&& t.is_job_card(card, job_id)
            &&& t.with_job_card(job_id, input) == (t, card)
        }),
{
    super::tables::lemma_card_found(
        s.job_cards,
        job_id,
        s.main_view.cards.len() as usize,
        job_id,
    );
    super::tables::lemma_card_found(
        without_card_of(s.job_cards, job_id),
        job_id,
        s.main_view.cards.len() as usize,
        job_id,
    );
}

} // verus!
