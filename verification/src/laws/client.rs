//! The front end: what the user asks for reaches the job that they see, and what the daemon
//! tells shows where it belongs.

use vstd::prelude::*;

use crate::job::JobStatus;
use crate::laws::texts::{print, printed};
use crate::text::Text;
use crate::tui::app::events::{current_step, first_step, running_from};
use crate::tui::app::prompt::{takes_any, takes_job};
use crate::tui::app::requests::output_request;
use crate::tui::app::rows::{
    job_from, job_rows_of, job_status_set, job_upserted, job_with, jobs_without, running_count,
    running_items, CronRowModel, JobRowModel,
};
use crate::tui::app::state::{AppModel, EffectModel};
use crate::tui::app::tables::{
    card_of, entry_from, pending_ascend, pending_from, pending_inserted, pending_with,
    pending_without, with_card_of,
};
use crate::tui::ipc::{
    ChainInfo, ChainJobInfo, EventPayload, JobInfo, JobOpenHint, RequestModel, WriterModel,
};
use crate::tui::keys::{KeyCode, KeyEvent};
use crate::tui::main_view::CardStatus;
use crate::tui::message::ActionModel;
use crate::tui::submission::{local_command, LocalCommand, PendingModel};
use crate::tui::target_config::ProfileModel;
use crate::tui::target_settings::{SaveActionModel, SettingsModel};

verus! {

// ── Requests ──

/// Each request is sent under the next number, behind those that wait; where requests are
/// refused nothing is sent.
pub proof fn lemma_request_sent(w: WriterModel, payload: RequestModel)
    ensures
        w.refusal is None ==> {
            &&& w.with_request(payload).outgoing == w.outgoing.push((w.next_id, payload))
            &&& w.next_id < u32::MAX ==> w.with_request(payload).next_id == w.next_id + 1
            &&& w.next_id == u32::MAX ==> w.with_request(payload).next_id == 0
        },
        w.refusal is Some ==> w.with_request(payload) == w,
{
}

/// A command of the user that is not done here is sent just as it was typed, in the mode
/// that is shown, and the prompt is emptied.
pub proof fn lemma_command_sent_as_typed(s: AppModel, t: Text)
    requires
        local_command(t) is None,
        s.writer matches Some(w) && w.refusal is None,
    ensures
        ({
            let after = s.submitted(t);
            let w = s.writer->0;
            &&& after.writer matches Some(v) && v.outgoing == w.outgoing.push(
                (w.next_id, RequestModel::Eval { input: t, mode: s.mode }),
            )
            &&& after.input.content.len() == 0
            &&& after.main_view == s.main_view
            &&& !after.status_bar.clear_enabled || after.pending_submissions.len() == 0
        }),
{
}

/// Quitting quits and restarting asks for a restart; nothing is sent.
pub proof fn lemma_done_here(s: AppModel, t: Text)
    requires
        s.main_view.cards.len() < usize::MAX,
    ensures
        local_command(t) == Some(LocalCommand::Quit) ==> s.submitted(t).should_quit && s.submitted(
            t,
        ).writer == s.writer,
        local_command(t) == Some(LocalCommand::Restart) && s.restart_available ==> s.submitted(
            t,
        ).effects == s.effects.push(
            EffectModel::Restart { card_index: s.main_view.cards.len() as usize },
        ) && s.submitted(t).writer == s.writer,
        local_command(t) == Some(LocalCommand::Restart) && !s.restart_available ==> s.submitted(
            t,
        ).effects == s.effects && s.submitted(t).main_view.cards.last().status is Error,
        local_command(t) is None && s.writer is None ==> s.submitted(t).main_view.cards.last().status
            is Error && s.submitted(t).main_view.cards.last().input == t && s.submitted(
            t,
        ).main_view.cards.len() == s.main_view.cards.len() + 1,
{
}

/// Output is asked for, and given up, on the channel of the job.
pub proof fn lemma_output_channels(id: Text)
    ensures
        output_request(id, true) == (RequestModel::Subscribe { channels: seq!["output:"@ + id] }),
        output_request(id, false) == (RequestModel::Unsubscribe { channels: seq!["output:"@ + id] }),
{
}

// ── Requests that wait ──

proof fn lemma_pending_from(s: Seq<(u32, PendingModel)>, id: u32, i: int)
    requires
        0 <= i <= s.len(),
    ensures
        pending_from(s, id, i) matches Some(k) ==> i <= k < s.len() && s[k].0 == id && forall|j: int|
            i <= j < k ==> (#[trigger] s[j]).0 != id,
        pending_from(s, id, i) is None ==> forall|j: int|
            i <= j < s.len() ==> (#[trigger] s[j]).0 != id,
    decreases s.len() - i,
{
    if i < s.len() && s[i].0 != id {
        lemma_pending_from(s, id, i + 1);
    }
}

proof fn lemma_inserted_held(s: Seq<(u32, PendingModel)>, id: u32, p: PendingModel)
    requires
        pending_ascend(s),
    ensures
        ({
            let t = pending_inserted(s, id, p);
            &&& exists|k: int| 0 <= k < t.len() && #[trigger] t[k] == (id, p)
            &&& forall|k: int|
                0 <= k < t.len() && (#[trigger] t[k]).0 != id ==> exists|j: int|
                    0 <= j < s.len() && #[trigger] s[j] == t[k]
            &&& forall|k: int| 0 <= k < t.len() && (#[trigger] t[k]).0 == id ==> t[k].1 == p
            &&& forall|j: int|
                0 <= j < s.len() && (#[trigger] s[j]).0 != id ==> exists|k: int|
                    0 <= k < t.len() && #[trigger] t[k] == s[j]
        }),
    decreases s.len(),
{
    let t = pending_inserted(s, id, p);
    if s.len() == 0 || s.last().0 < id {
        assert(t[s.len() as int] == (id, p));
        assert forall|k: int| 0 <= k < t.len() && (#[trigger] t[k]).0 != id implies exists|j: int|
            0 <= j < s.len() && #[trigger] s[j] == t[k] by {
            assert(s[k] == t[k]);
        }
        assert forall|k: int| 0 <= k < t.len() && (#[trigger] t[k]).0 == id implies t[k].1 == p by {
            if k < s.len() {
                assert(s[k].0 <= s[s.len() - 1].0);
            }
        }
        assert forall|j: int| 0 <= j < s.len() && (#[trigger] s[j]).0 != id implies exists|k: int|
            0 <= k < t.len() && #[trigger] t[k] == s[j] by {
            assert(t[j] == s[j]);
        }
    } else if s.last().0 == id {
        assert(t[s.len() - 1] == (id, p));
        assert forall|k: int| 0 <= k < t.len() && (#[trigger] t[k]).0 != id implies exists|j: int|
            0 <= j < s.len() && #[trigger] s[j] == t[k] by {
            assert(s[k] == t[k]);
        }
        assert forall|k: int| 0 <= k < t.len() && (#[trigger] t[k]).0 == id implies t[k].1 == p by {
            if k < s.len() - 1 {
                assert(s[k].0 < s[s.len() - 1].0);
            }
        }
        assert forall|j: int| 0 <= j < s.len() && (#[trigger] s[j]).0 != id implies exists|k: int|
            0 <= k < t.len() && #[trigger] t[k] == s[j] by {
            assert(t[j] == s[j]);
        }
    } else {
        let front = s.drop_last();
        assert forall|i: int, j: int| 0 <= i < j < front.len() implies (#[trigger] front[i]).0 < (
        #[trigger] front[j]).0 by {
            assert(front[i] == s[i] && front[j] == s[j]);
        }
        lemma_inserted_held(front, id, p);
        let u = pending_inserted(front, id, p);
        let w = choose|k: int| 0 <= k < u.len() && #[trigger] u[k] == (id, p);
        assert(t[w] == (id, p));
        assert forall|k: int| 0 <= k < t.len() && (#[trigger] t[k]).0 != id implies exists|j: int|
            0 <= j < s.len() && #[trigger] s[j] == t[k] by {
            if k < u.len() {
                assert(u[k] == t[k]);
                let j = choose|j: int| 0 <= j < front.len() && #[trigger] front[j] == u[k];
                assert(s[j] == t[k]);
            } else {
                assert(s[s.len() - 1] == t[k]);
            }
        }
        assert forall|k: int| 0 <= k < t.len() && (#[trigger] t[k]).0 == id implies t[k].1 == p by {
            if k < u.len() {
                assert(u[k] == t[k]);
            }
        }
        assert forall|j: int| 0 <= j < s.len() && (#[trigger] s[j]).0 != id implies exists|k: int|
            0 <= k < t.len() && #[trigger] t[k] == s[j] by {
            if j < front.len() {
                assert(front[j] == s[j]);
                let k = choose|k: int| 0 <= k < u.len() && #[trigger] u[k] == front[j];
                assert(t[k] == s[j]);
            } else {
                assert(t[u.len() as int] == s[j]);
            }
        }
    }
}

/// The answer to a request is the answer to the command that was sent under its number.
pub proof fn lemma_answer_finds_its_request(
    s: Seq<(u32, PendingModel)>,
    id: u32,
    p: PendingModel,
)
    requires
        pending_ascend(s),
    ensures
        pending_with(pending_inserted(s, id, p), id) == Some(p),
{
    lemma_inserted_held(s, id, p);
    let t = pending_inserted(s, id, p);
    lemma_pending_from(t, id, 0);
    let k = choose|k: int| 0 <= k < t.len() && #[trigger] t[k] == (id, p);
    assert(t[k].0 == id);
}

/// An answered request waits no longer, and all others do.
pub proof fn lemma_answered_request_gone(s: Seq<(u32, PendingModel)>, id: u32, j: int)
    requires
        pending_ascend(s),
        0 <= j < s.len(),
    ensures
        pending_with(pending_without(s, id), id) is None,
        s[j].0 != id ==> pending_without(s, id).contains(s[j]),
{
    lemma_pending_from(s, id, 0);
    let t = pending_without(s, id);
    lemma_pending_from(t, id, 0);
    if let Some(i) = pending_from(s, id, 0) {
        assert forall|k: int| 0 <= k < t.len() implies (#[trigger] t[k]).0 != id by {
            if k < i {
                assert(t[k] == s[k]);
            } else {
                assert(t[k] == s[k + 1]);
                assert(s[i].0 < s[k + 1].0);
            }
        }
        if s[j].0 != id {
            if j < i {
                assert(t[j] == s[j]);
            } else {
                assert(t[j - 1] == s[j]);
            }
        }
    } else {
        assert(t[j] == s[j]);
    }
}

// ── Cards of jobs ──

proof fn lemma_entry_from(t: Seq<(Text, usize)>, key: Text, i: int)
    requires
        0 <= i <= t.len(),
    ensures
        entry_from(t, key, i) matches Some(k) ==> i <= k < t.len() && t[k].0 == key && forall|j: int|
            i <= j < k ==> (#[trigger] t[j]).0 != key,
        entry_from(t, key, i) is None ==> forall|j: int|
            i <= j < t.len() ==> (#[trigger] t[j]).0 != key,
    decreases t.len() - i,
{
    if i < t.len() && t[i].0 != key {
        lemma_entry_from(t, key, i + 1);
    }
}

/// A job is found on the card that it was given, whatever card it had before.
pub proof fn lemma_card_of_a_job(t: Seq<(Text, usize)>, key: Text, card: usize)
    ensures
        card_of(with_card_of(t, key, card), key) == Some(card),
{
    lemma_entry_from(t, key, 0);
    let u = with_card_of(t, key, card);
    lemma_entry_from(u, key, 0);
    match entry_from(t, key, 0) {
        Some(i) => {
            assert(u[i] == (key, card));
            if let Some(k) = entry_from(u, key, 0) {
                if k < i {
                    assert(u[k] == t[k]);
                }
            }
        },
        None => {
            assert(u[t.len() as int] == (key, card));
            if let Some(k) = entry_from(u, key, 0) {
                if k < t.len() {
                    assert(u[k] == t[k]);
                }
            }
        },
    }
}

// ── The rows that are seen ──

/// The sidebar lists the newest first: the entry in a row is the job that the row opens.
pub proof fn lemma_rows_open_what_they_show(s: AppModel, row: int)
    requires
        s.display.tabs.len() < usize::MAX,
    ensures
        s.mode is Job && 0 <= row < s.jobs.len() ==> {
            let id = s.items()[row].id;
            let job = s.jobs[s.jobs.len() - 1 - row];
            &&& job.id == id
            &&& job.status is Running ==> s.row_opened(row) == s.submitted(":fg "@ + id)
            &&& !(job.status is Running) ==> s.row_opened(row) == s.submitted(":out "@ + id)
        },
        s.mode is Cron && 0 <= row < s.crons.len() ==> {
            let id = s.items()[row].id;
            &&& s.row_opened(row).writer == s.writer
            &&& s.row_opened(row).display.active_tab() matches Some(tab) && tab.target == (
            crate::tui::display::TargetModel::Preview { key: "cron:"@ + id, title: "cron "@ + id })
        },
        s.mode is Job && !(0 <= row < s.jobs.len()) ==> s.row_opened(row) == s,
        s.mode is Cron && !(0 <= row < s.crons.len()) ==> s.row_opened(row) == s,
{
    if s.mode is Cron && 0 <= row < s.crons.len() {
        let c = s.crons[s.crons.len() - 1 - row];
        let preview = crate::tui::display::PreviewModel {
            key: "cron:"@ + c.id,
            title: "cron "@ + c.id,
            content: crate::tui::record_format::cron_preview(c.id, c.label, c.status),
        };
        let target = crate::tui::display::TargetModel::Preview {
            key: preview.key,
            title: preview.title,
        };
        crate::tui::display::lemma_tab_from(s.display.tabs, target, 0);
        assert(s.row_opened(row) == s.with_preview(preview));
    }
}

/// Killing the selection kills the job of the selected row if it runs, and removes the cron
/// of the selected row.
pub proof fn lemma_selection_killed(s: AppModel, row: usize)
    requires
        s.sidebar.selected == Some(row),
    ensures
        row < s.items().len() && s.mode is Cron ==> s.selection_killed() == s.submitted(
            ":kill "@ + s.items()[row as int].id,
        ),
        row < s.items().len() && s.mode is Job ==> {
            let job = s.jobs[s.jobs.len() - 1 - row];
            &&& job.status is Running ==> s.selection_killed() == s.submitted(
                ":kill "@ + s.items()[row as int].id,
            )
            &&& !(job.status is Running) ==> s.selection_killed() == s
        },
        row >= s.items().len() ==> s.selection_killed() == s,
        (AppModel { sidebar: crate::tui::sidebar::SidebarModel { selected: None, ..s.sidebar }, ..s })
            .kill_command() is None,
{
}

/// The picker offers just the jobs that run, and kills the one that is picked.
pub proof fn lemma_running_jobs_offered(jobs: Seq<JobRowModel>, job: JobRowModel)
    ensures
        running_items(Seq::empty()).len() == 0,
        job.status is Running ==> running_items(jobs.push(job)).len() == running_items(jobs).len()
            + 1 && running_items(jobs.push(job)).last().id == job.id && running_items(
            jobs.push(job),
        ).last().label == job.label && running_count(jobs.push(job)) == running_count(jobs) + 1,
        !(job.status is Running) ==> running_items(jobs.push(job)) == running_items(jobs)
            && running_count(jobs.push(job)) == running_count(jobs),
        running_count(Seq::empty()) == 0,
{
    assert(jobs.push(job).drop_last() =~= jobs);
}

/// What is picked is killed, and the picker closes.
pub proof fn lemma_picked_is_killed(s: AppModel, i: usize)
    requires
        s.job_picker matches Some(p) && p.selected == Some(i),
        i < s.picker_items().len(),
    ensures
        s.picked_killed() == (AppModel { job_picker: None, ..s }).submitted(
            ":kill "@ + s.picker_items()[i as int].id,
        ),
{
}

/// The entries of the sidebar are those of the mode, the newest in front.
pub proof fn lemma_entries_newest_first(s: AppModel, i: int)
    ensures
        s.mode is Job ==> s.items().len() == s.jobs.len() && (0 <= i < s.jobs.len() ==> s.items()[i].id
            == s.jobs[s.jobs.len() - 1 - i].id && s.items()[i].label == s.jobs[s.jobs.len() - 1
            - i].label),
        s.mode is Cron ==> s.items().len() == s.crons.len() && (0 <= i < s.crons.len()
            ==> s.items()[i].id == s.crons[s.crons.len() - 1 - i].id && s.items()[i].label
            == s.crons[s.crons.len() - 1 - i].label),
{
}

// ── Rows ──

proof fn lemma_job_from(jobs: Seq<JobRowModel>, id: Text, i: int)
    requires
        0 <= i <= jobs.len(),
    ensures
        job_from(jobs, id, i) matches Some(k) ==> i <= k < jobs.len() && jobs[k].id == id,
        job_from(jobs, id, i) is None ==> forall|j: int|
            i <= j < jobs.len() ==> (#[trigger] jobs[j]).id != id,
    decreases jobs.len() - i,
{
    if i < jobs.len() && jobs[i].id != id {
        lemma_job_from(jobs, id, i + 1);
    }
}

/// A change of one job leaves all others as they are; what the change does not tell stays.
pub proof fn lemma_one_job_changed(
    jobs: Seq<JobRowModel>,
    id: Text,
    label: Text,
    status: JobStatus,
    scope: Option<Text>,
    hint: JobOpenHint,
    j: int,
)
    requires
        0 <= j < jobs.len(),
    ensures
        ({
            let up = job_upserted(jobs, id, label, status, scope, hint);
            let set = job_status_set(jobs, id, status, scope);
            &&& jobs[j].id != id ==> up[j] == jobs[j] && set[j] == jobs[j]
            &&& jobs[j].id == id ==> up.len() == jobs.len() && set.len() == jobs.len()
            &&& job_from(jobs, id, 0) == Some(j) ==> {
                &&& up[j].id == id && up[j].status == status && up[j].open_hint == hint
                &&& label.len() > 0 ==> up[j].label == label
                &&& label.len() == 0 ==> up[j].label == jobs[j].label
                &&& scope is Some ==> up[j].start_scope == scope
                &&& scope is None ==> up[j].start_scope == jobs[j].start_scope
                &&& up[j].end_scope == jobs[j].end_scope
                &&& set[j].id == id && set[j].status == status && set[j].label == jobs[j].label
                &&& scope is Some ==> set[j].end_scope == scope
                &&& scope is None ==> set[j].end_scope == jobs[j].end_scope
                &&& set[j].start_scope == jobs[j].start_scope
            }
        }),
{
    lemma_job_from(jobs, id, 0);
}

/// A job that was not known is added as the newest.
pub proof fn lemma_new_job_added(
    jobs: Seq<JobRowModel>,
    id: Text,
    label: Text,
    status: JobStatus,
    scope: Option<Text>,
    hint: JobOpenHint,
)
    requires
        forall|j: int| 0 <= j < jobs.len() ==> (#[trigger] jobs[j]).id != id,
    ensures
        ({
            let up = job_upserted(jobs, id, label, status, scope, hint);
            let set = job_status_set(jobs, id, status, scope);
            &&& up.drop_last() == jobs && set.drop_last() == jobs
            &&& up.last() == (JobRowModel {
                id,
                label,
                status,
                start_scope: scope,
                end_scope: None,
                open_hint: hint,
            })
            &&& set.last().id == id && set.last().status == status && set.last().end_scope == scope
        }),
{
    lemma_job_from(jobs, id, 0);
    let up = job_upserted(jobs, id, label, status, scope, hint);
    let set = job_status_set(jobs, id, status, scope);
    assert(up.drop_last() =~= jobs);
    assert(set.drop_last() =~= jobs);
}

/// Removing a job removes it and no other, and the others keep their order.
pub proof fn lemma_job_removed(jobs: Seq<JobRowModel>, id: Text, job: JobRowModel)
    ensures
        jobs_without(Seq::empty(), id).len() == 0,
        job.id == id ==> jobs_without(jobs.push(job), id) == jobs_without(jobs, id),
        job.id != id ==> jobs_without(jobs.push(job), id) == jobs_without(jobs, id).push(job),
{
    assert(jobs.push(job).drop_last() =~= jobs);
}

// ── What the daemon tells ──

/// A chain that ended shows how on its card, and on no other.
pub proof fn lemma_ended_chain_shown(s: AppModel, chain_id: Text, success: bool, card: usize, j: int)
    requires
        card_of(s.chain_cards, chain_id) == Some(card),
        card < s.main_view.cards.len(),
        0 <= j < s.main_view.cards.len(),
    ensures
        ({
            let after = s.chain_finished(chain_id, success).main_view.cards;
            &&& success ==> after[card as int].status is Success
            &&& !success ==> after[card as int].status is Error
            &&& after[card as int].output == s.main_view.cards[card as int].output
            &&& j != card ==> after[j] == s.main_view.cards[j]
        }),
{
}

/// A changed state is the state of the job from then on, and its card shows it.
pub proof fn lemma_changed_state_shown(s: AppModel, id: Text, status: JobStatus, card: usize)
    requires
        job_with(s.jobs, id) is Some,
        card_of(s.job_cards, id) == Some(card),
        card < s.main_view.cards.len(),
        s.cron_job_cards.len() == 0,
    ensures
        ({
            let after = s.with_job_status(id, status, None);
            &&& job_with(after.jobs, id) matches Some(j) && j.status == status
            &&& after.main_view.cards[card as int].status == match status {
                JobStatus::Pending => CardStatus::Pending,
                JobStatus::Running => CardStatus::Streaming,
                JobStatus::Done => CardStatus::Success,
                _ => CardStatus::Error,
            }
        }),
{
    let set = job_status_set(s.jobs, id, status, None);
    lemma_job_from(s.jobs, id, 0);
    lemma_same_ids_found(s.jobs, set, id, 0);
}

proof fn lemma_same_ids_found(a: Seq<JobRowModel>, b: Seq<JobRowModel>, id: Text, i: int)
    requires
        0 <= i <= a.len(),
        a.len() == b.len(),
        forall|j: int| 0 <= j < a.len() ==> (#[trigger] b[j]).id == a[j].id,
    ensures
        job_from(a, id, i) == job_from(b, id, i),
    decreases a.len() - i,
{
    if i < a.len() {
        assert(b[i].id == a[i].id);
        lemma_same_ids_found(a, b, id, i + 1);
    }
}

/// A daemon that shuts down is not connected any more.
pub proof fn lemma_shut_down(s: AppModel, reason: Text)
    ensures
        !s.shutting_down(reason).connected,
        !s.shutting_down(reason).status_bar.connected,
        s.shutting_down(reason).jobs == s.jobs,
{
}

/// Output that comes in is for the display alone.
pub proof fn lemma_output_told(s: AppModel, id: String, stream: crate::tui::ipc::Stream, data: String)
    ensures
        s.told(EventPayload::OutputChunk { id, stream, data }) == (AppModel {
            display: s.display.with_appended(id@, stream, data@),
            ..s
        }),
        s.told(EventPayload::OutputEof { id }) == s,
        s.told(EventPayload::Other) == s,
{
    reveal(AppModel::told);
}

proof fn lemma_running_from(jobs: Seq<ChainJobInfo>, i: int)
    requires
        0 <= i <= jobs.len(),
    ensures
        running_from(jobs, i) matches Some(k) ==> i <= k < jobs.len() && jobs[k].status is Running
            && forall|j: int| i <= j < k ==> !((#[trigger] jobs[j]).status is Running),
        running_from(jobs, i) is None ==> forall|j: int|
            i <= j < jobs.len() ==> !((#[trigger] jobs[j]).status is Running),
    decreases jobs.len() - i,
{
    if i < jobs.len() && !(jobs[i].status is Running) {
        lemma_running_from(jobs, i + 1);
    }
}

/// A chain is at the first job that runs.
pub proof fn lemma_step_of_a_chain(chain: ChainInfo, k: int)
    requires
        0 <= k < chain.jobs@.len(),
        chain.jobs@[k].status is Running,
        forall|j: int| 0 <= j < k ==> !((#[trigger] chain.jobs@[j]).status is Running),
    ensures
        first_step(chain) == k,
        k < chain.total_jobs ==> current_step(chain) == k,
{
    lemma_running_from(chain.jobs@, 0);
}

/// A list of jobs holds what the daemon said of each.
pub proof fn lemma_listed_jobs(list: Seq<JobInfo>, i: int)
    requires
        0 <= i < list.len(),
    ensures
        job_rows_of(list).len() == list.len(),
        job_rows_of(list)[i].id == list[i].id@,
        job_rows_of(list)[i].label == list[i].pipeline@,
        job_rows_of(list)[i].status == list[i].status,
        job_rows_of(list)[i].open_hint == list[i].open_hint,
{
}

// ── Actions ──

/// Each action does what its name says.
pub proof fn lemma_actions(s: AppModel, t: Text)
    ensures
        s.acted(ActionModel::Submit(t)) == s.submitted(t),
        s.acted(ActionModel::Quit) == (AppModel { should_quit: true, ..s }),
        s.acted(ActionModel::OpenJobPicker) == s.picker_opened(),
        s.acted(ActionModel::KillSelection) == s.selection_killed(),
        s.acted(ActionModel::CopyFocus) == s.copied(),
        s.acted(ActionModel::ModeSwitch) == s.mode_switched(),
        s.acted(ActionModel::OpenTargetSettings) == s.settings_toggled(),
        s.acted(ActionModel::ClearDisplay) == s.cleared(),
{
    reveal(AppModel::acted);
}

/// What is toggled is the other way round then.
pub proof fn lemma_toggled(s: AppModel)
    ensures
        s.acted(ActionModel::ToggleSidebar).sidebar_visible() == !s.sidebar_visible(),
        s.acted(ActionModel::ToggleMouseMode).mouse_mode != s.mouse_mode,
        s.acted(ActionModel::ToggleMouseMode).status_bar.mouse_mode == s.acted(
            ActionModel::ToggleMouseMode,
        ).mouse_mode,
        s.settings_open() ==> !s.settings_toggled().settings_open(),
        !s.settings_open() ==> s.settings_toggled().effects == s.effects.push(
            EffectModel::LoadTargets { notice: None },
        ),
        s.picker_opened().job_picker is Some && !s.picker_opened().settings_open(),
        s.fg_session is Some ==> s.mode_switched() == s,
{
    reveal(AppModel::acted);
}

proof fn lemma_requests_leave_the_log(s: AppModel, ids: Seq<Text>, n: int, subscribe: bool)
    ensures
        s.output_requested(ids, n, subscribe).main_view == s.main_view,
        s.output_requested(ids, n, subscribe).jobs == s.jobs,
    decreases n,
{
    if n > 0 {
        lemma_requests_leave_the_log(s, ids, n - 1, subscribe);
    }
}

/// Clearing empties the log and the display, if nothing waits for an answer, and else does
/// nothing; the jobs stay.
pub proof fn lemma_cleared(s: AppModel)
    ensures
        s.pending_submissions.len() > 0 ==> s.cleared() == s,
        s.pending_submissions.len() == 0 ==> {
            &&& s.cleared().main_view.cards.len() == 0
            &&& s.cleared().display.tabs.len() == 0
            &&& s.cleared().job_cards.len() == 0
            &&& s.cleared().jobs == s.jobs
        },
{
    if s.pending_submissions.len() == 0 {
        let inner = AppModel { main_view: s.main_view.cleared(), ..s };
        let ids = s.display_subscriptions;
        lemma_requests_leave_the_log(
            AppModel { display_subscriptions: Seq::empty(), ..inner },
            ids,
            ids.len() as int,
            false,
        );
    }
}

/// A switch of the mode reaches every panel.
pub proof fn lemma_mode_of_every_panel(s: AppModel)
    requires
        s.fg_session is None,
    ensures
        ({
            let after = s.mode_switched();
            &&& s.mode is Job <==> after.mode is Cron
            &&& after.input.mode == after.mode
            &&& after.main_view.mode == after.mode
            &&& after.sidebar.mode == after.mode
            &&& after.status_bar.mode == after.mode
            &&& after.sidebar.items == after.items()
            &&& after.input.content == s.input.content
            &&& after.main_view.cards == s.main_view.cards
        }),
{
}

/// What is copied is what stands in front: the session, else the dialog, else the tab that
/// is shown, else the newest record.
pub proof fn lemma_copied(s: AppModel)
    ensures
        s.fg_session matches Some(f) ==> s.copy_target() == Some(("fg "@ + f.id, f.screen().contents)),
        s.fg_session is None && !s.settings_open() ==> (s.display.copy_target() matches Some(t)
            ==> s.copy_target() == Some(t)),
        s.fg_session is None && !s.settings_open() && s.display.copy_target() is None
            && s.main_view.cards.len() == 0 ==> s.copy_target() is None,
        s.copy_target() matches Some((label, content)) ==> s.copied().effects == s.effects.push(
            EffectModel::Copy { label, content },
        ),
        s.copy_target() is None ==> s.copied() == s,
{
}

/// The keys that work everywhere: control with `d` quits, with `l` clears, with `c` opens the
/// picker, with `y` copies and with `t` opens the dialog for targets.
pub proof fn lemma_keys_that_work_everywhere(s: AppModel, key: KeyEvent)
    requires
        key.kind is Press,
        key.modifiers.control,
        s.fg_session is None,
        s.job_picker is None,
    ensures
        key.code == KeyCode::Char('d') ==> s.keyed(key) == (AppModel { should_quit: true, ..s }),
        key.code == KeyCode::Char('l') ==> s.keyed(key) == s.cleared(),
        key.code == KeyCode::Char('c') ==> s.keyed(key).job_picker is Some,
        key.code == KeyCode::Char('y') ==> s.keyed(key) == s.copied(),
        key.code == KeyCode::Char('t') ==> s.keyed(key) == s.settings_toggled(),
{
    reveal(AppModel::keyed);
}

/// In the picker Esc and control with `c` close it, and nothing but Enter kills.
pub proof fn lemma_keys_of_the_picker(s: AppModel, key: KeyEvent)
    requires
        s.job_picker is Some,
    ensures
        key.code is Esc ==> s.picker_keyed(key) == (AppModel { job_picker: None, ..s }),
        key.code == KeyCode::Char('c') && key.modifiers.control ==> s.picker_keyed(key) == (AppModel {
            job_picker: None,
            ..s
        }),
        key.code is Enter ==> s.picker_keyed(key) == s.picked_killed(),
        !(key.code is Enter) ==> s.picker_keyed(key).writer == s.writer && s.picker_keyed(
            key,
        ).main_view == s.main_view,
        key.code is Up ==> s.picker_keyed(key).job_picker == Some(
            (s.job_picker->0).moved(-1, s.picker_items().len()),
        ),
        key.code is Down ==> s.picker_keyed(key).job_picker == Some(
            (s.job_picker->0).moved(1, s.picker_items().len()),
        ),
{
}

/// Backspace and Delete kill only where a row of the sidebar is selected and in reach.
pub proof fn lemma_killing_keys(s: AppModel, key: KeyEvent)
    requires
        key.code is Backspace || key.code is Delete,
    ensures
        s.sidebar.selected is Some && s.focus is Sidebar ==> s.panel_keyed(key)
            == s.selection_killed(),
        s.sidebar.selected is Some && s.focus is MainView && s.sidebar_visible() ==> s.panel_keyed(
            key,
        ) == s.selection_killed(),
        s.focus is Input ==> s.panel_keyed(key).writer == s.writer,
{
    reveal(AppModel::panel_keyed);
}

// ── Connection ──

/// Without a connection nothing waits, no session is in the foreground and no request can be
/// sent.
pub proof fn lemma_connection_lost(s: AppModel)
    ensures
        ({
            let after = s.disconnected();
            &&& !after.connected
            &&& !after.status_bar.connected
            &&& after.writer is None
            &&& after.fg_session is None
            &&& after.job_picker is None
        }),
{
    reveal(AppModel::disconnected);
}

// ── IDs that commands take ──

proof fn lemma_command_prints()
    ensures
        print(":out"@) == printed(4, ':', 'o'),
        print(":err"@) == printed(4, ':', 'e'),
        print(":tail"@) == printed(5, ':', 't'),
        print(":retry"@) == printed(6, ':', 'r'),
        print(":fg"@) == printed(3, ':', 'f'),
        print(":wait"@) == printed(5, ':', 'w'),
        print(":send"@) == printed(5, ':', 's'),
        print(":kill"@) == printed(5, ':', 'k'),
        print(":cancel"@) == printed(7, ':', 'c'),
        print(":pause"@) == printed(6, ':', 'p'),
        print(":resume"@) == printed(7, ':', 'r'),
        print(":log"@) == printed(4, ':', 'l'),
{
    reveal_strlit(":out");
    reveal_strlit(":err");
    reveal_strlit(":tail");
    reveal_strlit(":retry");
    reveal_strlit(":fg");
    reveal_strlit(":wait");
    reveal_strlit(":send");
    reveal_strlit(":kill");
    reveal_strlit(":cancel");
    reveal_strlit(":pause");
    reveal_strlit(":resume");
    reveal_strlit(":log");
}

/// Commands on output are offered the jobs, those that end or look up something both jobs
/// and crons, and all others nothing.
pub proof fn lemma_ids_offered(s: AppModel, command: Text)
    ensures
        ({
            let jobs = s.jobs.map_values(|j: JobRowModel| j.id);
            let crons = s.crons.map_values(|c: CronRowModel| c.id);
            &&& s.command_ids(":out"@) == jobs && s.command_ids(":err"@) == jobs && s.command_ids(
                ":tail"@,
            ) == jobs && s.command_ids(":retry"@) == jobs && s.command_ids(":fg"@) == jobs
                && s.command_ids(":wait"@) == jobs && s.command_ids(":send"@) == jobs
            &&& s.command_ids(":kill"@) == jobs + crons && s.command_ids(":cancel"@) == jobs + crons
                && s.command_ids(":pause"@) == jobs + crons && s.command_ids(":resume"@) == jobs
                + crons && s.command_ids(":log"@) == jobs + crons
            &&& !takes_job(command) && !takes_any(command) ==> s.command_ids(command).len() == 0
        }),
{
    lemma_command_prints();
}

// ── Targets ──

proof fn lemma_named_from(profiles: Seq<ProfileModel>, name: Text, i: int)
    requires
        0 <= i <= profiles.len(),
    ensures
        crate::tui::target_settings::named_from(profiles, name, i) matches Some(k) ==> i <= k
            < profiles.len() && profiles[k].name == name,
        crate::tui::target_settings::named_from(profiles, name, i) is None ==> forall|j: int|
            i <= j < profiles.len() ==> (#[trigger] profiles[j]).name != name,
    decreases profiles.len() - i,
{
    if i < profiles.len() && profiles[i].name != name {
        lemma_named_from(profiles, name, i + 1);
    }
}

/// The dialog opens on the default, where it is among the profiles.
pub proof fn lemma_dialog_opens_on_the_default(
    snapshot: crate::tui::target_config::SnapshotModel,
    j: int,
)
    requires
        0 <= j < snapshot.profiles.len(),
        snapshot.profiles.len() <= usize::MAX,
        snapshot.profiles[j].name == snapshot.default_profile,
    ensures
        SettingsModel::opened(snapshot).selected_name() == Some(snapshot.default_profile),
        SettingsModel::opened(snapshot).pending is None,
        SettingsModel::opened(snapshot).notice is None,
{
    lemma_named_from(snapshot.profiles, snapshot.default_profile, 0);
}

/// Only a profile that can be used and is not the default yet is saved.
pub proof fn lemma_profiles_saved(s: SettingsModel, p: ProfileModel)
    requires
        s.selected_profile() == Some(p),
    ensures
        s.save_action() == Some(
            SaveActionModel::Save { snapshot: s.snapshot, profile_name: p.name },
        ) <==> (p.transport is Unix || p.transport is Ssh) && s.snapshot.default_profile != p.name,
        s.save_action() is Some,
{
}

/// Saving sends the selected profile to be the default, unless it is.
pub proof fn lemma_selected_profile_saved(s: AppModel, t: SettingsModel, name: Text)
    requires
        s.target_settings == Some(t),
        t.selected_name() == Some(name),
    ensures
        t.snapshot.default_profile != name ==> s.target_save().effects == s.effects.push(
            EffectModel::SaveTarget { profile_name: name, snapshot: t.snapshot },
        ),
        t.snapshot.default_profile == name ==> s.target_save().effects == s.effects,
{
}

/// A switch goes to the profile that was saved, and once it is taken it is that profile that
/// is being connected to.
pub proof fn lemma_switch_to_the_saved_profile(s: AppModel, t: SettingsModel, name: Text)
    requires
        s.target_settings == Some(t),
    ensures
        t.pending == Some(name) ==> s.target_switch().effects == s.effects.push(
            EffectModel::SwitchTarget { profile_name: name },
        ),
        t.pending is None ==> s.target_switch() == s,
        s.can_reconnect ==> s.target_switched(name, Ok(true)).pending_reconnect_profile_name == Some(
            name,
        ),
        s.target_switched(name, Ok(false)).pending_reconnect_profile_name
            == s.pending_reconnect_profile_name,
{
}

// ── The foreground ──

/// A session ends with its job: done and detached are successes, everything else is not;
/// the end of another job does not touch it.
pub proof fn lemma_session_ended(s: AppModel, id: Text, reason: Text, card: usize)
    requires
        s.fg_session matches Some(f) && f.card_index == Some(card),
        card < s.main_view.cards.len(),
    ensures
        (s.fg_session->0).id != id ==> s.fg_finished(id, reason) == s,
        (s.fg_session->0).id == id ==> {
            let after = s.fg_finished(id, reason);
            &&& after.fg_session is None
            &&& reason == "done"@ || reason == "detached"@ ==> after.main_view.cards[card as int].status
                is Success
            &&& reason != "done"@ && reason != "detached"@
                ==> after.main_view.cards[card as int].status is Error
        },
{
}

} // verus!
