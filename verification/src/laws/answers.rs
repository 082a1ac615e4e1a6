//! Answers of the daemon, clicks, and what is said of profiles.

use vstd::prelude::*;

use crate::text;
use crate::cron::CronStatus;
use crate::text::Text;
use crate::tui::app::mouse::Places;
use crate::tui::app::rows::{cron_from, cron_row_of, cron_upserted, crons_without, CronRowModel};
use crate::tui::app::state::AppModel;
use crate::tui::cli::{transport_error, ResolvedTransport};
use crate::tui::display::DisplayTabHit;
use crate::tui::geometry::{inside, Rect};
use crate::tui::ipc::{CronInfo, RequestModel};
use crate::tui::keys::{KeyCode, KeyEvent, MouseEvent};
use crate::tui::main_view::{chain_step, CardStatus};
use crate::tui::message::FocusArea;
use crate::tui::record_format::{end_scope_lines, job_lines, JobRecordModel};
use crate::tui::script_summary::run_status_name;
use crate::tui::submission::{
    operator_at, spacing_warnings, subscribing, unsubscribing, well_spaced, KindModel,
    PendingModel,
};
use crate::tui::target_config::ProfileModel;
use crate::tui::target_settings::{
    alert, profile_rows, row_from, saved_feedback, source_tag, TargetStyle,
};
use crate::tui::text_order::insert_text;

verus! {

// ── Answers ──

/// A command of the user without a card yet.
pub open spec fn of_user(p: PendingModel) -> bool {
    p.kind is User && p.card_index is None
}

/// An answer to a command of the user stands on a new card, with the command and, below
/// what there is to warn of, the answer; what failed is shown as failed.
pub proof fn lemma_answer_on_its_card(
    s: AppModel,
    p: PendingModel,
    body: Text,
    status: CardStatus,
    label: Option<Text>,
)
    requires
        of_user(p),
        s.main_view.cards.len() < usize::MAX,
    ensures
        ({
            let after = s.answered(Some(p), body, status, label).main_view.cards;
            let card = after.last();
            &&& after.len() == s.main_view.cards.len() + 1
            &&& card.input == p.input
            &&& card.mode == p.mode
            &&& card.status == status
            &&& card.label == label
            &&& p.warnings.len() == 0 ==> card.output == body
        }),
{
}

/// An answer to a request that was not the user's is not shown.
pub proof fn lemma_other_answers_not_shown(
    s: AppModel,
    p: PendingModel,
    body: Text,
    status: CardStatus,
)
    requires
        !(p.kind is User),
    ensures
        s.answered(Some(p), body, status, None) == s,
        s.answered(None, body, status, None) == s,
{
}

/// A job that was created runs, under the command that it was created by, and is the last of
/// the jobs if it was not known.
pub proof fn lemma_created_job_runs(
    s: AppModel,
    p: PendingModel,
    id: Text,
    scope: Option<Text>,
    hint: crate::tui::ipc::JobOpenHint,
)
    requires
        !(p.kind is User),
        forall|j: int| 0 <= j < s.jobs.len() ==> (#[trigger] s.jobs[j]).id != id,
    ensures
        ({
            let after = s.job_created(Some(p), id, scope, hint).jobs;
            &&& after.len() == s.jobs.len() + 1
            &&& after.last().id == id
            &&& after.last().status is Running
            &&& after.last().label == crate::tui::submission::command_label(p.input)
            &&& after.last().start_scope == scope
        }),
{
    crate::tui::app::rows::lemma_job_from(s.jobs, id, 0);
}

proof fn lemma_cron_from(crons: Seq<CronRowModel>, id: Text, i: int)
    requires
        0 <= i <= crons.len(),
    ensures
        cron_from(crons, id, i) matches Some(k) ==> i <= k < crons.len() && crons[k].id == id,
        cron_from(crons, id, i) is None ==> forall|j: int|
            i <= j < crons.len() ==> (#[trigger] crons[j]).id != id,
    decreases crons.len() - i,
{
    if i < crons.len() && crons[i].id != id {
        lemma_cron_from(crons, id, i + 1);
    }
}

/// A change of one cron leaves all others as they are.
pub proof fn lemma_one_cron_changed(
    crons: Seq<CronRowModel>,
    id: Text,
    label: Text,
    status: CronStatus,
    j: int,
)
    requires
        0 <= j < crons.len(),
    ensures
        ({
            let up = cron_upserted(crons, id, label, status);
            &&& crons[j].id != id ==> up[j] == crons[j]
            &&& crons[j].id == id ==> up.len() == crons.len()
            &&& cron_from(crons, id, 0) == Some(j) ==> up[j].id == id && up[j].status == status && (
            label.len() > 0 ==> up[j].label == label) && (label.len() == 0 ==> up[j].label
                == crons[j].label)
            &&& cron_from(crons, id, 0) is None ==> up.len() == crons.len() + 1 && up.last().id == id
                && up.last().status == status && up.last().label == label
        }),
{
    lemma_cron_from(crons, id, 0);
}

/// Removing a cron removes it and no other.
pub proof fn lemma_cron_removed(crons: Seq<CronRowModel>, id: Text, c: CronRowModel)
    ensures
        crons_without(Seq::empty(), id).len() == 0,
        c.id == id ==> crons_without(crons.push(c), id) == crons_without(crons, id),
        c.id != id ==> crons_without(crons.push(c), id) == crons_without(crons, id).push(c),
{
    assert(crons.push(c).drop_last() =~= crons);
}

/// A cron of a list is shown with its schedule and its command.
pub proof fn lemma_listed_cron(info: CronInfo)
    ensures
        cron_row_of(info).id == info.id@,
        cron_row_of(info).status == info.status,
        cron_row_of(info).label == info.schedule@ + seq![' '] + info.command@,
{
    reveal_strlit(" ");
    assert(" "@ =~= seq![' ']);
}

/// The steps of a chain are counted from one.
pub proof fn lemma_steps_counted_from_one(id: Text, step: nat, total: nat)
    ensures
        chain_step(id, step as int, total as int) == "chain:"@ + id + seq!['/'] + text::decimal(
            step + 1,
        ) + seq!['/'] + text::decimal(total),
{
    reveal_strlit("/");
    assert("/"@ =~= seq!['/']);
}

// ── Clicks ──

/// A click on the input line focuses it, one on a tab shows or closes it, and one on a row
/// of the sidebar selects that row and opens it.
pub proof fn lemma_clicked_row(s: AppModel, list: Rect, point: Rect, row: int)
    requires
        inside(list, point),
        row == s.sidebar.list_offset + (point.y - list.y),
        row < s.sidebar.items.len(),
        row <= usize::MAX,
    ensures
        ({
            let focused = s.with_focus(FocusArea::Sidebar);
            let chosen = AppModel {
                sidebar: crate::tui::sidebar::SidebarModel {
                    selected: Some(row as usize),
                    ..focused.sidebar
                },
                ..focused
            };
            s.sidebar_clicked(Some(list), point) == chosen.row_opened(row)
        }),
{
}

/// A click on a tab shows that tab, and one on its mark closes it.
pub proof fn lemma_clicked_tab(s: AppModel, i: usize)
    requires
        i < s.display.tabs.len(),
    ensures
        s.tab_clicked(DisplayTabHit::Activate(i)).display.active_tab() == Some(
            s.display.tabs[i as int],
        ),
        s.tab_clicked(DisplayTabHit::Activate(i)).focus is MainView,
        s.tab_clicked(DisplayTabHit::Close(i)) == s.with_focus(FocusArea::MainView).without_tab(i),
{
}

/// A click outside of a dialog closes it, and one on a profile selects it, or saves it if it
/// is selected.
pub proof fn lemma_clicked_dialog(s: AppModel, popup: Rect, point: Rect, i: int)
    requires
        s.target_settings is Some,
    ensures
        !inside(popup, point) ==> !s.settings_clicked(popup, point).settings_open()
            && s.settings_clicked(popup, point).effects == s.effects,
        inside(popup, point) && s.settings_hit(popup, point) == Some(i) && (
        s.target_settings->0).selected != i && 0 <= i < (s.target_settings->0).snapshot.profiles.len()
            && i <= usize::MAX ==> (s.settings_clicked(popup, point).target_settings matches Some(t)
            && t.selected == i) && s.settings_clicked(popup, point).effects == s.effects,
        inside(popup, point) && s.settings_hit(popup, point) is None ==> s.settings_clicked(
            popup,
            point,
        ) == s,
{
}

proof fn lemma_row_from(n: nat, i: int, k: int)
    requires
        0 <= i <= k < n,
        8 + 2 * n <= usize::MAX,
    ensures
        row_from(profile_rows(n), 8 + 2 * k, i) == Some(k),
    decreases k - i,
{
    assert(profile_rows(n)[i] == 8 + 2 * i);
    if i < k {
        lemma_row_from(n, i + 1, k);
    }
}

/// Each profile stands on a row of its own, two rows behind the one before it.
pub proof fn lemma_rows_of_profiles(n: nat, k: int)
    requires
        0 <= k < n,
        8 + 2 * n <= usize::MAX,
    ensures
        profile_rows(n)[k] == 8 + 2 * k,
        row_from(profile_rows(n), 8 + 2 * k, 0) == Some(k),
{
    lemma_row_from(n, 0, k);
}

/// While a session is in the foreground the mouse does nothing.
pub proof fn lemma_mouse_during_a_session(s: AppModel, mouse: MouseEvent, at: Places)
    requires
        s.fg_session is Some,
    ensures
        s.moused(mouse, at) == s,
{
    reveal(AppModel::moused);
}

/// A paste goes to the session in the foreground, and else into the input line.
pub proof fn lemma_pasted(s: AppModel, t: Text)
    ensures
        s.fg_session is None && s.job_picker is None ==> s.pasted(t).input == s.input.inserted(t)
            && s.pasted(t).focus is Input,
        s.fg_session is None && s.job_picker is Some ==> s.pasted(t) == s,
        s.fg_session is Some ==> s.pasted(t).input == s.input,
{
    reveal(AppModel::pasted);
}

/// In the foreground control with `z` leaves the session, and what is typed goes to it.
pub proof fn lemma_keys_of_a_session(s: AppModel, key: KeyEvent)
    requires
        s.fg_session is Some,
        s.writer matches Some(w) && w.refusal is None,
    ensures
        key.modifiers.control && key.code == KeyCode::Char('z') ==> (s.fg_keyed(key).writer matches Some(
            w,
        ) && w.outgoing == (s.writer->0).outgoing.push(((s.writer->0).next_id, RequestModel::FgDetach))),
        key.code is Enter && !key.modifiers.control ==> (s.fg_keyed(key).writer matches Some(w)
            && w.outgoing == (s.writer->0).outgoing.push(
            ((s.writer->0).next_id, RequestModel::FgInput { data: seq!['\r' as u8] }),
        )),
{
}

// ── Warnings on operators ──

/// An operator is well set when white space, or nothing, stands on both of its sides.
pub proof fn lemma_spacing(s: Text, pos: int, op: Text)
    requires
        0 <= pos,
        pos + op.len() <= s.len(),
    ensures
        well_spaced(s, pos, op) <==> (pos == 0 || text::is_white(s[pos - 1])) && (pos + op.len()
            == s.len() || text::is_white(s[pos + op.len()])),
{
}

/// The operators that are warned of are those between jobs.
pub proof fn lemma_operators_warned_of(pre: Text, post: Text)
    ensures
        operator_at(pre + seq!['-', '>'] + post, pre.len() as int) == Some("->"@),
        operator_at(pre + seq!['~', '>'] + post, pre.len() as int) == Some("~>"@),
        operator_at(pre + seq!['|', '|', '|'] + post, pre.len() as int) == Some("|||"@),
        operator_at(pre + seq!['|', '?', '|'] + post, pre.len() as int) == Some("|?|"@),
{
    reveal_strlit("->");
    reveal_strlit("~>");
    reveal_strlit("|||");
    reveal_strlit("|?|");
    let n = pre.len() as int;
    assert("->"@ =~= seq!['-', '>'] && "~>"@ =~= seq!['~', '>'] && "|||"@ =~= seq!['|', '|', '|']
        && "|?|"@ =~= seq!['|', '?', '|']);
    let a = pre + seq!['-', '>'] + post;
    let b = pre + seq!['~', '>'] + post;
    let c = pre + seq!['|', '|', '|'] + post;
    let d = pre + seq!['|', '?', '|'] + post;
    assert(a[n] == '-' && b[n] == '~' && c[n] == '|' && d[n] == '|' && d[n + 1] == '?');
    assert(a.subrange(n, n + 2) =~= "->"@);
    assert(b.subrange(n, n + 2) =~= "~>"@);
    assert(c.subrange(n, n + 3) =~= "|||"@);
    assert(d.subrange(n, n + 3) =~= "|?|"@);
    lemma_not_at(a, n, "|||"@);
    lemma_not_at(a, n, "|?|"@);
    lemma_not_at(b, n, "|||"@);
    lemma_not_at(b, n, "|?|"@);
    lemma_not_at(b, n, "->"@);
    if text::has_at(d, n, "|||"@) {
        assert(d.subrange(n, n + 3)[1] == "|||"@[1]);
    }
}

proof fn lemma_not_at(s: Text, n: int, op: Text)
    requires
        0 <= n < s.len(),
        op.len() > 0,
        s[n] != op[0],
    ensures
        !text::has_at(s, n, op),
{
    if text::has_at(s, n, op) {
        assert(s.subrange(n, n + op.len())[0] == op[0]);
    }
}

/// A command without operators is not warned of.
pub proof fn lemma_nothing_to_warn_of(s: Text)
    requires
        forall|i: int| 0 <= i < s.len() ==> s[i] != '-' && s[i] != '~' && s[i] != '|',
    ensures
        spacing_warnings(s).len() == 0,
{
    lemma_no_warnings_from(s, 0, false);
}

proof fn lemma_no_warnings_from(s: Text, pos: int, quoted: bool)
    requires
        0 <= pos,
        forall|i: int| 0 <= i < s.len() ==> s[i] != '-' && s[i] != '~' && s[i] != '|',
    ensures
        crate::tui::submission::warnings_from(s, pos, quoted).len() == 0,
    decreases s.len() - pos,
{
    if pos < s.len() {
        reveal_strlit("->");
        reveal_strlit("~>");
        reveal_strlit("|||");
        reveal_strlit("|?|");
        assert("->"@[0] == '-' && "~>"@[0] == '~' && "|||"@[0] == '|' && "|?|"@[0] == '|');
        lemma_not_at(s, pos, "->"@);
        lemma_not_at(s, pos, "~>"@);
        lemma_not_at(s, pos, "|||"@);
        lemma_not_at(s, pos, "|?|"@);
        if s[pos] == '\\' && quoted {
            lemma_no_warnings_from(
                s,
                if pos + 1 < s.len() {
                    pos + 2
                } else {
                    pos + 1
                },
                quoted,
            );
        } else if s[pos] == '"' {
            lemma_no_warnings_from(s, pos + 1, !quoted);
        } else {
            lemma_no_warnings_from(s, pos + 1, quoted);
        }
    }
}

// ── Subscriptions on their way ──

/// A job whose output is asked for is among those asked for, and one whose output is given
/// up among those given up; no other request counts.
pub proof fn lemma_subscriptions_on_their_way(pending: Seq<PendingModel>, p: PendingModel)
    ensures
        p.kind matches KindModel::DisplaySubscribe { id } ==> subscribing(pending.push(p))
            == insert_text(subscribing(pending), id) && unsubscribing(pending.push(p))
            == unsubscribing(pending),
        p.kind matches KindModel::DisplayUnsubscribe { id } ==> unsubscribing(pending.push(p))
            == insert_text(unsubscribing(pending), id) && subscribing(pending.push(p))
            == subscribing(pending),
        p.kind is User || p.kind is Silent ==> subscribing(pending.push(p)) == subscribing(pending)
            && unsubscribing(pending.push(p)) == unsubscribing(pending),
        subscribing(Seq::empty()).len() == 0,
        unsubscribing(Seq::empty()).len() == 0,
{
    assert(pending.push(p).drop_last() =~= pending);
}

// ── Transports and profiles ──

/// A local transport can always be used; one over SSH needs the program and all three of its
/// settings.
pub proof fn lemma_usable_transports(t: ResolvedTransport, found: bool)
    ensures
        t is Unix ==> transport_error(t, found) is None,
        t matches ResolvedTransport::Ssh { profile_name, destination, gateway_command, start_command }
            ==> (transport_error(t, found) is None <==> found && text::trim(destination@).len() > 0
            && text::trim(gateway_command@).len() > 0 && text::trim(start_command@).len() > 0),
{
}

/// Where a profile came from is told by a tag of its own, and what is wrong with it by
/// another.
pub proof fn lemma_tags_of_profiles(p: ProfileModel)
    ensures
        p.source is Local ==> source_tag(p) == Some("permanent"@),
        p.source is Configured ==> source_tag(p) == Some("configured"@),
        p.source is AutoDetectedSsh ==> source_tag(p) == Some("auto"@),
        p.source is Missing ==> source_tag(p) is None,
        alert(p, TargetStyle::Live) is Some <==> !(p.transport is Unix) && !(p.transport is Ssh),
        p.transport is Missing ==> alert(p, TargetStyle::Live) == Some("missing"@),
        p.transport is Invalid || p.transport is Unsupported ==> alert(p, TargetStyle::Live) == Some(
            "invalid"@,
        ),
{
}

/// After a profile was saved a reconnect is offered just where it can be done and the
/// session uses another profile.
pub proof fn lemma_reconnect_offered(source: Text, name: Text, session: Option<Text>, live: bool)
    ensures
        saved_feedback(source, name, session, live).1 <==> live && (session matches Some(current)
            && current != name),
{
}

// ── Records ──

/// The record of a job names the job and its state; a scope that is left as it was is told
/// apart from one that was changed, and only of a job that ended.
pub proof fn lemma_job_records(job: JobRecordModel, end: Text)
    requires
        job.warnings.len() == 0,
    ensures
        job_lines(job)[0] == job.id,
        job_lines(job)[1] == "status: "@ + crate::tui::status_view::job_text(job.status),
        !crate::job::terminal_status(job.status) ==> end_scope_lines(job).len() == 0,
        crate::job::terminal_status(job.status) && job.end_scope == Some(end) ==> {
            &&& job.start_scope == Some(end) ==> end_scope_lines(job) == seq![
                "end scope: no side effect ("@ + end + ")"@,
            ]
            &&& job.start_scope != Some(end) ==> end_scope_lines(job) == seq!["end scope: "@ + end]
        },
{
}

/// The four states of a script run have four names.
pub proof fn lemma_run_states_told_apart(
    a: crate::tui::ipc::ScriptRunStatus,
    b: crate::tui::ipc::ScriptRunStatus,
)
    ensures
        a != b ==> run_status_name(a) != run_status_name(b),
        run_status_name(crate::tui::ipc::ScriptRunStatus::Done) == "Done"@,
        run_status_name(crate::tui::ipc::ScriptRunStatus::Failed) == "Failed"@,
        run_status_name(crate::tui::ipc::ScriptRunStatus::Submitted) == "Submitted"@,
        run_status_name(crate::tui::ipc::ScriptRunStatus::PartialError) == "PartialError"@,
{
    reveal_strlit("Done");
    reveal_strlit("Failed");
    reveal_strlit("Submitted");
    reveal_strlit("PartialError");
    assert("Done"@.len() == 4 && "Failed"@.len() == 6 && "Submitted"@.len() == 9
        && "PartialError"@.len() == 12);
}

} // verus!
