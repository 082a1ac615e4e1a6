//! Sessions with the daemon: what is asked for when a connection stands, what an answer
//! opens, and what a completion or a click does to the line.

use vstd::prelude::*;

use crate::text;
use crate::job::JobStatus;
use crate::laws::texts::lemma_one_part;
use crate::mode::Mode;
use crate::text::Text;
use crate::tui::app::session::{fitting, tall, FgModel};
use crate::tui::app::state::AppModel;
use crate::tui::app::targets::is_unix;
use crate::tui::completion::replacement_of;
use crate::tui::display::{shown_stream, tab_label, DisplayStream, TabModel, TargetModel};
use crate::tui::foreground::{bytes_of, size_after, TermInputModel};
use crate::tui::geometry::Rect;
use crate::tui::input_line::{desired_rows, prompt_text, InputModel};
use crate::tui::ipc::{EventPayload, RequestModel, WriterModel};
use crate::tui::main_view::{card_body, CardModel};
use crate::tui::submission::{display_request_of, DisplayRequest, PendingModel};
use crate::tui::target_config::{ProfileModel, SnapshotModel};
use crate::tui::target_settings::{profile_line, SettingsModel, TargetStyle};

verus! {

// ── Connecting ──

/// A new connection asks for the events of jobs, crons and the system, and then for the jobs
/// and the crons that there are.
pub proof fn lemma_asked_on_connecting(s: AppModel, w: WriterModel)
    requires
        s.writer == Some(w),
        w.refusal is None,
        w.next_id < u32::MAX - 3,
        s.display_subscriptions.len() == 0,
    ensures
        ({
            let after = s.connected_now();
            &&& after.connected
            &&& after.status_bar.connected
            &&& after.writer matches Some(v) && v.outgoing == w.outgoing + seq![
                (
                    w.next_id,
                    RequestModel::Subscribe { channels: seq!["jobs"@, "crons"@, "system"@] },
                ),
                (
                    (w.next_id + 1) as u32,
                    RequestModel::Eval { input: ":jobs"@, mode: Mode::Job },
                ),
                (
                    (w.next_id + 2) as u32,
                    RequestModel::Eval { input: ":crons"@, mode: Mode::Cron },
                ),
            ]
        }),
{
    reveal(AppModel::connected_now);
    let a = AppModel {
        connected: true,
        status_bar: crate::tui::status_bar::StatusBar { connected: true, ..s.status_bar },
        ..s
    }.with_mode_views();
    assert(a.writer == Some(w));
    let b = a.with_core_channels();
    let c = b.with_snapshots();
    let d = c.with_restored_subscriptions();
    assert(c.display_subscriptions.len() == 0);
    assert(d == c);
    assert((d.writer->0).outgoing =~= w.outgoing + seq![
        (w.next_id, RequestModel::Subscribe { channels: seq!["jobs"@, "crons"@, "system"@] }),
        ((w.next_id + 1) as u32, RequestModel::Eval { input: ":jobs"@, mode: Mode::Job }),
        ((w.next_id + 2) as u32, RequestModel::Eval { input: ":crons"@, mode: Mode::Cron }),
    ]);
}

/// A session that could not be moved says so, and one that was moved uses the other profile.
pub proof fn lemma_moved_connection(s: AppModel, w: WriterModel, name: Text)
    requires
        s.pending_reconnect_profile_name == Some(name),
        s.display_subscriptions.len() == 0,
    ensures
        s.reconnected(w).session_profile_name == Some(name),
        s.reconnected(w).pending_reconnect_profile_name is None,
        s.reconnected(w).connected,
{
    reveal(AppModel::reconnected);
    reveal(AppModel::connected_now);
}

// ── Output ──

/// Output that a command asked for is shown in the tab of that job and of the stream that
/// the command names, and followed just when it asks to follow.
pub proof fn lemma_asked_output_shown(
    s: AppModel,
    p: PendingModel,
    id: Text,
    data: Text,
    truncated: bool,
    r: DisplayRequest,
)
    requires
        p.kind is User,
        display_request_of(p.input) == Some(r),
        s.display.tabs.len() < usize::MAX,
    ensures
        s.output_came(Some(p), id, data, truncated).display.active_tab() matches Some(tab)
            && tab.target == (TargetModel::Output { id, stream: shown_stream(r.stream) }) && tab.follow
            == r.follow && (!truncated ==> tab.content == data),
{
    let stream = shown_stream(r.stream);
    let shown = s.display.with_output(id, stream, data, truncated, r.follow);
    crate::laws::panes::lemma_output_shown(s.display, id, stream, data, truncated, r.follow);
    let t = AppModel { display: shown, ..s };
    lemma_subscriptions_leave_the_display(t);
    assert(s.with_output(id, stream, data, truncated, r.follow).display == shown);
}

proof fn lemma_requests_leave_the_display(s: AppModel, ids: Seq<Text>, n: int, subscribe: bool)
    ensures
        s.output_requested(ids, n, subscribe).display == s.display,
    decreases n,
{
    if n > 0 {
        lemma_requests_leave_the_display(s, ids, n - 1, subscribe);
    }
}

proof fn lemma_subscriptions_leave_the_display(s: AppModel)
    ensures
        s.with_subscriptions().display == s.display,
{
    let desired = crate::tui::display::followed(s.display.tabs);
    let current = crate::tui::text_order::sorted_texts(s.display_subscriptions);
    let missing = crate::tui::text_order::without(desired, current, Seq::empty());
    let stale = crate::tui::text_order::without(current, desired, Seq::empty());
    lemma_requests_leave_the_display(s, missing, missing.len() as int, true);
    lemma_requests_leave_the_display(
        s.output_requested(missing, missing.len() as int, true),
        stale,
        stale.len() as int,
        false,
    );
}

/// The label of a tab says whether it follows, and what it shows.
pub proof fn lemma_tab_labels(id: Text, stream: DisplayStream, content: Text)
    ensures
        ({
            let target = TargetModel::Output { id, stream };
            let follow = TabModel { target, content, follow: true };
            let still = TabModel { target, content, follow: false };
            tab_label(follow) == seq![' ', 'f', 'o', 'l', 'l', 'o', 'w'] + tab_label(still)
        }),
{
    reveal_strlit(" follow");
    reveal_strlit("");
    assert(" follow"@ =~= seq![' ', 'f', 'o', 'l', 'l', 'o', 'w']);
    assert(""@ =~= Seq::<char>::empty());
    let target = TargetModel::Output { id, stream };
    let follow = TabModel { target, content, follow: true };
    let still = TabModel { target, content, follow: false };
    assert(tab_label(follow) =~= " follow"@ + tab_label(still));
}

/// A card shows its output; without one it shows that it waits, or that something comes.
pub proof fn lemma_card_bodies(card: CardModel)
    ensures
        card.output.len() > 0 ==> card_body(card) == card.output,
        card.output.len() == 0 && card.status is Pending ==> card_body(card).len() > 1,
        card.output.len() == 0 && card.status is Streaming ==> card_body(card).len() == 1,
        card.output.len() == 0 && (card.status is Success || card.status is Error) ==> card_body(
            card,
        ).len() == 0,
{
    reveal_strlit("⏳ waiting...");
    reveal_strlit("▌");
    assert("⏳ waiting..."@.len() == 12 && "▌"@.len() == 1);
}

// ── Events ──

/// Each event is taken for what it tells.
pub proof fn lemma_events_of_chains(s: AppModel, chain_id: String, success: bool, reason: String)
    ensures
        s.told(EventPayload::ChainFinished { chain_id, success }) == s.chain_finished(
            chain_id@,
            success,
        ),
        s.told(EventPayload::ShuttingDown { reason }) == s.shutting_down(reason@),
{
    reveal(AppModel::told);
}

/// What is removed is taken off its own list.
pub proof fn lemma_events_of_removals(s: AppModel, job_id: String, cron_id: String)
    ensures
        s.told(EventPayload::JobRemoved { job_id }) == s.job_removed(job_id@),
        s.told(EventPayload::CronRemoved { cron_id }) == s.cron_removed(cron_id@),
{
    assert(s.told(EventPayload::JobRemoved { job_id }) == s.job_removed(job_id@)) by {
        reveal(AppModel::told);
    }
    assert(s.told(EventPayload::CronRemoved { cron_id }) == s.cron_removed(cron_id@)) by {
        reveal(AppModel::told);
    }
}

/// A session is fed with what it wrote, and ends with its job.
pub proof fn lemma_events_of_sessions(s: AppModel, id: String, reason: String, data: Vec<u8>)
    ensures
        s.told(EventPayload::FgExited { id, reason }) == s.fg_finished(id@, reason@),
        s.told(EventPayload::FgOutput { data }) == s.fg_fed(data@),
{
    reveal(AppModel::told);
}

/// A change of a state is a change to the new one.
pub proof fn lemma_events_of_states(s: AppModel, job_id: String, a: JobStatus, b: JobStatus)
    ensures
        s.told(
            EventPayload::JobStateChanged {
                job_id,
                old_state: a,
                new_state: b,
                end_scope: None,
                chain_id: None,
                chain_index: None,
            },
        ) == s.with_job_status(job_id@, b, None).with_items(),
{
    reveal(AppModel::told);
}

/// A job that was removed is listed no longer, and the sidebar shows that.
pub proof fn lemma_removed_job_not_listed(s: AppModel, id: Text, k: int)
    ensures
        ({
            let after = s.job_removed(id);
            &&& 0 <= k < after.jobs.len() ==> after.jobs[k].id != id
            &&& after.sidebar.items == after.items()
        }),
{
    crate::tui::app::rows::lemma_removed_job_gone(s.jobs, id);
}

// ── The foreground ──

/// A session gets the size that it is given, two rows at least.
pub proof fn lemma_session_size(id: Text, card: Option<usize>, cols: u16, rows: u16)
    ensures
        rows >= 2 ==> FgModel::started(id, card, cols, rows).size().0 == rows,
        rows < 2 ==> FgModel::started(id, card, cols, rows).size().0 == 2,
        cols <= 65527 ==> FgModel::started(id, card, cols, rows).size().1 == cols,
        FgModel::started(id, card, cols, rows).id == id,
        FgModel::started(id, card, cols, rows).card_index == card,
{
    let g = seq![TermInputModel::Size(tall(rows), fitting(cols))];
    assert(g.last() == TermInputModel::Size(tall(rows), fitting(cols)));
}

/// What comes in stands behind what came before, and the last size counts.
pub proof fn lemma_session_fed(given: Seq<TermInputModel>, data: Seq<u8>, r: u16, c: u16)
    ensures
        bytes_of(given.push(TermInputModel::Bytes(data))) == bytes_of(given) + data,
        bytes_of(given.push(TermInputModel::Size(r, c))) == bytes_of(given),
        size_after(given.push(TermInputModel::Size(r, c))) == (r, c),
        size_after(given.push(TermInputModel::Bytes(data))) == size_after(given),
{
    assert(given.push(TermInputModel::Bytes(data)).drop_last() =~= given);
    assert(given.push(TermInputModel::Size(r, c)).drop_last() =~= given);
}

/// Another size of the terminal is told to the session in the foreground.
pub proof fn lemma_size_told(s: AppModel, width: u16, height: u16, w: WriterModel)
    requires
        s.fg_session is Some,
        s.writer == Some(w),
        w.refusal is None,
        width > 2,
        height > 3,
    ensures
        s.resized(width, height).terminal_width == width,
        s.resized(width, height).terminal_height == height,
        s.resized(width, height).writer matches Some(v) && v.outgoing == w.outgoing.push(
            (
                w.next_id,
                RequestModel::FgResize { cols: (width - 2) as u16, rows: (height - 3) as u16 },
            ),
        ),
{
    reveal(AppModel::resized);
}

// ── The line ──

/// A completion takes the place of the word at the cursor, and nothing else changes.
pub proof fn lemma_completed_word(s: AppModel, candidates: Seq<Text>, t: Text)
    requires
        replacement_of(candidates, s.input.word()) == Some(t),
    ensures
        ({
            let (a, b) = s.input.word_range();
            let after = s.completed(candidates).input;
            &&& after.content == s.input.content.take(a) + t + s.input.content.skip(b)
            &&& after.cursor == a + t.len()
            &&& s.completed(candidates).writer == s.writer
        }),
{
}

/// A click in a line puts the cursor on the character under it, or behind the last one.
pub proof fn lemma_clicked_character(m: InputModel, area: Rect, k: nat, column: u16)
    requires
        !m.content.contains('\n'),
        column == area.x + prompt_text(m.mode).len() + k,
    ensures
        k <= m.content.len() ==> m.pointed(area, column, area.y).cursor == k,
        k > m.content.len() ==> m.pointed(area, column, area.y).cursor == m.content.len(),
        m.pointed(area, column, area.y).content == m.content,
{
    lemma_one_part(m.content, '\n');
    let lines = text::split(m.content, '\n');
    assert(lines[0] == m.content);
}

/// The line asks for a row for each of its lines, up to six.
pub proof fn lemma_rows_asked_for(content: Text)
    ensures
        text::split(content, '\n').len() <= 6 ==> desired_rows(content) == text::split(
            content,
            '\n',
        ).len(),
        text::split(content, '\n').len() > 6 ==> desired_rows(content) == 6,
{
}

// ── Targets ──

/// The profile that is selected is marked, and no other.
pub proof fn lemma_selected_profile_marked(
    s: SettingsModel,
    i: int,
    session: Option<Text>,
    style: TargetStyle,
)
    ensures
        profile_line(s, i, session, style)[0] == '>' <==> i == s.selected,
{
    reveal_strlit(">");
    reveal_strlit(" ");
    assert(">"@.len() == 1 && " "@.len() == 1 && ">"@[0] == '>' && " "@[0] == ' ');
}

/// A profile that was saved can be switched to just where the connection can be moved, it is
/// a local one and the session does not use it yet.
pub proof fn lemma_switch_after_saving(
    s: AppModel,
    name: Text,
    snapshot: SnapshotModel,
)
    ensures
        s.target_saved(name, Ok(snapshot)).target_settings matches Some(t) && (t.pending == Some(
            name,
        ) <==> s.can_reconnect && is_unix(snapshot.profile(name)) && s.session_profile_name != Some(
            name,
        )) && (t.pending is None || t.pending == Some(name)) && t.snapshot == snapshot,
{
}

/// Profiles that were read anew keep the selection, if it is still among them.
pub proof fn lemma_selection_survives(s: AppModel, t: SettingsModel, snapshot: SnapshotModel, j: int)
    requires
        s.target_settings == Some(t),
        t.selected_name() is Some,
        0 <= j < snapshot.profiles.len(),
        snapshot.profiles.len() <= usize::MAX,
        snapshot.profiles[j].name == t.selected_name()->0,
    ensures
        s.settings_loaded(None, Ok(snapshot)).target_settings matches Some(u) && u.selected_name()
            == t.selected_name(),
{
    lemma_named_from(snapshot.profiles, t.selected_name()->0, 0, j);
}

proof fn lemma_named_from(profiles: Seq<ProfileModel>, name: Text, i: int, j: int)
    requires
        0 <= i <= j < profiles.len(),
        profiles[j].name == name,
    ensures
        crate::tui::target_settings::named_from(profiles, name, i) matches Some(k) && i <= k <= j
            && profiles[k].name == name,
    decreases j - i,
{
    if profiles[i].name != name {
        lemma_named_from(profiles, name, i + 1, j);
    }
}

} // verus!
