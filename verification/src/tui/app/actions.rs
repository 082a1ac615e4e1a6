//! What the user asks for.

use vstd::prelude::*;
use vstd::string::*;

use super::rows::{
    cron_picker_items, find_job, job_with, picker_crons, picker_models, running_items,
    running_job_items,
};
use super::state::{AppModel, AppState, Effect, EffectModel};
use super::tables::{key_from, pending_inserted};
use crate::job::{terminal_status, JobStatus};
use crate::mode::Mode;
use crate::text;
use crate::text::Text;
use crate::tui::card_action::{preview_card, preview_of};
use crate::tui::display::{DisplayPreview, PreviewModel};
use crate::tui::footer::{footer, footer_text, FooterContext};
use crate::tui::foreground::FgScreen;
use crate::tui::input_line::InputMsg;
use crate::tui::ipc::{RequestModel, RequestPayload};
use crate::tui::job_picker::{
    empty_text, none_text, submit_label, submit_text, title, title_text, JobPickerItem,
    JobPickerState, PickerItemModel,
};
use crate::tui::main_view::{new_card, CardStatus};
use crate::tui::message::{ActionModel, UserAction};
use crate::tui::record_format::{
    card_preview, cron_preview, format_card_preview, format_cron_preview,
};
use crate::tui::status_bar::{StatusBar, StatusBarMsg};
use crate::tui::submission::{
    local_command, operator_spacing_warnings, parse_local_command, precreates_card,
    spacing_warnings, KindModel, LocalCommand, PendingModel, PendingSubmission,
};

verus! {

/// The command of a row of the sidebar, which lists the newest first.
pub open spec fn row_place(row: int, len: int) -> Option<int> {
    if 0 <= row < len {
        Some(len - 1 - row)
    } else {
        None
    }
}

/// A command of the user that waits for its answer.
pub open spec fn user_pending(text: Text, mode: Mode) -> PendingModel {
    PendingModel {
        card_index: None,
        input: text,
        mode,
        warnings: spacing_warnings(text),
        kind: KindModel::User,
    }
}

impl AppModel {
    /// With the log and the display emptied, if nothing waits for an answer.
    pub open spec fn cleared(self) -> AppModel {
        if self.pending_submissions.len() == 0 {
            AppModel {
                job_cards: Seq::empty(),
                chain_cards: Seq::empty(),
                ..AppModel { main_view: self.main_view.cleared(), ..self }.with_empty_display()
            }.with_clear_action()
        } else {
            self
        }
    }

    /// With a restart of the daemon asked for.
    pub open spec fn restarted(self) -> AppModel {
        let card = self.main_view.cards.len() as usize;
        let log = self.main_view.push(new_card(":restart"@, self.mode));
        if self.restart_available {
            AppModel { main_view: log, ..self }.with_effect(
                EffectModel::Restart { card_index: card },
            )
        } else {
            AppModel {
                main_view: log.with_output(
                    card as int,
                    "Error [restart]: restart is unavailable for this session"@,
                ).with_status(card as int, CardStatus::Error),
                ..self
            }
        }
    }

    /// After a restart was asked for: whether that worked.
    pub open spec fn restart_done(self, card: usize, r: Result<(), Text>) -> AppModel {
        AppModel {
            main_view: match r {
                Ok(()) => self.main_view.with_output(
                    card as int,
                    "daemon restart requested; waiting for reconnect"@,
                ).with_status(card as int, CardStatus::Pending),
                Err(e) => self.main_view.with_output(
                    card as int,
                    "Error [restart]: failed to restart daemon: "@ + e,
                ).with_status(card as int, CardStatus::Error),
            },
            ..self
        }
    }

    /// With a command submitted: carried out here, or sent to the daemon.
    pub open spec fn submitted(self, text: Text) -> AppModel {
        let s = AppModel { input: self.input.cleared(), ..self };
        match local_command(text) {
            Some(LocalCommand::Clear) => s.cleared(),
            Some(LocalCommand::Quit) => AppModel { should_quit: true, ..s },
            Some(LocalCommand::Restart) => s.restarted(),
            None => {
                let pending = user_pending(text, self.mode);
                match self.writer {
                    None => s.with_result(
                        pending,
                        "Error [offline]: cued is not connected"@,
                        CardStatus::Error,
                        None,
                    ),
                    Some(w) => match w.refusal {
                        Some(e) => s.with_result(
                            pending,
                            "Error [transport]: failed to send command: "@ + e,
                            CardStatus::Error,
                            None,
                        ),
                        None => AppModel {
                            pending_submissions: pending_inserted(
                                self.pending_submissions,
                                w.next_id,
                                pending,
                            ),
                            ..s.sent(RequestModel::Eval { input: text, mode: self.mode })
                        }.with_clear_action(),
                    },
                }
            },
        }
    }

    pub open spec fn with_preview(self, preview: PreviewModel) -> AppModel {
        AppModel { display: self.display.with_preview(preview), ..self }
    }

    // ── The picker ──

    pub open spec fn picker_items(self) -> Seq<PickerItemModel> {
        match self.mode {
            Mode::Job => running_items(self.jobs),
            Mode::Cron => picker_crons(self.crons),
        }
    }

    pub open spec fn picker_closed(self) -> AppModel {
        AppModel { job_picker: None, ..self }
    }

    pub open spec fn picker_opened(self) -> AppModel {
        AppModel {
            job_picker: Some(JobPickerState::opened(self.picker_items().len())),
            ..self.settings_closed()
        }
    }

    pub open spec fn picker_moved(self, delta: int) -> AppModel {
        match self.job_picker {
            Some(p) => AppModel {
                job_picker: Some(p.moved(delta, self.picker_items().len())),
                ..self
            },
            None => self,
        }
    }

    /// With the picked job killed, and the picker closed.
    pub open spec fn picked_killed(self) -> AppModel {
        match self.job_picker {
            Some(p) => match p.selected {
                Some(i) => if i < self.picker_items().len() {
                    self.picker_closed().submitted(":kill "@ + self.picker_items()[i as int].id)
                } else {
                    self.picker_closed()
                },
                None => self.picker_closed(),
            },
            None => self.picker_closed(),
        }
    }

    // ── The sidebar ──

    pub open spec fn row_opened(self, row: int) -> AppModel {
        match self.mode {
            Mode::Job => match row_place(row, self.jobs.len() as int) {
                Some(i) => if self.jobs[i].status == JobStatus::Running {
                    self.submitted(":fg "@ + self.jobs[i].id)
                } else {
                    self.submitted(":out "@ + self.jobs[i].id)
                },
                None => self,
            },
            Mode::Cron => match row_place(row, self.crons.len() as int) {
                Some(i) => {
                    let c = self.crons[i];
                    self.with_preview(
                        PreviewModel {
                            key: "cron:"@ + c.id,
                            title: "cron "@ + c.id,
                            content: cron_preview(c.id, c.label, c.status),
                        },
                    )
                },
                None => self,
            },
        }
    }

    /// The command that kills or removes the selected entry.
    pub open spec fn kill_command(self) -> Option<Text> {
        match self.sidebar.selected {
            None => None,
            Some(row) => match self.mode {
                Mode::Job => match row_place(row as int, self.jobs.len() as int) {
                    Some(i) => if self.jobs[i].status == JobStatus::Running {
                        Some(":kill "@ + self.jobs[i].id)
                    } else {
                        None
                    },
                    None => None,
                },
                Mode::Cron => match row_place(row as int, self.crons.len() as int) {
                    Some(i) => Some(":kill "@ + self.crons[i].id),
                    None => None,
                },
            },
        }
    }

    pub open spec fn selection_killed(self) -> AppModel {
        match self.kill_command() {
            Some(c) => self.submitted(c),
            None => self,
        }
    }

    // ── Cards ──

    /// The job whose card this is.
    pub open spec fn job_of_card(self, index: usize) -> Option<super::rows::JobRowModel> {
        match key_from(self.job_cards, index, 0) {
            Some(id) => job_with(self.jobs, id),
            None => None,
        }
    }

    /// With a card opened: its job in the foreground while it runs, the output
    /// of the job once it ended, else a preview.
    pub open spec fn inspected(self, index: usize) -> AppModel {
        if index >= self.main_view.cards.len() {
            self
        } else {
            match self.job_of_card(index) {
                Some(job) => if job.status == JobStatus::Running {
                    self.submitted(":fg "@ + job.id)
                } else if terminal_status(job.status) {
                    self.submitted(":out "@ + job.id)
                } else {
                    self.with_preview(
                        preview_of(index as nat, self.main_view.cards[index as int]),
                    )
                },
                None => self.with_preview(
                    preview_of(index as nat, self.main_view.cards[index as int]),
                ),
            }
        }
    }

    // ── Copying ──

    /// What copying copies now, and what it is: the session in the foreground,
    /// the dialog, the tab that is shown, or the newest record.
    pub open spec fn copy_target(self) -> Option<(Text, Text)> {
        match self.fg_session {
            Some(s) => Some(("fg "@ + s.id, s.screen().contents)),
            None => match self.settings_content() {
                Some(content) => Some(("targets"@, content)),
                None => match self.display.copy_target() {
                    Some(t) => Some(t),
                    None => if self.main_view.cards.len() > 0 {
                        let card = self.main_view.cards.last();
                        Some(
                            (
                                match card.label {
                                    Some(l) => l,
                                    None => "command-record"@,
                                },
                                card_preview(card),
                            ),
                        )
                    } else {
                        None
                    },
                },
            },
        }
    }

    pub open spec fn copied(self) -> AppModel {
        match self.copy_target() {
            Some((label, content)) => self.with_effect(EffectModel::Copy { label, content }),
            None => self,
        }
    }

    // ── Actions ──

    pub open spec fn mode_switched(self) -> AppModel {
        if self.fg_session is Some {
            self
        } else {
            AppModel { mode: self.mode.next_mode(), ..self }.with_mode_views()
        }
    }

    #[verifier::opaque]
    pub open spec fn acted(self, action: ActionModel) -> AppModel {
        match action {
            ActionModel::Submit(text) => self.submitted(text),
            ActionModel::ModeSwitch => self.mode_switched(),
            ActionModel::ToggleSidebar => AppModel {
                show_sidebar: Some(!self.sidebar_visible()),
                ..self
            },
            ActionModel::ToggleMouseMode => AppModel {
                mouse_mode: self.mouse_mode.toggled(),
                status_bar: StatusBar {
                    mouse_mode: self.mouse_mode.toggled(),
                    ..self.status_bar
                },
                ..self
            },
            ActionModel::CopyFocus => self.copied(),
            ActionModel::ClearDisplay => self.cleared(),
            ActionModel::OpenTargetSettings => self.settings_toggled(),
            ActionModel::OpenJobPicker => self.picker_opened(),
            ActionModel::KillSelection => self.selection_killed(),
            ActionModel::Quit => AppModel { should_quit: true, ..self },
        }
    }

    // ── The footer ──

    pub open spec fn footer_context(self) -> FooterContext {
        if self.job_picker is Some {
            FooterContext::JobPicker { mode: self.mode }
        } else if self.settings_open() {
            FooterContext::TargetSettings {
                can_save: self.target_settings is Some,
                has_pending_reconnect: self.target_settings matches Some(s) && s.pending is Some,
            }
        } else {
            FooterContext::Main {
                focus: self.focus,
                mode: self.mode,
                display_has_target: self.display.active is Some,
            }
        }
    }
}

fn find_place(row: usize, len: usize) -> (r: Option<usize>)
    ensures
        match r {
            Some(i) => row_place(row as int, len as int) == Some(i as int) && i < len,
            None => row_place(row as int, len as int) is None,
        },
{
    if row < len {
        Some(len - 1 - row)
    } else {
        None
    }
}

impl AppState {
    pub(crate) fn clear_display(&mut self)
        ensures
            final(self)@ == old(self)@.cleared(),
            old(self).wf() ==> final(self).wf(),
    {
        if self.pending_submissions.len() == 0 {
            self.main_view.clear_all();
            self.clear_display_pane();
            self.job_cards.clear();
            self.chain_cards.clear();
            self.refresh_clear_action();
        }
    }

    pub(crate) fn restart_daemon(&mut self)
        ensures
            final(self)@ == old(self)@.restarted(),
            old(self).wf() ==> final(self).wf(),
    {
        let card = self.main_view.push_card(":restart".to_owned(), self.mode);
        if self.restart_available {
            self.push_effect(Effect::Restart { card_index: card });
        } else {
            self.main_view.set_card_output(
                card,
                "Error [restart]: restart is unavailable for this session".to_owned(),
            );
            self.main_view.set_card_status(card, CardStatus::Error);
        }
    }

    /// Takes what asking for a restart gave.
    pub(crate) fn finish_restart(&mut self, card: usize, result: Result<(), String>)
        ensures
            final(self)@ == old(self)@.restart_done(
                card,
                match result {
                    Ok(()) => Ok(()),
                    Err(e) => Err(e@),
                },
            ),
            old(self).wf() ==> final(self).wf(),
    {
        match result {
            Ok(()) => {
                self.main_view.set_card_output(
                    card,
                    "daemon restart requested; waiting for reconnect".to_owned(),
                );
                self.main_view.set_card_status(card, CardStatus::Pending);
            },
            Err(e) => {
                self.main_view.set_card_output(
                    card,
                    text::concat2("Error [restart]: failed to restart daemon: ", e.as_str()),
                );
                self.main_view.set_card_status(card, CardStatus::Error);
            },
        }
    }

    /// Carries a command out, or sends it to the daemon.
    pub(crate) fn submit(&mut self, text: String)
        requires
            old(self).wf(),
        ensures
            final(self).wf(),
            final(self)@ == old(self)@.submitted(text@),
    {
        if let Some(local) = parse_local_command(text.as_str()) {
            self.input.update(InputMsg::Clear);
            match local {
                LocalCommand::Clear => self.clear_display(),
                LocalCommand::Quit => {
                    self.should_quit = true;
                },
                LocalCommand::Restart => self.restart_daemon(),
            }
            return;
        }
        let warnings = operator_spacing_warnings(text.as_str());
        let card_index = if precreates_card(text.as_str(), self.mode, &warnings) {
            Some(self.main_view.push_card(text.clone(), self.mode))
        } else {
            None
        };
        let pending = PendingSubmission::user(card_index, text.clone(), self.mode, warnings);
        self.input.update(InputMsg::Clear);
        assert(pending@ == user_pending(text@, self.mode));
        let payload = RequestPayload::Eval { input: text, mode: self.mode };
        let sent = match &mut self.writer {
            Some(writer) => writer.try_send(payload),
            None => {
                let _ = self.show_submission_result(
                    &pending,
                    "Error [offline]: cued is not connected".to_owned(),
                    CardStatus::Error,
                    None,
                );
                return;
            },
        };
        match sent {
            Ok(id) => {
                self.pending_submissions.insert(id, pending);
                self.refresh_clear_action();
            },
            Err(e) => {
                let _ = self.show_submission_result(
                    &pending,
                    text::concat2("Error [transport]: failed to send command: ", e.as_str()),
                    CardStatus::Error,
                    None,
                );
            },
        }
    }

    fn submit_on(&mut self, command: &str, id: &str)
        requires
            old(self).wf(),
        ensures
            final(self).wf(),
            final(self)@ == old(self)@.submitted(command@ + id@),
    {
        self.submit(text::concat2(command, id));
    }

    // ── The picker ──

    pub fn job_picker_open(&self) -> (r: bool)
        ensures
            r == self@.job_picker is Some,
    {
        self.job_picker.is_some()
    }

    pub fn job_picker_selected(&self) -> (r: Option<usize>)
        ensures
            r == match self@.job_picker {
                Some(p) => p.selected,
                None => None,
            },
    {
        match self.job_picker {
            Some(p) => p.selected,
            None => None,
        }
    }

    pub fn job_picker_title(&self) -> (r: &'static str)
        ensures
            r@ == title_text(self@.mode),
    {
        title(self.mode)
    }

    pub fn job_picker_empty_text(&self) -> (r: &'static str)
        ensures
            r@ == none_text(self@.mode),
    {
        empty_text(self.mode)
    }

    pub fn job_picker_submit_label(&self) -> (r: &'static str)
        ensures
            r@ == submit_text(self@.mode),
    {
        submit_label(self.mode)
    }

    /// The running jobs, or the crons.
    pub fn job_picker_items(&self) -> (r: Vec<JobPickerItem>)
        ensures
            picker_models(r@) == self@.picker_items(),
    {
        match self.mode {
            Mode::Job => running_job_items(&self.jobs),
            Mode::Cron => cron_picker_items(&self.crons),
        }
    }

    pub(crate) fn open_job_picker(&mut self)
        ensures
            final(self)@ == old(self)@.picker_opened(),
            old(self).wf() ==> final(self).wf(),
    {
        self.close_target_settings();
        let items = self.job_picker_items();
        assert(picker_models(items@).len() == items@.len());
        self.job_picker = Some(JobPickerState::open(items.len()));
    }

    pub(crate) fn move_job_picker(&mut self, delta: isize)
        ensures
            final(self)@ == old(self)@.picker_moved(delta as int),
            old(self).wf() ==> final(self).wf(),
    {
        let items = self.job_picker_items();
        assert(picker_models(items@).len() == items@.len());
        if let Some(p) = self.job_picker {
            let mut moved = p;
            moved.move_selection(delta, items.len());
            self.job_picker = Some(moved);
        }
    }

    pub(crate) fn kill_selected_job_from_picker(&mut self)
        requires
            old(self).wf(),
        ensures
            final(self).wf(),
            final(self)@ == old(self)@.picked_killed(),
    {
        let items = self.job_picker_items();
        assert(picker_models(items@).len() == items@.len());
        let selected = self.job_picker_selected();
        self.job_picker = None;
        if let Some(i) = selected {
            if i < items.len() {
                assert(picker_models(items@)[i as int] == items@[i as int]@);
                self.submit_on(":kill ", items[i].id.as_str());
            }
        }
    }

    // ── The sidebar ──

    pub fn activate_sidebar_row(&mut self, row: usize)
        requires
            old(self).wf(),
        ensures
            final(self).wf(),
            final(self)@ == old(self)@.row_opened(row as int),
    {
        match self.mode {
            Mode::Job => {
                if let Some(i) = find_place(row, self.jobs.len()) {
                    assert(self@.jobs[i as int] == self.jobs@[i as int]@);
                    let id = self.jobs[i].id.clone();
                    if let JobStatus::Running = self.jobs[i].status {
                        self.submit_on(":fg ", id.as_str());
                    } else {
                        self.submit_on(":out ", id.as_str());
                    }
                }
            },
            Mode::Cron => {
                if let Some(i) = find_place(row, self.crons.len()) {
                    assert(self@.crons[i as int] == self.crons@[i as int]@);
                    let id = self.crons[i].id.as_str();
                    let preview = DisplayPreview {
                        key: text::concat2("cron:", id),
                        title: text::concat2("cron ", id),
                        content: format_cron_preview(
                            id,
                            self.crons[i].label.as_str(),
                            self.crons[i].status,
                        ),
                    };
                    self.display.open_preview(preview);
                }
            },
        }
    }

    pub(crate) fn selected_sidebar_kill_command(&self) -> (r: Option<String>)
        ensures
            text::opt_text(r) == self@.kill_command(),
    {
        let row = match self.sidebar.selection() {
            Some(row) => row,
            None => {
                return None;
            },
        };
        match self.mode {
            Mode::Job => {
                if let Some(i) = find_place(row, self.jobs.len()) {
                    assert(self@.jobs[i as int] == self.jobs@[i as int]@);
                    if let JobStatus::Running = self.jobs[i].status {
                        return Some(text::concat2(":kill ", self.jobs[i].id.as_str()));
                    }
                }
                None
            },
            Mode::Cron => {
                if let Some(i) = find_place(row, self.crons.len()) {
                    assert(self@.crons[i as int] == self.crons@[i as int]@);
                    return Some(text::concat2(":kill ", self.crons[i].id.as_str()));
                }
                None
            },
        }
    }

    /// Kills or removes the selected entry.
    pub(crate) fn kill_selection(&mut self)
        requires
            old(self).wf(),
        ensures
            final(self).wf(),
            final(self)@ == old(self)@.selection_killed(),
    {
        if let Some(command) = self.selected_sidebar_kill_command() {
            self.submit(command);
        }
    }

    // ── Cards ──

    pub fn inspect_card(&mut self, index: usize)
        requires
            old(self).wf(),
        ensures
            final(self).wf(),
            final(self)@ == old(self)@.inspected(index),
    {
        if index >= self.main_view.cards.len() {
            return;
        }
        assert(self@.main_view.cards[index as int] == self.main_view.cards@[index as int]@);
        if let Some(id) = self.job_cards.key_of(index) {
            if let Some(i) = find_job(&self.jobs, id.as_str()) {
                assert(self@.jobs[i as int] == self.jobs@[i as int]@);
                let job_id = self.jobs[i].id.clone();
                if let JobStatus::Running = self.jobs[i].status {
                    self.submit_on(":fg ", job_id.as_str());
                    return;
                }
                if self.jobs[i].status.is_terminal() {
                    self.submit_on(":out ", job_id.as_str());
                    return;
                }
            }
        }
        let preview = preview_card(index, &self.main_view.cards[index]);
        self.display.open_preview(preview);
    }

    // ── Foreground ──

    pub fn fg_active(&self) -> (r: bool)
        ensures
            r == self@.fg_session is Some,
    {
        self.fg_session.is_some()
    }

    pub fn fg_id(&self) -> (r: Option<&str>)
        ensures
            text::opt_str(r) == match self@.fg_session {
                Some(s) => Some(s.id),
                None => None,
            },
    {
        match &self.fg_session {
            Some(s) => Some(s.id()),
            None => None,
        }
    }

    /// What the terminal of the session in the foreground shows.
    pub fn fg_screen(&self) -> (r: Option<FgScreen>)
        requires
            self.wf(),
        ensures
            match r {
                Some(x) => self@.fg_session matches Some(s) && x@ == s.screen(),
                None => self@.fg_session is None,
            },
    {
        match &self.fg_session {
            Some(s) => Some(s.screen()),
            None => None,
        }
    }

    // ── Copying ──

    /// What copying copies now, and what it is.
    pub fn copy_target(&self) -> (r: Option<(String, String)>)
        requires
            self.wf(),
        ensures
            match r {
                Some((label, content)) => self@.copy_target() == Some((label@, content@)),
                None => self@.copy_target() is None,
            },
    {
        if let Some(s) = &self.fg_session {
            return Some((text::concat2("fg ", s.id()), s.screen().contents));
        }
        if let Some(content) = self.target_settings_content() {
            return Some(("targets".to_owned(), content));
        }
        if let Some(t) = self.display.copy_target() {
            return Some((t.label, t.content));
        }
        let n: usize = self.main_view.cards.len();
        if n == 0 {
            return None;
        }
        assert(self@.main_view.cards[n - 1] == self.main_view.cards@[n - 1]@);
        let card = &self.main_view.cards[n - 1];
        let label = match &card.label {
            Some(l) => l.clone(),
            None => "command-record".to_owned(),
        };
        Some((label, format_card_preview(card)))
    }

    pub(crate) fn copy_focus(&mut self)
        requires
            old(self).wf(),
        ensures
            final(self).wf(),
            final(self)@ == old(self)@.copied(),
    {
        if let Some((label, content)) = self.copy_target() {
            self.push_effect(Effect::Copy { label, content });
        }
    }

    // ── Actions ──

    fn switch_mode(&mut self)
        requires
            old(self).wf(),
        ensures
            final(self).wf(),
            final(self)@ == old(self)@.mode_switched(),
    {
        if !self.fg_active() {
            self.mode = self.mode.next();
            self.sync_mode_views();
        }
    }

    fn toggle_mouse_mode(&mut self)
        requires
            old(self).wf(),
        ensures
            final(self).wf(),
            final(self)@ == (AppModel {
                mouse_mode: old(self)@.mouse_mode.toggled(),
                status_bar: StatusBar {
                    mouse_mode: old(self)@.mouse_mode.toggled(),
                    ..old(self)@.status_bar
                },
                ..old(self)@
            }),
    {
        self.mouse_mode = self.mouse_mode.toggle();
        self.status_bar.update(StatusBarMsg::SetMouseMode(self.mouse_mode));
    }

    /// Does what the user asks for.
    #[verifier::spinoff_prover]
    #[verifier::rlimit(40)]
    pub(crate) fn act(&mut self, action: UserAction)
        requires
            old(self).wf(),
        ensures
            final(self).wf(),
            final(self)@ == old(self)@.acted(action@),
    {
        proof {
            reveal(AppModel::acted);
        }
        match action {
            UserAction::Submit(text) => self.submit(text),
            UserAction::ModeSwitch => self.switch_mode(),
            UserAction::ToggleSidebar => {
                let visible = self.sidebar_visible();
                self.show_sidebar = Some(!visible);
            },
            UserAction::ToggleMouseMode => self.toggle_mouse_mode(),
            UserAction::CopyFocus => self.copy_focus(),
            UserAction::ClearDisplay => self.clear_display(),
            UserAction::OpenTargetSettings => self.open_target_settings(),
            UserAction::OpenJobPicker => self.open_job_picker(),
            UserAction::KillSelection => self.kill_selection(),
            UserAction::Quit => {
                self.should_quit = true;
            },
        }
    }

    // ── What is shown ──

    pub fn footer_text(&self) -> (r: String)
        ensures
            r@ == footer(self@.footer_context()),
    {
        let context = if self.job_picker_open() {
            FooterContext::JobPicker { mode: self.mode }
        } else if self.target_settings_open() {
            FooterContext::TargetSettings {
                can_save: self.target_settings_can_save(),
                has_pending_reconnect: match &self.target_settings {
                    Some(s) => s.has_pending_reconnect(),
                    None => false,
                },
            }
        } else {
            FooterContext::Main {
                focus: self.focus,
                mode: self.mode,
                display_has_target: self.display.has_target(),
            }
        };
        footer_text(context)
    }

    pub fn display_pane_title(&self) -> (r: String)
        ensures
            r@ == " Display "@,
    {
        " Display ".to_owned()
    }

    pub fn display_pane_content(&self) -> (r: &str)
        ensures
            r@ == self@.display.content(),
    {
        self.display.content()
    }

    pub fn display_pane_has_target(&self) -> (r: bool)
        ensures
            r == self@.display.active is Some,
    {
        self.display.has_target()
    }

    pub fn display_tab_labels(&self) -> (r: Vec<String>)
        ensures
            text::texts(r@) == self@.display.labels(),
    {
        self.display.labels()
    }

    pub fn active_display_tab(&self) -> (r: Option<usize>)
        ensures
            r == self@.display.active,
    {
        self.display.active()
    }
}

// ── Laws ──

/// While something waits for an answer, clearing does nothing.
pub proof fn lemma_clear_waits_for_answers(s: AppModel)
    requires
        s.pending_submissions.len() > 0,
    ensures
        s.cleared() == s,
        s.acted(ActionModel::ClearDisplay) == s,
{
    reveal(AppModel::acted);
}

/// Switching the mode twice leads back to it, unless a session is in the
/// foreground, which keeps the mode.
pub proof fn lemma_mode_switch_twice(s: AppModel)
    ensures
        s.mode_switched().mode_switched().mode == s.mode,
        s.fg_session is Some ==> s.mode_switched() == s,
        s.fg_session is None ==> s.mode_switched().mode != s.mode,
{
}

/// A command that goes to the daemon waits under the number of its request.
pub proof fn lemma_sent_command_waits(s: AppModel, text: Text)
    requires
        s.can_send(),
        local_command(text) is None,
    ensures
        ({
            let t = s.submitted(text);
            &&& t.pending_submissions == pending_inserted(
                s.pending_submissions,
                s.writer->0.next_id,
                user_pending(text, s.mode),
            )
            &&& t.writer->0.outgoing == s.writer->0.outgoing.push(
                (s.writer->0.next_id, RequestModel::Eval { input: text, mode: s.mode }),
            )
            &&& t.main_view == s.main_view
            &&& t.input == s.input.cleared()
        }),
{
}

/// Without a connection a command is answered at once, with an error.
pub proof fn lemma_offline_command_fails(s: AppModel, text: Text)
    requires
        s.writer is None,
        local_command(text) is None,
        s.main_view.cards.len() < usize::MAX,
    ensures
        ({
            let t = s.submitted(text);
            &&& t.pending_submissions == s.pending_submissions
            &&& t.main_view.cards.len() == s.main_view.cards.len() + 1
            &&& t.main_view.cards.last().status == CardStatus::Error
            &&& t.main_view.cards.last().input == text
        }),
{
}

} // verus!
