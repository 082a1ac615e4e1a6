//! One message at a time.

use vstd::prelude::*;
use vstd::string::*;

use super::mouse::Places;
use super::state::{AppModel, AppState};
use super::targets::snapshot_result;
use crate::text;
use crate::text::Text;
use crate::tui::completion::{CommandEntry, DirectoryEntry};
use crate::tui::ipc::{EventPayload, ResponsePayload, WriterHandle, WriterModel};
use crate::tui::keys::{KeyEvent, MouseEvent};
use crate::tui::message::{ActionModel, UserAction};
use crate::tui::status_bar::{StatusBar, StatusBarMsg};
use crate::tui::target_config::TargetSettingsSnapshot;

verus! {

/// Everything that can change the state.
#[derive(Debug)]
#[allow(inconsistent_fields)]
pub enum AppMsg {
    // The terminal.
    KeyEvent(KeyEvent),
    MouseEvent(MouseEvent),
    Paste(String),
    Resize(u16, u16),
    // The user.
    Submit(String),
    ModeSwitch,
    ToggleSidebar,
    ToggleMouseMode,
    CopyFocus,
    ClearDisplay,
    OpenTargetSettings,
    OpenJobPicker,
    KillSelection,
    // The connection.
    Connected,
    Disconnected,
    ReconnectFailed { message: String },
    Reconnected { writer: WriterHandle },
    Response { id: u32, payload: ResponsePayload },
    ServerEvent(EventPayload),
    // What became of effects.
    TargetsLoaded { notice: Option<String>, result: Result<TargetSettingsSnapshot, String> },
    TargetSaved { profile_name: String, result: Result<TargetSettingsSnapshot, String> },
    /// Whether the switch was taken, or why the target cannot be connected to.
    TargetSwitched { profile_name: String, result: Result<bool, String> },
    RestartRequested { card_index: usize, result: Result<(), String> },
    DirectoryListed { entries: Vec<DirectoryEntry>, commands: Vec<CommandEntry> },
    // The clock and the end.
    /// The front end cannot go on.
    FatalError { message: String },
    Tick,
    Quit,
}

impl AppModel {
    /// With a connection: everything is subscribed to and asked for anew.
    #[verifier::opaque]
    pub open spec fn connected_now(self) -> AppModel {
        AppModel {
            connected: true,
            status_bar: StatusBar { connected: true, ..self.status_bar },
            ..self
        }.with_mode_views().with_core_channels().with_snapshots().with_restored_subscriptions()
            .with_clear_action()
    }

    #[verifier::opaque]
    pub open spec fn disconnected(self) -> AppModel {
        let s = self.with_all_failed("Error [transport]: cued disconnected"@);
        AppModel {
            fg_session: None,
            connected: false,
            writer: None,
            job_picker: None,
            status_bar: StatusBar { connected: false, ..s.status_bar },
            ..s
        }
    }

    /// After a failed try to connect again: the dialog for targets says so.
    #[verifier::opaque]
    pub open spec fn reconnect_failed(self, message: Text) -> AppModel {
        match self.target_settings {
            Some(t) => AppModel {
                target_settings: Some(t.noted("reconnect failed: "@ + message)),
                ..self
            },
            None => self,
        }
    }

    /// With another connection; a switch of targets has then succeeded.
    #[verifier::opaque]
    pub open spec fn reconnected(self, writer: WriterModel) -> AppModel {
        let s = AppModel { writer: Some(writer), ..self }.connected_now();
        match s.pending_reconnect_profile_name {
            Some(profile) => AppModel {
                pending_reconnect_profile_name: None,
                session_profile_name: Some(profile),
                target_settings: match s.target_settings {
                    Some(t) => Some(t.noted("connected to `"@ + profile + "`"@)),
                    None => None,
                },
                ..s
            },
            None => s,
        }
    }

    /// After a message. Only for the mouse it counts where everything stands.
    pub open spec fn updated(self, msg: AppMsg, at: Places) -> AppModel {
        match msg {
            AppMsg::KeyEvent(key) => self.keyed(key),
            AppMsg::MouseEvent(mouse) => self.moused(mouse, at),
            AppMsg::Paste(text) => self.pasted(text@),
            AppMsg::Resize(width, height) => self.resized(width, height),
            AppMsg::Submit(text) => self.acted(ActionModel::Submit(text@)),
            AppMsg::ModeSwitch => self.acted(ActionModel::ModeSwitch),
            AppMsg::ToggleSidebar => self.acted(ActionModel::ToggleSidebar),
            AppMsg::ToggleMouseMode => self.acted(ActionModel::ToggleMouseMode),
            AppMsg::CopyFocus => self.acted(ActionModel::CopyFocus),
            AppMsg::ClearDisplay => self.acted(ActionModel::ClearDisplay),
            AppMsg::OpenTargetSettings => self.acted(ActionModel::OpenTargetSettings),
            AppMsg::OpenJobPicker => self.acted(ActionModel::OpenJobPicker),
            AppMsg::KillSelection => self.acted(ActionModel::KillSelection),
            AppMsg::Connected => self.connected_now(),
            AppMsg::Disconnected => self.disconnected(),
            AppMsg::ReconnectFailed { message } => self.reconnect_failed(message@),
            AppMsg::Reconnected { writer } => self.reconnected(writer@),
            AppMsg::Response { id, payload } => self.responded(id, payload),
            AppMsg::ServerEvent(event) => self.told(event),
            AppMsg::TargetsLoaded { notice, result } => self.settings_loaded(
                text::opt_text(notice),
                snapshot_result(result),
            ),
            AppMsg::TargetSaved { profile_name, result } => self.target_saved(
                profile_name@,
                snapshot_result(result),
            ),
            AppMsg::TargetSwitched { profile_name, result } => self.target_switched(
                profile_name@,
                match result {
                    Ok(taken) => Ok(taken),
                    Err(e) => Err(e@),
                },
            ),
            AppMsg::RestartRequested { card_index, result } => self.restart_done(
                card_index,
                match result {
                    Ok(()) => Ok(()),
                    Err(e) => Err(e@),
                },
            ),
            AppMsg::DirectoryListed { entries, commands } => self.listed(entries@, commands@),
            AppMsg::FatalError { message } => AppModel { should_quit: true, ..self },
            AppMsg::Tick => self,
            AppMsg::Quit => self.acted(ActionModel::Quit),
        }
    }
}

impl AppState {
    fn on_connected(&mut self)
        requires
            old(self).wf(),
        ensures
            final(self).wf(),
            final(self)@ == old(self)@.connected_now(),
    {
        proof {
            reveal(AppModel::connected_now);
        }
        self.connected = true;
        self.status_bar.update(StatusBarMsg::SetConnected(true));
        self.sync_mode_views();
        self.subscribe_core_channels();
        self.request_sidebar_snapshots();
        self.restore_display_subscriptions();
        self.refresh_clear_action();
    }

    fn on_disconnected(&mut self)
        requires
            old(self).wf(),
        ensures
            final(self).wf(),
            final(self)@ == old(self)@.disconnected(),
    {
        proof {
            reveal(AppModel::disconnected);
        }
        self.fail_pending_submissions("Error [transport]: cued disconnected");
        self.fg_session = None;
        self.connected = false;
        self.writer = None;
        self.job_picker = None;
        self.status_bar.update(StatusBarMsg::SetConnected(false));
    }

    fn on_reconnect_failed(&mut self, message: &str)
        requires
            old(self).wf(),
        ensures
            final(self).wf(),
            final(self)@ == old(self)@.reconnect_failed(message@),
    {
        proof {
            reveal(AppModel::reconnect_failed);
        }
        let notice = text::concat2("reconnect failed: ", message);
        if let Some(t) = &mut self.target_settings {
            t.set_notice(notice.as_str());
        }
    }

    fn on_reconnected(&mut self, writer: WriterHandle)
        requires
            old(self).wf(),
        ensures
            final(self).wf(),
            final(self)@ == old(self)@.reconnected(writer@),
    {
        proof {
            reveal(AppModel::reconnected);
        }
        self.writer = Some(writer);
        self.on_connected();
        if let Some(profile) = self.pending_reconnect_profile_name.take() {
            let notice = text::concat3("connected to `", profile.as_str(), "`");
            self.session_profile_name = Some(profile);
            if let Some(t) = &mut self.target_settings {
                t.set_notice(notice.as_str());
            }
        }
    }

    /// Applies a message to the state.
    pub fn update(&mut self, msg: AppMsg)
        requires
            old(self).wf(),
        ensures
            final(self).wf(),
            exists|at: Places|
                (msg is MouseEvent ==> old(self)@.placed(at)) && final(self)@
                    == #[trigger] old(self)@.updated(msg, at),
    {
        let ghost start = *self;
        if let AppMsg::MouseEvent(mouse) = msg {
            self.on_mouse(mouse);
            proof {
                let at = choose|at: Places|
                    start@.placed(at) && self@ == #[trigger] start@.moused(mouse, at);
                assert(self@ == start@.updated(msg, at));
            }
            return;
        }
        let ghost at: Places = arbitrary();
        self.take(msg);
        assert(self@ == start@.updated(msg, at));
    }

    /// Applies a message that does not come from the mouse.
    fn take(&mut self, msg: AppMsg)
        requires
            old(self).wf(),
            !(msg is MouseEvent),
        ensures
            final(self).wf(),
            forall|at: Places| final(self)@ == #[trigger] old(self)@.updated(msg, at),
    {
        match msg {
            AppMsg::KeyEvent(key) => self.on_key(key),
            AppMsg::MouseEvent(_) => {},
            AppMsg::Paste(text) => self.on_paste(text.as_str()),
            AppMsg::Resize(width, height) => self.resize(width, height),
            AppMsg::Submit(text) => self.act(UserAction::Submit(text)),
            AppMsg::ModeSwitch => self.act(UserAction::ModeSwitch),
            AppMsg::ToggleSidebar => self.act(UserAction::ToggleSidebar),
            AppMsg::ToggleMouseMode => self.act(UserAction::ToggleMouseMode),
            AppMsg::CopyFocus => self.act(UserAction::CopyFocus),
            AppMsg::ClearDisplay => self.act(UserAction::ClearDisplay),
            AppMsg::OpenTargetSettings => self.act(UserAction::OpenTargetSettings),
            AppMsg::OpenJobPicker => self.act(UserAction::OpenJobPicker),
            AppMsg::KillSelection => self.act(UserAction::KillSelection),
            AppMsg::Connected => self.on_connected(),
            AppMsg::Disconnected => self.on_disconnected(),
            AppMsg::ReconnectFailed { message } => self.on_reconnect_failed(message.as_str()),
            AppMsg::Reconnected { writer } => self.on_reconnected(writer),
            AppMsg::Response { id, payload } => self.on_response(id, payload),
            AppMsg::ServerEvent(event) => self.on_event(event),
            AppMsg::TargetsLoaded { notice, result } => self.load_target_settings(notice, result),
            AppMsg::TargetSaved { profile_name, result } => self.finish_target_save(
                profile_name,
                result,
            ),
            AppMsg::TargetSwitched { profile_name, result } => self.finish_target_switch(
                profile_name,
                result,
            ),
            AppMsg::RestartRequested { card_index, result } => self.finish_restart(
                card_index,
                result,
            ),
            AppMsg::DirectoryListed { entries, commands } => self.complete_from_directory(
                &entries,
                &commands,
            ),
            AppMsg::FatalError { .. } => {
                self.should_quit = true;
            },
            AppMsg::Tick => {},
            AppMsg::Quit => self.act(UserAction::Quit),
        }
    }
}

// ── Laws ──

proof fn lemma_failing_keeps_pending(
    s: AppModel,
    pending: Seq<(u32, crate::tui::submission::PendingModel)>,
    n: int,
    message: Text,
)
    ensures
        s.with_failed(pending, n, message).pending_submissions == s.pending_submissions,
    decreases n,
{
    if n > 0 {
        lemma_failing_keeps_pending(s, pending, n - 1, message);
    }
}

/// After the connection was lost nothing waits, nothing is in the foreground and
/// nothing can be sent.
pub proof fn lemma_disconnected_waits_for_nothing(s: AppModel)
    ensures
        s.disconnected().pending_submissions.len() == 0,
        s.disconnected().status_bar.clear_enabled,
        s.disconnected().fg_session is None,
        !s.disconnected().can_send(),
        !s.disconnected().connected,
{
    reveal(AppModel::disconnected);
    lemma_failing_keeps_pending(
        AppModel { pending_submissions: Seq::empty(), ..s },
        s.pending_submissions,
        s.pending_submissions.len() as int,
        "Error [transport]: cued disconnected"@,
    );
}

/// A failed try to connect again leaves alone what is waited for, what is shown
/// and whether there is a connection.
pub proof fn lemma_failed_reconnect_keeps_waiting(s: AppModel, message: Text)
    ensures
        s.reconnect_failed(message).pending_submissions == s.pending_submissions,
        s.reconnect_failed(message).pending_reconnect_profile_name
            == s.pending_reconnect_profile_name,
        s.reconnect_failed(message).main_view == s.main_view,
        s.reconnect_failed(message).connected == s.connected,
{
    reveal(AppModel::reconnect_failed);
}

/// The tick of the clock changes nothing.
pub proof fn lemma_tick_changes_nothing(s: AppModel, at: Places)
    ensures
        s.updated(AppMsg::Tick, at) == s,
{
}

} // verus!
