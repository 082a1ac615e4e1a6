//! Keys and pasted text.

use vstd::prelude::*;

use super::state::{AppModel, AppState};
use crate::text;
use crate::text::Text;
use crate::tui::foreground::{
    bytes_of_key, bytes_of_paste, key_bytes, paste_bytes,
};
use crate::tui::ipc::{RequestModel, RequestPayload};
use crate::tui::keys::{
    is_mode_switch_key, mode_switch_key, KeyCode, KeyEvent, KeyEventKind,
};
use crate::tui::main_view::log_key_action;
use crate::tui::message::{ActionModel, FocusArea, UserAction};
use crate::tui::sidebar::sidebar_key_action;

verus! {

/// Control and a letter.
pub open spec fn control_and(key: KeyEvent, c: char) -> bool {
    key.modifiers.control && key.code == KeyCode::Char(c)
}

fn is_control_and(key: KeyEvent, c: char) -> (r: bool)
    ensures
        r == control_and(key, c),
{
    key.modifiers.control && key.code == KeyCode::Char(c)
}

impl AppModel {
    /// A key that goes to the session in the foreground.
    pub open spec fn fg_keyed(self, key: KeyEvent) -> AppModel {
        if control_and(key, 'z') {
            self.sent(RequestModel::FgDetach)
        } else if control_and(key, 'y') {
            self.copied()
        } else {
            match bytes_of_key(key, (self.fg_session->0).screen().application_cursor) {
                Some(data) => self.sent(RequestModel::FgInput { data }),
                None => self,
            }
        }
    }

    /// A key that goes to the picker.
    pub open spec fn picker_keyed(self, key: KeyEvent) -> AppModel {
        match key.code {
            KeyCode::Esc => self.picker_closed(),
            KeyCode::Up => self.picker_moved(-1),
            KeyCode::Down => self.picker_moved(1),
            KeyCode::Enter => self.picked_killed(),
            _ => if control_and(key, 'c') {
                self.picker_closed()
            } else {
                self
            },
        }
    }

    /// What a key does wherever the focus is, if it does anything there.
    pub open spec fn shortcut(self, key: KeyEvent) -> Option<AppModel> {
        if mode_switch_key(key) {
            Some(self.mode_switched())
        } else if control_and(key, 'l') {
            Some(self.cleared())
        } else if control_and(key, 'd') {
            Some(AppModel { should_quit: true, ..self })
        } else if control_and(key, 'c') {
            Some(self.picker_opened())
        } else if control_and(key, 'y') {
            Some(self.copied())
        } else if control_and(key, 'r') && self.focus == FocusArea::MainView
            && self.settings_open() {
            Some(self.settings_reloaded())
        } else if control_and(key, 't') {
            Some(self.settings_toggled())
        } else if key.code == KeyCode::Tab && !key.modifiers.shift && self.focus
            == FocusArea::Input {
            Some(self.completing())
        } else {
            None
        }
    }

    /// What a key does in the dialog for targets, if it does anything there.
    pub open spec fn settings_keyed(self, key: KeyEvent) -> Option<AppModel> {
        match key.code {
            KeyCode::Esc => Some(self.settings_closed()),
            KeyCode::Up => Some(self.settings_moved(-1)),
            KeyCode::Down => Some(self.settings_moved(1)),
            KeyCode::Home => Some(self.settings_at_edge(false)),
            KeyCode::End => Some(self.settings_at_edge(true)),
            KeyCode::Enter => Some(self.target_save()),
            KeyCode::Char(c) => if (c == 'r' || c == 'R') && !key.modifiers.control && (
            self.target_settings matches Some(s) && s.pending is Some) {
                Some(self.target_switch())
            } else {
                None
            },
            _ => None,
        }
    }

    pub open spec fn opt_acted(self, action: Option<ActionModel>) -> AppModel {
        match action {
            Some(a) => self.acted(a),
            None => self,
        }
    }

    /// Keys reach the row selected in the sidebar: it has the focus, or it is
    /// shown beside the main view that has it.
    pub open spec fn selection_in_reach(self) -> bool {
        self.sidebar.selected is Some && (self.focus == FocusArea::Sidebar || (self.focus
            == FocusArea::MainView && self.sidebar_visible()))
    }

    /// A key that goes to the panel with the focus.
    #[verifier::opaque]
    pub open spec fn panel_keyed(self, key: KeyEvent) -> AppModel {
        if self.selection_in_reach() && (key.code == KeyCode::Backspace || key.code
            == KeyCode::Delete) {
            self.selection_killed()
        } else {
            match self.focus {
                FocusArea::Input => {
                    let (input, action) = self.input.after_key(key);
                    AppModel { input, ..self }.opt_acted(action)
                },
                FocusArea::MainView => AppModel {
                    main_view: self.main_view.after_key(key),
                    ..self
                }.opt_acted(log_key_action(key)),
                FocusArea::Sidebar => AppModel {
                    sidebar: self.sidebar.after_key(key),
                    ..self
                }.opt_acted(sidebar_key_action(key)),
            }
        }
    }

    /// After a key.
    #[verifier::opaque]
    pub open spec fn keyed(self, key: KeyEvent) -> AppModel {
        let pressed = key.kind == KeyEventKind::Press;
        if self.fg_session is Some && pressed {
            self.fg_keyed(key)
        } else if self.job_picker is Some && pressed {
            self.picker_keyed(key)
        } else if pressed && self.shortcut(key) is Some {
            self.shortcut(key)->0
        } else if pressed && self.settings_open() && self.settings_keyed(key) is Some {
            self.settings_keyed(key)->0
        } else {
            self.panel_keyed(key)
        }
    }

    /// After text was pasted.
    #[verifier::opaque]
    pub open spec fn pasted(self, text: Text) -> AppModel {
        match self.fg_session {
            Some(s) => self.sent(
                RequestModel::FgInput { data: bytes_of_paste(text, s.screen().bracketed_paste) },
            ),
            None => if self.job_picker is Some {
                self
            } else {
                AppModel { input: self.input.inserted(text), ..self.with_focus(FocusArea::Input) }
            },
        }
    }
}

impl AppState {
    fn on_fg_key(&mut self, key: KeyEvent)
        requires
            old(self).wf(),
            old(self)@.fg_session is Some,
        ensures
            final(self).wf(),
            final(self)@ == old(self)@.fg_keyed(key),
    {
        if is_control_and(key, 'z') {
            self.send(RequestPayload::FgDetach);
            return;
        }
        if is_control_and(key, 'y') {
            self.copy_focus();
            return;
        }
        let application_cursor = match &self.fg_session {
            Some(s) => s.screen().application_cursor,
            None => false,
        };
        if let Some(data) = key_bytes(key, application_cursor) {
            self.send(RequestPayload::FgInput { data });
        }
    }

    fn on_picker_key(&mut self, key: KeyEvent)
        requires
            old(self).wf(),
        ensures
            final(self).wf(),
            final(self)@ == old(self)@.picker_keyed(key),
    {
        match key.code {
            KeyCode::Esc => {
                self.job_picker = None;
            },
            KeyCode::Up => self.move_job_picker(-1),
            KeyCode::Down => self.move_job_picker(1),
            KeyCode::Enter => self.kill_selected_job_from_picker(),
            _ => {
                if is_control_and(key, 'c') {
                    self.job_picker = None;
                }
            },
        }
    }

    /// Does what a key does wherever the focus is; says whether it did anything.
    fn on_shortcut(&mut self, key: KeyEvent) -> (r: bool)
        requires
            old(self).wf(),
        ensures
            final(self).wf(),
            match old(self)@.shortcut(key) {
                Some(s) => r && final(self)@ == s,
                None => !r && final(self)@ == old(self)@,
            },
    {
        proof {
            reveal(AppModel::acted);
        }
        let in_main = match self.focus {
            FocusArea::MainView => true,
            _ => false,
        };
        let in_input = match self.focus {
            FocusArea::Input => true,
            _ => false,
        };
        if is_mode_switch_key(key) {
            self.act(UserAction::ModeSwitch);
        } else if is_control_and(key, 'l') {
            self.clear_display();
        } else if is_control_and(key, 'd') {
            self.should_quit = true;
        } else if is_control_and(key, 'c') {
            self.open_job_picker();
        } else if is_control_and(key, 'y') {
            self.copy_focus();
        } else if is_control_and(key, 'r') && in_main && self.target_settings_open() {
            self.reload_target_settings();
        } else if is_control_and(key, 't') {
            self.open_target_settings();
        } else if key.code == KeyCode::Tab && !key.modifiers.shift && in_input {
            self.complete_input();
        } else {
            return false;
        }
        true
    }

    /// Does what a key does in the dialog for targets; says whether it did
    /// anything.
    fn on_settings_key(&mut self, key: KeyEvent) -> (r: bool)
        requires
            old(self).wf(),
        ensures
            final(self).wf(),
            match old(self)@.settings_keyed(key) {
                Some(s) => r && final(self)@ == s,
                None => !r && final(self)@ == old(self)@,
            },
    {
        match key.code {
            KeyCode::Esc => self.close_target_settings(),
            KeyCode::Up => self.move_target_selection(-1),
            KeyCode::Down => self.move_target_selection(1),
            KeyCode::Home => self.move_target_selection_to_edge(false),
            KeyCode::End => self.move_target_selection_to_edge(true),
            KeyCode::Enter => self.save_selected_target_profile(),
            KeyCode::Char(c) => {
                let waiting = match &self.target_settings {
                    Some(s) => s.has_pending_reconnect(),
                    None => false,
                };
                if (c == 'r' || c == 'R') && !key.modifiers.control && waiting {
                    self.trigger_reconnect_now();
                } else {
                    return false;
                }
            },
            _ => {
                return false;
            },
        }
        true
    }

    fn on_panel_key(&mut self, key: KeyEvent)
        requires
            old(self).wf(),
        ensures
            final(self).wf(),
            final(self)@ == old(self)@.panel_keyed(key),
    {
        proof {
            reveal(AppModel::panel_keyed);
        }
        let near_sidebar = match self.focus {
            FocusArea::Input => false,
            FocusArea::MainView => self.sidebar_visible(),
            FocusArea::Sidebar => true,
        };
        if near_sidebar && self.sidebar.selection().is_some() && (key.code == KeyCode::Backspace
            || key.code == KeyCode::Delete) {
            self.kill_selection();
            return;
        }
        let action = match self.focus {
            FocusArea::Input => self.input.handle_key(key),
            FocusArea::MainView => self.main_view.handle_key(key),
            FocusArea::Sidebar => self.sidebar.handle_key(key),
        };
        if let Some(a) = action {
            self.act(a);
        }
    }

    /// Takes a key.
    pub(crate) fn on_key(&mut self, key: KeyEvent)
        requires
            old(self).wf(),
        ensures
            final(self).wf(),
            final(self)@ == old(self)@.keyed(key),
    {
        proof {
            reveal(AppModel::keyed);
        }
        let pressed = key.kind == KeyEventKind::Press;
        if pressed {
            if self.fg_active() {
                self.on_fg_key(key);
                return;
            }
            if self.job_picker_open() {
                self.on_picker_key(key);
                return;
            }
            if self.on_shortcut(key) {
                return;
            }
            if self.target_settings_open() {
                if self.on_settings_key(key) {
                    return;
                }
            }
        }
        self.on_panel_key(key);
    }

    /// Takes pasted text.
    pub(crate) fn on_paste(&mut self, text: &str)
        requires
            old(self).wf(),
        ensures
            final(self).wf(),
            final(self)@ == old(self)@.pasted(text@),
    {
        proof {
            reveal(AppModel::pasted);
        }
        if let Some(s) = &self.fg_session {
            let bracketed = s.screen().bracketed_paste;
            let data = paste_bytes(text, bracketed);
            self.send(RequestPayload::FgInput { data });
            return;
        }
        if self.job_picker_open() {
            return;
        }
        self.set_focus(FocusArea::Input);
        self.input.insert_text(text);
    }
}

// ── Laws ──

/// While a job is in the foreground, keys change nothing but what is sent to it
/// and what is copied.
pub proof fn lemma_foreground_takes_keys(s: AppModel, key: KeyEvent)
    requires
        s.fg_session is Some,
        key.kind == KeyEventKind::Press,
    ensures
        s.keyed(key) == (AppModel {
            writer: s.keyed(key).writer,
            effects: s.keyed(key).effects,
            ..s
        }),
{
    reveal(AppModel::keyed);
}

/// While the picker is open, a key other than its own changes nothing.
pub proof fn lemma_picker_takes_keys(s: AppModel, key: KeyEvent)
    requires
        s.fg_session is None,
        s.job_picker is Some,
        key.kind == KeyEventKind::Press,
        key.code != KeyCode::Esc,
        key.code != KeyCode::Up,
        key.code != KeyCode::Down,
        key.code != KeyCode::Enter,
        !control_and(key, 'c'),
    ensures
        s.keyed(key) == s,
{
    reveal(AppModel::keyed);
}

} // verus!
