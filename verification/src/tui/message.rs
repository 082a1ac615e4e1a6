//! User actions and where the focus is.

use vstd::prelude::*;

use crate::text::Text;

verus! {

/// Which panel owns the keyboard focus.
#[derive(Debug, Clone, Copy, PartialEq, Eq, Structural)]
pub enum FocusArea {
    Input,
    MainView,
    Sidebar,
}

/// Whether the mouse selects text or works the panels.
#[derive(Debug, Clone, Copy, PartialEq, Eq, Structural)]
pub enum MouseMode {
    TextSelect,
    UiCapture,
}

impl MouseMode {
    pub fn label(self) -> (r: &'static str)
        ensures
            r@ == match self {
                MouseMode::TextSelect => "text"@,
                MouseMode::UiCapture => "ui"@,
            },
    {
        match self {
            MouseMode::TextSelect => "text",
            MouseMode::UiCapture => "ui",
        }
    }

    pub fn capture_enabled(self) -> (r: bool)
        ensures
            r == (self == MouseMode::UiCapture),
    {
        match self {
            MouseMode::TextSelect => false,
            MouseMode::UiCapture => true,
        }
    }

    /// The other mode.
    pub open spec fn toggled(self) -> MouseMode {
        match self {
            MouseMode::TextSelect => MouseMode::UiCapture,
            MouseMode::UiCapture => MouseMode::TextSelect,
        }
    }

    pub fn toggle(self) -> (r: MouseMode)
        ensures
            r == self.toggled(),
    {
        match self {
            MouseMode::TextSelect => MouseMode::UiCapture,
            MouseMode::UiCapture => MouseMode::TextSelect,
        }
    }
}

/// Toggling twice leads back to the mode.
pub proof fn lemma_toggling_twice(mode: MouseMode)
    ensures
        mode.toggled().toggled() == mode,
{
}

/// What the user asks for.
#[derive(Debug, PartialEq, Eq)]
pub enum UserAction {
    Submit(String),
    ModeSwitch,
    ToggleSidebar,
    ToggleMouseMode,
    CopyFocus,
    ClearDisplay,
    OpenTargetSettings,
    OpenJobPicker,
    KillSelection,
    Quit,
}

/// An action over character sequences.
pub enum ActionModel {
    Submit(Text),
    ModeSwitch,
    ToggleSidebar,
    ToggleMouseMode,
    CopyFocus,
    ClearDisplay,
    OpenTargetSettings,
    OpenJobPicker,
    KillSelection,
    Quit,
}

impl View for UserAction {
    type V = ActionModel;

    open spec fn view(&self) -> ActionModel {
        match self {
            UserAction::Submit(text) => ActionModel::Submit(text@),
            UserAction::ModeSwitch => ActionModel::ModeSwitch,
            UserAction::ToggleSidebar => ActionModel::ToggleSidebar,
            UserAction::ToggleMouseMode => ActionModel::ToggleMouseMode,
            UserAction::CopyFocus => ActionModel::CopyFocus,
            UserAction::ClearDisplay => ActionModel::ClearDisplay,
            UserAction::OpenTargetSettings => ActionModel::OpenTargetSettings,
            UserAction::OpenJobPicker => ActionModel::OpenJobPicker,
            UserAction::KillSelection => ActionModel::KillSelection,
            UserAction::Quit => ActionModel::Quit,
        }
    }
}

/// An optional action over character sequences.
pub open spec fn opt_action(a: Option<UserAction>) -> Option<ActionModel> {
    match a {
        Some(x) => Some(x@),
        None => None,
    }
}

} // verus!
