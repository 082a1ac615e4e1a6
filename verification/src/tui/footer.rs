//! The footer: what the keys do now.

use vstd::prelude::*;
use vstd::string::*;

use crate::mode::Mode;
use crate::text;
use crate::text::Text;
use crate::tui::message::FocusArea;
use crate::tui::target_settings::{settings_footer, target_settings_footer_text};

verus! {

/// What the footer speaks of.
#[derive(Debug, Clone, Copy, PartialEq, Eq, Structural)]
#[allow(inconsistent_fields)]
pub enum FooterContext {
    JobPicker { mode: Mode },
    TargetSettings { can_save: bool, has_pending_reconnect: bool },
    Main { focus: FocusArea, mode: Mode, display_has_target: bool },
}

pub open spec fn main_footer(focus: FocusArea, mode: Mode, display_has_target: bool) -> Text {
    match focus {
        FocusArea::Input => match mode {
            Mode::Job => "JOB: Enter submit  •  Shift+Enter newline  •  Tab complete  •  Shift+Tab mode"@,
            Mode::Cron => "CRON: Enter schedule + command  •  Shift+Enter newline  •  Tab complete  •  Shift+Tab mode"@,
        },
        FocusArea::Sidebar => "Sidebar: Click row to open  •  Del/Backspace kill or remove  •  Up/Down move  •  Enter open  •  Shift+Tab mode  •  Ctrl+B toggle"@,
        FocusArea::MainView => if display_has_target {
            "Display: Click tab to switch  •  × closes tab  •  Ctrl+Y copy active tab  •  Shift+Tab mode  •  Ctrl+L clears when idle"@
        } else {
            "Command log: Click cards to inspect  •  Ctrl+Y copy latest record  •  Shift+Tab mode  •  :out/:err snapshot  •  :tail follows live output"@
        },
    }
}

pub open spec fn footer(context: FooterContext) -> Text {
    match context {
        FooterContext::JobPicker { mode } => match mode {
            Mode::Job => "Kill picker: Enter kill  •  Esc close"@,
            Mode::Cron => "Remove picker: Enter remove  •  Esc close"@,
        },
        FooterContext::TargetSettings { can_save, has_pending_reconnect } => settings_footer(
            can_save,
            has_pending_reconnect,
        ),
        FooterContext::Main { focus, mode, display_has_target } => main_footer(
            focus,
            mode,
            display_has_target,
        ),
    }
}

fn main_footer_text(focus: FocusArea, mode: Mode, display_has_target: bool) -> (r: &'static str)
    ensures
        r@ == main_footer(focus, mode, display_has_target),
{
    match focus {
        FocusArea::Input => match mode {
            Mode::Job => "JOB: Enter submit  •  Shift+Enter newline  •  Tab complete  •  Shift+Tab mode",
            Mode::Cron => "CRON: Enter schedule + command  •  Shift+Enter newline  •  Tab complete  •  Shift+Tab mode",
        },
        FocusArea::Sidebar => "Sidebar: Click row to open  •  Del/Backspace kill or remove  •  Up/Down move  •  Enter open  •  Shift+Tab mode  •  Ctrl+B toggle",
        FocusArea::MainView => if display_has_target {
            "Display: Click tab to switch  •  × closes tab  •  Ctrl+Y copy active tab  •  Shift+Tab mode  •  Ctrl+L clears when idle"
        } else {
            "Command log: Click cards to inspect  •  Ctrl+Y copy latest record  •  Shift+Tab mode  •  :out/:err snapshot  •  :tail follows live output"
        },
    }
}

/// The text of the footer.
pub fn footer_text(context: FooterContext) -> (r: String)
    ensures
        r@ == footer(context),
{
    match context {
        FooterContext::JobPicker { mode } => match mode {
            Mode::Job => "Kill picker: Enter kill  •  Esc close".to_owned(),
            Mode::Cron => "Remove picker: Enter remove  •  Esc close".to_owned(),
        },
        FooterContext::TargetSettings { can_save, has_pending_reconnect } =>
            target_settings_footer_text(can_save, has_pending_reconnect),
        FooterContext::Main { focus, mode, display_has_target } => main_footer_text(
            focus,
            mode,
            display_has_target,
        ).to_owned(),
    }
}

} // verus!
