//! What the main loop does after each message.

use vstd::prelude::*;

use crate::text;
use crate::text::Text;
use crate::tui::app::state::AppState;
use crate::tui::app::update::AppMsg;
use crate::tui::message::MouseMode;

verus! {

/// What to do before the next message.
#[derive(Debug, Clone, Copy, PartialEq, Eq, Structural)]
pub struct LoopStep {
    /// Whether the history of commands has to be saved.
    pub save_history: bool,
    /// Whether the mouse has to be captured or let go, if either.
    pub set_mouse_capture: Option<bool>,
    pub quit: bool,
}

/// The error that the main loop ends with after a message, if it does.
pub open spec fn fatal_text(msg: AppMsg) -> Option<Text> {
    match msg {
        AppMsg::FatalError { message } => Some(message@),
        _ => None,
    }
}

/// The error that the main loop ends with once the state has taken the message.
pub fn fatal_error(msg: &AppMsg) -> (r: Option<String>)
    ensures
        text::opt_text(r) == fatal_text(*msg),
{
    match msg {
        AppMsg::FatalError { message } => Some(message.clone()),
        _ => None,
    }
}

/// What to do after a message, given the history that was saved last and whether
/// the mouse is captured.
pub fn after_message(state: &AppState, saved_history: &Vec<String>, mouse_captured: bool) -> (r:
    LoopStep)
    ensures
        r.save_history == (state@.input.history != text::texts(saved_history@)),
        r.set_mouse_capture == if (state@.mouse_mode == MouseMode::UiCapture) == mouse_captured {
            None
        } else {
            Some(!mouse_captured)
        },
        r.quit == state@.should_quit,
{
    let wanted = state.mouse_mode.capture_enabled();
    LoopStep {
        save_history: !state.input.history_is(saved_history),
        set_mouse_capture: if wanted == mouse_captured {
            None
        } else {
            Some(wanted)
        },
        quit: state.should_quit,
    }
}

} // verus!
