use cue_shell::mode::Mode;
use cue_shell::tui::footer::{footer_text, FooterContext};
use cue_shell::tui::message::FocusArea;

#[test]
fn picker_footer_matches_mode_action() {
    assert!(footer_text(FooterContext::JobPicker { mode: Mode::Job }).contains("Kill picker"));
    assert!(
        footer_text(FooterContext::JobPicker { mode: Mode::Cron }).contains("Remove picker")
    );
}

#[test]
fn main_footer_distinguishes_input_modes() {
    assert!(
        footer_text(FooterContext::Main {
            focus: FocusArea::Input,
            mode: Mode::Job,
            display_has_target: false,
        })
        .starts_with("JOB:")
    );
    assert!(
        footer_text(FooterContext::Main {
            focus: FocusArea::Input,
            mode: Mode::Cron,
            display_has_target: false,
        })
        .starts_with("CRON:")
    );
}

#[test]
fn main_footer_distinguishes_display_and_command_log() {
    assert!(
        footer_text(FooterContext::Main {
            focus: FocusArea::MainView,
            mode: Mode::Job,
            display_has_target: true,
        })
        .contains("Display:")
    );
    assert!(
        footer_text(FooterContext::Main {
            focus: FocusArea::MainView,
            mode: Mode::Job,
            display_has_target: false,
        })
        .contains("Command log:")
    );
}

#[test]
fn target_settings_footer_delegates_action_hints() {
    let text = footer_text(FooterContext::TargetSettings {
        can_save: true,
        has_pending_reconnect: true,
    });

    assert!(text.contains("Enter save default"));
    assert!(text.contains("R reconnect now"));
}
