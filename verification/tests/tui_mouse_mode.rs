use cue_shell::tui::message::MouseMode;

#[test]
fn labels_match_terminal_mouse_mode() {
    assert_eq!(MouseMode::TextSelect.label(), "text");
    assert_eq!(MouseMode::UiCapture.label(), "ui");
}

#[test]
fn capture_enabled_only_for_ui_mode() {
    assert!(!MouseMode::TextSelect.capture_enabled());
    assert!(MouseMode::UiCapture.capture_enabled());
}

#[test]
fn toggle_switches_between_modes() {
    assert_eq!(MouseMode::TextSelect.toggle(), MouseMode::UiCapture);
    assert_eq!(MouseMode::UiCapture.toggle(), MouseMode::TextSelect);
}
