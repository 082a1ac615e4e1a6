use cue_shell::tui::keys::{is_mode_switch_key, KeyCode, KeyEvent, KeyModifiers};

#[test]
fn mode_switch_key_accepts_shift_tab_forms() {
    assert!(is_mode_switch_key(KeyEvent::new(
        KeyCode::BackTab,
        KeyModifiers::shift()
    )));
    assert!(is_mode_switch_key(KeyEvent::new(
        KeyCode::Tab,
        KeyModifiers::shift()
    )));
    assert!(!is_mode_switch_key(KeyEvent::new(
        KeyCode::Tab,
        KeyModifiers::none()
    )));
}
