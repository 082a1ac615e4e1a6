use cue_shell::tui::foreground::{key_bytes, paste_bytes, terminal_size};
use cue_shell::tui::keys::{KeyCode, KeyEvent, KeyModifiers};

#[test]
fn terminal_size_accounts_for_chrome_and_saturates() {
    assert_eq!(terminal_size(80, 24), (78, 21));
    assert_eq!(terminal_size(2, 3), (1, 1));
    assert_eq!(terminal_size(0, 0), (1, 1));
}

#[test]
fn key_bytes_use_application_cursor_sequences_when_enabled() {
    let key = KeyEvent::new(KeyCode::Up, KeyModifiers::none());
    assert_eq!(key_bytes(key, false), Some(b"\x1b[A".to_vec()));
    assert_eq!(key_bytes(key, true), Some(b"\x1bOA".to_vec()));
}

#[test]
fn control_letter_keys_encode_control_bytes() {
    let key = KeyEvent::new(KeyCode::Char('C'), KeyModifiers::control());
    assert_eq!(key_bytes(key, false), Some(vec![0x03]));
}

#[test]
fn non_letter_control_keys_are_not_encoded() {
    let key = KeyEvent::new(KeyCode::Char('1'), KeyModifiers::control());
    assert_eq!(key_bytes(key, false), None);
}

#[test]
fn paste_bytes_wrap_when_bracketed_paste_is_enabled() {
    assert_eq!(paste_bytes("echo hi", false), b"echo hi".to_vec());
    assert_eq!(
        paste_bytes("echo hi", true),
        b"\x1b[200~echo hi\x1b[201~".to_vec()
    );
}
