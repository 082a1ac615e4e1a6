use cue_shell::tui::terminal::initial_terminal_size;

#[test]
fn initial_terminal_size_uses_reported_size() {
    let size = initial_terminal_size(Ok((100, 40))).expect("terminal size should load");

    assert_eq!(size, (100, 40));
}

#[test]
fn initial_terminal_size_reports_read_failure() {
    let message = initial_terminal_size(Err("terminal unavailable".to_string()))
        .expect_err("terminal size failure should not fall back to a fake size");

    assert!(message.contains("read terminal size"));
    assert!(message.contains("terminal unavailable"));
}
