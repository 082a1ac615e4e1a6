use cue_shell::tui::geometry::Rect;
use cue_shell::tui::input_line::InputLine;
use cue_shell::tui::keys::{KeyCode, KeyEvent, KeyModifiers};

#[test]
fn shift_enter_inserts_newline() {
    let mut input = InputLine::new();
    input.insert_text("echo hi");

    input.handle_key(KeyEvent::new(KeyCode::Enter, KeyModifiers::shift()));

    assert_eq!(input.content, "echo hi\n");
    assert_eq!(input.desired_height(), 2);
}

#[test]
fn super_arrows_move_to_line_edges() {
    let mut input = InputLine::new();
    input.insert_text("echo hi\nsleep 4");
    input.cursor = "echo hi\nsleep".len();

    input.handle_key(KeyEvent::new(KeyCode::Left, KeyModifiers::super_key()));
    assert_eq!(input.cursor, "echo hi\n".len());

    input.handle_key(KeyEvent::new(KeyCode::Right, KeyModifiers::super_key()));
    assert_eq!(input.cursor, input.content.len());
}

#[test]
fn up_down_move_within_multiline_before_history() {
    let mut input = InputLine::new();
    input.insert_text("alpha\nbeta");
    input.cursor = input.content.len();

    input.handle_key(KeyEvent::new(KeyCode::Up, KeyModifiers::none()));
    assert_eq!(input.cursor, 4);

    input.handle_key(KeyEvent::new(KeyCode::Down, KeyModifiers::none()));
    assert_eq!(input.cursor, input.content.len());
}

#[test]
fn alt_arrows_and_ctrl_w_move_and_delete_words() {
    let mut input = InputLine::new();
    input.insert_text("echo hello world");
    input.cursor = input.content.len();

    input.handle_key(KeyEvent::new(KeyCode::Left, KeyModifiers::alt()));
    assert_eq!(&input.content[input.cursor..], "world");

    input.handle_key(KeyEvent::new(KeyCode::Char('w'), KeyModifiers::control()));
    assert_eq!(input.content, "echo world");
    assert_eq!(input.cursor, "echo ".len());
}

#[test]
fn ctrl_c_is_ignored_by_input_component() {
    let mut input = InputLine::new();
    input.insert_text("sleep 4");

    let msg = input.handle_key(KeyEvent::new(KeyCode::Char('c'), KeyModifiers::control()));

    assert!(msg.is_none());
    assert_eq!(input.content, "sleep 4");
    assert_eq!(input.cursor, "sleep 4".len());
}

#[test]
fn current_word_range_tracks_cursor_token() {
    let mut input = InputLine::new();
    input.insert_text(":ki J");

    assert_eq!(input.current_word_range(), 4..5);
}

#[test]
fn replace_range_updates_cursor_and_content() {
    let mut input = InputLine::new();
    input.insert_text(":ki");

    input.replace_range(0..3, ":kill ");

    assert_eq!(input.content, ":kill ");
    assert_eq!(input.cursor, ":kill ".len());
}

#[test]
fn clicking_input_line_moves_cursor_with_prompt_offset() {
    let mut input = InputLine::new();
    input.insert_text("echo hi\npwd");

    input.set_cursor_from_point(Rect::new(0, 0, 40, 2), 10, 1);

    assert_eq!(input.cursor, "echo hi\n".len());
}
