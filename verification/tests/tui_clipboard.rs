use cue_shell::tui::clipboard::{
    first_available_target, osc52_sequence, write_osc52_sequence, CopyTarget,
};

#[test]
fn first_available_target_uses_priority_order() {
    let target = first_available_target(vec![
        None,
        Some(CopyTarget::new("display", "shown")),
        Some(CopyTarget::new("record", "older")),
    ]);

    assert_eq!(target, Some(CopyTarget::new("display", "shown")));
    assert_eq!(first_available_target(Vec::new()), None);
}

#[test]
fn osc52_sequence_encodes_text_as_base64_clipboard_payload() {
    assert_eq!(osc52_sequence("hello"), "\x1b]52;c;aGVsbG8=\x07");
}

#[test]
fn write_osc52_sequence_writes_and_flushes_payload() {
    let mut output = Vec::new();
    write_osc52_sequence(&mut output, "copy me");

    assert_eq!(
        String::from_utf8(output).unwrap(),
        "\x1b]52;c;Y29weSBtZQ==\x07"
    );
}

#[test]
fn what_is_missing_of_three_bytes_is_padded() {
    for (text, payload) in
        [("", ""), ("f", "Zg=="), ("fo", "Zm8="), ("foo", "Zm9v"), ("foob", "Zm9vYg=="), ("ÿ?>", "w78/Pg==")]
    {
        assert_eq!(osc52_sequence(text), format!("\x1b]52;c;{payload}\x07"));
    }
}
