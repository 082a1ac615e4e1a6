//! What is typed: keys as bytes, copied text, commands that stay at home and what is said of
//! those that are sent.

use vstd::prelude::*;

use crate::text;
use crate::job::JobStatus;
use crate::laws::texts::{lemma_trimmed, lemma_words_front, print, printed, solid};
use crate::text::Text;
use crate::tui::card_action::{card_action, CardActionModel};
use crate::tui::cli::{command_of, TuiCommand};
use crate::tui::clipboard::{base64_digit, base64_text, clipboard_sequence};
use crate::tui::foreground::{bytes_of_key, bytes_of_paste, control_byte, session_size};
use crate::tui::ipc::Stream;
use crate::tui::keys::{mode_switch_key, KeyCode, KeyEvent, KeyEventKind, KeyModifiers};
use crate::tui::main_view::CardModel;
use crate::tui::submission::{
    ack_text, argument_of, command_label, decorated, display_request_of, local_command,
    DisplayRequest, LocalCommand,
};

verus! {

// ── Keys ──

/// Control and a letter send the number of the letter, in either case; without control a
/// character sends its own encoding.
pub proof fn lemma_letters_with_control(
    lower: char,
    upper: char,
    m: KeyModifiers,
    kind: KeyEventKind,
    app: bool,
)
    requires
        'a' <= lower <= 'z',
        upper as int == lower as int - 'a' as int + 'A' as int,
        m.control,
    ensures
        bytes_of_key(KeyEvent { code: KeyCode::Char(lower), modifiers: m, kind }, app) matches Some(b)
            && b.len() == 1 && b[0] as int == lower as int - 'a' as int + 1,
        bytes_of_key(KeyEvent { code: KeyCode::Char(upper), modifiers: m, kind }, app) == bytes_of_key(
            KeyEvent { code: KeyCode::Char(lower), modifiers: m, kind },
            app,
        ),
        bytes_of_key(
            KeyEvent {
                code: KeyCode::Char(lower),
                modifiers: KeyModifiers { control: false, ..m },
                kind,
            },
            app,
        ) == Some(vstd::utf8::encode_utf8(seq![lower])),
{
    assert('A' <= upper <= 'Z');
    assert(control_byte(upper) == control_byte(lower));
}

/// A cursor key sends an escape, `[` or in application mode `O`, and its letter.
pub open spec fn cursor_key(key: KeyEvent, app: bool, letter: char) -> bool {
    bytes_of_key(key, app) == Some(
        seq![
            0x1bu8,
            if app {
                'O' as u8
            } else {
                '[' as u8
            },
            letter as u8,
        ],
    )
}

/// Each key that moves the cursor sends its own letter, and each that edits its own byte.
pub proof fn lemma_keys_without_characters(key: KeyEvent, app: bool)
    ensures
        key.code is Up ==> cursor_key(key, app, 'A'),
        key.code is Down ==> cursor_key(key, app, 'B'),
        key.code is Right ==> cursor_key(key, app, 'C'),
        key.code is Left ==> cursor_key(key, app, 'D'),
        key.code is Home ==> cursor_key(key, app, 'H'),
        key.code is End ==> cursor_key(key, app, 'F'),
        key.code is Enter ==> bytes_of_key(key, app) == Some(seq!['\r' as u8]),
        key.code is Tab ==> bytes_of_key(key, app) == Some(seq!['\t' as u8]),
        key.code is Backspace ==> bytes_of_key(key, app) == Some(seq![127u8]),
        key.code is Esc ==> bytes_of_key(key, app) == Some(seq![27u8]),
        key.code is Delete ==> bytes_of_key(key, app) == Some(
            seq![27u8, '[' as u8, '3' as u8, '~' as u8],
        ),
        key.code is BackTab ==> bytes_of_key(key, app) == Some(seq![27u8, '[' as u8, 'Z' as u8]),
        key.code is PageUp || key.code is PageDown || key.code is Other ==> bytes_of_key(key, app)
            is None,
{
}

/// Pasted text is sent as it is, between the two marks where the session asks for them.
pub proof fn lemma_pasted_text(t: Text)
    ensures
        bytes_of_paste(t, false) == vstd::utf8::encode_utf8(t),
        bytes_of_paste(t, true) == seq![
            27u8,
            '[' as u8,
            '2' as u8,
            '0' as u8,
            '0' as u8,
            '~' as u8,
        ] + bytes_of_paste(t, false) + seq![
            27u8,
            '[' as u8,
            '2' as u8,
            '0' as u8,
            '1' as u8,
            '~' as u8,
        ],
{
}

/// A session gets the terminal without a column on either side and without three rows, and
/// a cell at least.
pub proof fn lemma_room_for_a_session(width: u16, height: u16)
    ensures
        width > 2 ==> session_size(width, height).0 == width - 2,
        width <= 2 ==> session_size(width, height).0 == 1,
        height > 3 ==> session_size(width, height).1 == height - 3,
        height <= 3 ==> session_size(width, height).1 == 1,
{
}

/// Shift and Tab switch the mode, and no other key does.
pub proof fn lemma_mode_key(key: KeyEvent)
    ensures
        mode_switch_key(key) <==> key.code is BackTab || (key.code is Tab && key.modifiers.shift),
{
}

// ── Copied text ──

/// The six bits that a character stands for.
pub open spec fn six_bits(c: char) -> int {
    if 'A' <= c <= 'Z' {
        c as int - 'A' as int
    } else if 'a' <= c <= 'z' {
        26 + (c as int - 'a' as int)
    } else if '0' <= c <= '9' {
        52 + (c as int - '0' as int)
    } else if c == '+' {
        62
    } else {
        63
    }
}

/// The bytes that four characters each stand for.
pub open spec fn bytes_read(t: Text) -> Seq<u8>
    decreases t.len(),
{
    if t.len() < 4 {
        Seq::empty()
    } else {
        let a = six_bits(t[0]);
        let b = six_bits(t[1]);
        let c = six_bits(t[2]);
        let d = six_bits(t[3]);
        let first = seq![(a * 4 + b / 16) as u8];
        let second = if t[2] == '=' {
            Seq::empty()
        } else {
            seq![(b % 16 * 16 + c / 4) as u8]
        };
        let third = if t[3] == '=' {
            Seq::empty()
        } else {
            seq![(c % 4 * 64 + d) as u8]
        };
        first + second + third + bytes_read(t.skip(4))
    }
}

proof fn lemma_six_bits(n: int)
    requires
        0 <= n < 64,
    ensures
        six_bits(base64_digit(n)) == n,
        base64_digit(n) != '=',
{
    if n < 26 {
        assert(base64_digit(n) as int == 'A' as int + n);
    } else if n < 52 {
        assert(base64_digit(n) as int == 'a' as int + n - 26);
    } else if n < 62 {
        assert(base64_digit(n) as int == '0' as int + n - 52);
    }
}

/// What was copied can be read back from what is sent to the clipboard.
pub proof fn lemma_copied_bytes_read_back(data: Seq<u8>)
    ensures
        bytes_read(base64_text(data)) == data,
    decreases data.len(),
{
    if data.len() == 0 {
        assert(bytes_read(base64_text(data)) =~= data);
    } else {
        let a = data[0] as int;
        let b = if data.len() > 1 {
            data[1] as int
        } else {
            0
        };
        let c = if data.len() > 2 {
            data[2] as int
        } else {
            0
        };
        lemma_six_bits(a / 4);
        lemma_six_bits(a % 4 * 16 + b / 16);
        lemma_six_bits(b % 16 * 4 + c / 64);
        lemma_six_bits(c % 64);
        let rest = if data.len() > 3 {
            data.skip(3)
        } else {
            Seq::empty()
        };
        lemma_copied_bytes_read_back(rest);
        let t = base64_text(data);
        assert(t.skip(4) =~= base64_text(rest));
        assert(t[0] == base64_digit(a / 4) && t[1] == base64_digit(a % 4 * 16 + b / 16));
        assert((a / 4) * 4 + (a % 4 * 16 + b / 16) / 16 == a);
        if data.len() > 1 {
            assert(t[2] == base64_digit(b % 16 * 4 + c / 64));
            assert((a % 4 * 16 + b / 16) % 16 * 16 + (b % 16 * 4 + c / 64) / 4 == b);
        } else {
            assert(t[2] == '=');
        }
        if data.len() > 2 {
            assert(t[3] == base64_digit(c % 64));
            assert((b % 16 * 4 + c / 64) % 4 * 64 + c % 64 == c);
        } else {
            assert(t[3] == '=');
        }
        assert(bytes_read(t) =~= data);
    }
}

/// The clipboard of the terminal is set by the sequence for the clipboard, with the payload
/// in it as it is.
pub proof fn lemma_clipboard_set(payload: Text)
    ensures
        clipboard_sequence(payload) == seq!['\u{1b}', ']', '5', '2', ';', 'c', ';'] + payload
            + seq!['\u{7}'],
{
    reveal_strlit("\x1b]52;c;");
    reveal_strlit("\x07");
    assert("\x1b]52;c;"@ =~= seq!['\u{1b}', ']', '5', '2', ';', 'c', ';']);
    assert("\x07"@ =~= seq!['\u{7}']);
}

// ── Arguments of the program ──

proof fn lemma_argument_prints()
    ensures
        print("-h"@) == printed(2, '-', 'h'),
        print("--help"@) == printed(6, '-', '-'),
        print("help"@) == printed(4, 'h', 'e'),
        print("-V"@) == printed(2, '-', 'V'),
        print("--version"@) == printed(9, '-', '-'),
        print("version"@) == printed(7, 'v', 'e'),
{
    reveal_strlit("-h");
    reveal_strlit("--help");
    reveal_strlit("help");
    reveal_strlit("-V");
    reveal_strlit("--version");
    reveal_strlit("version");
}

/// Without arguments the program runs; help and the version are asked for in three ways
/// each, with nothing behind them; all else is refused.
pub proof fn lemma_program_arguments(args: Seq<Option<Text>>)
    ensures
        command_of(args) == Ok::<TuiCommand, Text>(TuiCommand::Run) <==> args.len() == 0,
        command_of(args) == Ok::<TuiCommand, Text>(TuiCommand::Help) <==> args.len() == 1 && (args[0]
            == Some("-h"@) || args[0] == Some("--help"@) || args[0] == Some("help"@)),
        command_of(args) == Ok::<TuiCommand, Text>(TuiCommand::Version) <==> args.len() == 1 && (
        args[0] == Some("-V"@) || args[0] == Some("--version"@) || args[0] == Some("version"@)),
{
    lemma_argument_prints();
}

// ── Records ──

/// Opening the record of a job that runs brings it to the foreground, of one that has ended
/// shows its output, and everything else is previewed.
pub proof fn lemma_opened_records(index: nat, card: CardModel, id: Text, status: JobStatus)
    ensures
        card_action(index, card, Some((id, status))) == (CardActionModel::Foreground { job_id: id })
            <==> status is Running,
        card_action(index, card, Some((id, status))) == (CardActionModel::Tail { job_id: id }) <==> (
        status is Done || status is Failed || status is Killed || status is Cancelled),
        card_action(index, card, Some((id, status))) is Preview <==> status is Pending,
        card_action(index, card, None) is Preview,
{
}

// ── Commands that are not sent ──

proof fn lemma_local_prints()
    ensures
        print(":clear"@) == printed(6, ':', 'c'),
        print(":quit"@) == printed(5, ':', 'q'),
        print(":exit"@) == printed(5, ':', 'e'),
        print(":restart"@) == printed(8, ':', 'r'),
{
    reveal_strlit(":clear");
    reveal_strlit(":quit");
    reveal_strlit(":exit");
    reveal_strlit(":restart");
}

proof fn lemma_local_ends()
    ensures
        ":clear"@.len() == 6 && !text::is_white(":clear"@[0]) && !text::is_white(":clear"@[5]),
        ":quit"@.len() == 5 && !text::is_white(":quit"@[0]) && !text::is_white(":quit"@[4]),
        ":exit"@.len() == 5 && !text::is_white(":exit"@[0]) && !text::is_white(":exit"@[4]),
        ":restart"@.len() == 8 && !text::is_white(":restart"@[0]) && !text::is_white(
            ":restart"@[7],
        ),
{
    reveal_strlit(":clear");
    reveal_strlit(":quit");
    reveal_strlit(":exit");
    reveal_strlit(":restart");
}

/// Clearing, quitting in its two ways and restarting are done here, whatever white space
/// stands round them.
pub proof fn lemma_local_commands(pre: Text, post: Text)
    requires
        forall|i: int| 0 <= i < pre.len() ==> text::is_white(#[trigger] pre[i]),
        forall|i: int| 0 <= i < post.len() ==> text::is_white(#[trigger] post[i]),
    ensures
        local_command(pre + ":clear"@ + post) == Some(LocalCommand::Clear),
        local_command(pre + ":quit"@ + post) == Some(LocalCommand::Quit),
        local_command(pre + ":exit"@ + post) == Some(LocalCommand::Quit),
        local_command(pre + ":restart"@ + post) == Some(LocalCommand::Restart),
{
    lemma_local_prints();
    lemma_local_ends();
    lemma_trimmed(pre, ":clear"@, post);
    lemma_trimmed(pre, ":quit"@, post);
    lemma_trimmed(pre, ":exit"@, post);
    lemma_trimmed(pre, ":restart"@, post);
}

/// Everything else is sent.
pub proof fn lemma_other_commands_sent(input: Text)
    ensures
        local_command(input) is Some <==> (text::trim(input) == ":clear"@ || text::trim(input)
            == ":quit"@ || text::trim(input) == ":exit"@ || text::trim(input) == ":restart"@),
{
}

// ── Output that is asked for ──

proof fn lemma_output_prints()
    ensures
        print("out"@) == printed(3, 'o', 'u'),
        print("tail"@) == printed(4, 't', 'a'),
        print("err"@) == printed(3, 'e', 'r'),
{
    reveal_strlit("out");
    reveal_strlit("tail");
    reveal_strlit("err");
}

/// `:out` and `:tail` show standard output and `:err` shows standard error; only `:tail`
/// follows. No other command shows output.
pub proof fn lemma_output_asked_for(w: Text, rest: Text)
    requires
        solid(w),
        rest.len() == 0 || (text::is_white(rest[0]) && !text::is_white(rest[rest.len() - 1])),
    ensures
        ({
            let r = display_request_of(seq![':'] + w + rest);
            &&& w == "out"@ ==> r == Some(DisplayRequest { stream: Stream::Stdout, follow: false })
            &&& w == "tail"@ ==> r == Some(DisplayRequest { stream: Stream::Stdout, follow: true })
            &&& w == "err"@ ==> r == Some(DisplayRequest { stream: Stream::Stderr, follow: false })
            &&& r is Some ==> w == "out"@ || w == "tail"@ || w == "err"@
        }),
{
    lemma_output_prints();
    reveal_strlit(":");
    assert(":"@ =~= seq![':']);
    let s = seq![':'] + w + rest;
    let none = Seq::<char>::empty();
    assert(none + s + none =~= s);
    assert(s[0] == ':');
    assert(!text::is_white(s[s.len() - 1])) by {
        if rest.len() == 0 {
            assert(s[s.len() - 1] == w[w.len() - 1]);
        } else {
            assert(s[s.len() - 1] == rest[rest.len() - 1]);
        }
    }
    lemma_trimmed(none, s, none);
    assert(s.subrange(0, 1) =~= ":"@);
    assert(s.skip(1) =~= w + rest);
    lemma_words_front(w, rest);
    assert((seq![w] + text::words(rest))[0] == w);
}

// ── What is said of commands ──

/// A command, a blank and what it is about, which neither begins nor ends in white space.
pub open spec fn about(command: Text, what: Text) -> Text {
    command + seq![' '] + what
}

proof fn lemma_argument(command: Text, what: Text)
    requires
        command.len() > 0,
        !text::is_white(command[0]),
        what.len() > 0,
        !text::is_white(what[0]),
        !text::is_white(what[what.len() - 1]),
    ensures
        text::trim(about(command, what)) == about(command, what),
        argument_of(about(command, what), command) == Some(what),
{
    let s = about(command, what);
    let none = Seq::<char>::empty();
    assert(none + s + none =~= s);
    assert(s[0] == command[0] && s[s.len() - 1] == what[what.len() - 1]);
    lemma_trimmed(none, s, none);
    assert(s.subrange(0, command.len() as int) =~= command);
    assert(s.skip(command.len() as int) =~= seq![' '] + what + none);
    lemma_trimmed(seq![' '], what, none);
}

proof fn lemma_no_argument(s: Text, prefix: Text, i: int)
    requires
        0 <= i < prefix.len(),
        i < s.len(),
        s[i] != prefix[i],
    ensures
        argument_of(s, prefix) is None,
{
    if text::starts_with(s, prefix) {
        assert(s.subrange(0, prefix.len() as int)[i] == s[i]);
    }
}

/// What is said of a command that was accepted says what was asked for and of what.
pub proof fn lemma_accepted_commands(what: Text)
    requires
        what.len() > 0,
        !text::is_white(what[0]),
        !text::is_white(what[what.len() - 1]),
    ensures
        ack_text(about(":kill"@, what)) == "kill requested for "@ + what,
        ack_text(about(":cancel"@, what)) == "cancel requested for "@ + what,
        ack_text(about(":pause"@, what)) == "paused "@ + what,
        ack_text(about(":resume"@, what)) == "resumed "@ + what,
        ack_text(about(":send"@, what)) == "sent "@ + what,
        command_label(about(":run"@, what)) == what,
        command_label(about(":cron"@, what)) == what,
{
    reveal_strlit(":kill");
    reveal_strlit(":cancel");
    reveal_strlit(":pause");
    reveal_strlit(":resume");
    reveal_strlit(":send");
    reveal_strlit(":run");
    reveal_strlit(":cron");
    let kill = about(":kill"@, what);
    let cancel = about(":cancel"@, what);
    let pause = about(":pause"@, what);
    let resume = about(":resume"@, what);
    let send = about(":send"@, what);
    let cron = about(":cron"@, what);
    lemma_argument(":kill"@, what);
    lemma_argument(":cancel"@, what);
    lemma_argument(":pause"@, what);
    lemma_argument(":resume"@, what);
    lemma_argument(":send"@, what);
    lemma_argument(":run"@, what);
    lemma_argument(":cron"@, what);
    assert(cancel[1] == 'c' && pause[1] == 'p' && resume[1] == 'r' && send[1] == 's' && cron[1]
        == 'c');
    assert(":kill"@[1] == 'k' && ":cancel"@[1] == 'c' && ":pause"@[1] == 'p' && ":resume"@[1] == 'r'
        && ":run"@[1] == 'r');
    lemma_no_argument(cancel, ":kill"@, 1);
    lemma_no_argument(pause, ":kill"@, 1);
    lemma_no_argument(pause, ":cancel"@, 1);
    lemma_no_argument(resume, ":kill"@, 1);
    lemma_no_argument(resume, ":cancel"@, 1);
    lemma_no_argument(resume, ":pause"@, 1);
    lemma_no_argument(send, ":kill"@, 1);
    lemma_no_argument(send, ":cancel"@, 1);
    lemma_no_argument(send, ":pause"@, 1);
    lemma_no_argument(send, ":resume"@, 1);
    lemma_no_argument(cron, ":run"@, 1);
}

/// An answer stands below all the warnings, and nothing is lost where there is only one of
/// the two.
pub proof fn lemma_answer_below_warnings(warnings: Seq<Text>, body: Text)
    ensures
        warnings.len() == 0 ==> decorated(warnings, body) == body,
        warnings.len() > 0 && body.len() == 0 ==> decorated(warnings, body) == text::join(
            warnings,
            "\n"@,
        ),
        warnings.len() > 0 && body.len() > 0 ==> decorated(warnings, body) == text::join(
            warnings,
            "\n"@,
        ) + seq!['\n', '\n'] + body,
{
    reveal_strlit("\n\n");
    assert("\n\n"@ =~= seq!['\n', '\n']);
}

} // verus!
