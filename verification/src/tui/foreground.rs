//! Foreground sessions: what the terminal shows and what keys send.

use vstd::prelude::*;
use vstd::string::*;

use crate::text::Text;
use crate::tui::keys::{KeyCode, KeyEvent};

verus! {

// ── The terminal emulator ──

/// What an emulator is given.
#[derive(Debug)]
pub enum TermInput {
    /// A size in rows and columns.
    Size(u16, u16),
    /// Bytes to show.
    Bytes(Vec<u8>),
}

/// An input over byte sequences.
pub enum TermInputModel {
    Size(u16, u16),
    Bytes(Seq<u8>),
}

impl View for TermInput {
    type V = TermInputModel;

    open spec fn view(&self) -> TermInputModel {
        match self {
            TermInput::Size(rows, cols) => TermInputModel::Size(*rows, *cols),
            TermInput::Bytes(data) => TermInputModel::Bytes(data@),
        }
    }
}

pub open spec fn input_models(v: Seq<TermInput>) -> Seq<TermInputModel> {
    v.map_values(|i: TermInput| i@)
}

/// What an emulator shows.
#[derive(Debug)]
pub struct FgScreen {
    pub application_cursor: bool,
    pub bracketed_paste: bool,
    pub alternate_screen: bool,
    /// The text alone.
    pub contents: String,
    /// The text with escape sequences for its colours.
    pub formatted: Vec<u8>,
}

/// A screen over character and byte sequences.
pub struct ScreenModel {
    pub application_cursor: bool,
    pub bracketed_paste: bool,
    pub alternate_screen: bool,
    pub contents: Text,
    pub formatted: Seq<u8>,
}

impl View for FgScreen {
    type V = ScreenModel;

    open spec fn view(&self) -> ScreenModel {
        ScreenModel {
            application_cursor: self.application_cursor,
            bracketed_paste: self.bracketed_paste,
            alternate_screen: self.alternate_screen,
            contents: self.contents@,
            formatted: self.formatted@,
        }
    }
}

/// The character that three bytes of UTF-8 stand for.
pub open spec fn code_of(first: u8, second: u8, third: u8) -> int {
    (first - 0xe0) * 0x1000 + (second - 0x80) * 0x40 + (third - 0x80)
}

/// Characters of which none takes more than one cell: scripts from Georgian on,
/// punctuation, arrows, technical signs, box drawing, blocks, shapes, dingbats,
/// Braille, private use, and what stands for characters that are none.
pub open spec fn slim(code: int) -> bool {
    ||| 0x1000 <= code < 0x1100
    ||| 0x1160 <= code < 0x17a4
    ||| 0x17a5 <= code < 0x17d8
    ||| 0x17d9 <= code < 0x231a
    ||| 0x232b <= code < 0x23e9
    ||| 0x2400 <= code < 0x25fd
    ||| 0x2600 <= code < 0x2614
    ||| 0x2654 <= code < 0x267f
    ||| 0x2700 <= code < 0x2705
    ||| 0x270c <= code < 0x2728
    ||| 0x2729 <= code < 0x274c
    ||| 0x2758 <= code < 0x2795
    ||| 0x2798 <= code < 0x27b0
    ||| 0x27c0 <= code < 0x2b1b
    ||| 0x2b56 <= code < 0x2e80
    ||| 0xe000 <= code < 0xf900
    ||| code == 0xfffd
}

/// Three bytes that are one of these characters.
pub open spec fn slim_bytes(first: u8, second: u8, third: u8) -> bool {
    &&& 0xe1 <= first <= 0xef && 0x80 <= second <= 0xbf && 0x80 <= third <= 0xbf
    &&& slim(code_of(first, second, third))
}

/// Bytes in which no character begins that takes more than one cell: in UTF-8
/// such characters begin with 0xE1 or more.
pub open spec fn narrow(data: Seq<u8>) -> bool {
    forall|i: int|
        0 <= i < data.len() ==> (#[trigger] data[i] < 0xe1 || i + 2 < data.len() && slim_bytes(
            data[i],
            data[i + 1],
            data[i + 2],
        ))
}

/// All bytes among the inputs.
pub open spec fn bytes_of(given: Seq<TermInputModel>) -> Seq<u8>
    decreases given.len(),
{
    if given.len() == 0 {
        Seq::empty()
    } else {
        let before = bytes_of(given.drop_last());
        match given.last() {
            TermInputModel::Size(..) => before,
            TermInputModel::Bytes(data) => before + data,
        }
    }
}

/// The size, in rows and columns, that is in force after the inputs.
pub open spec fn size_after(given: Seq<TermInputModel>) -> (u16, u16)
    decreases given.len(),
{
    if given.len() == 0 {
        (0, 0)
    } else {
        match given.last() {
            TermInputModel::Size(r, c) => (r, c),
            TermInputModel::Bytes(_) => size_after(given.drop_last()),
        }
    }
}

/// A size that an emulator can have: it wraps a line from one row to the next,
/// and tab stops stand eight columns apart.
pub open spec fn emulator_size(rows: u16, cols: u16) -> bool {
    rows >= 2 && 1 <= cols <= u16::MAX - 8
}

/// Inputs that an emulator can show: a size at first, characters of several cells
/// have three columns at least, and no size cuts off a part of one of them.
pub open spec fn showable(given: Seq<TermInputModel>) -> bool
    decreases given.len(),
{
    if given.len() == 0 {
        false
    } else if given.len() == 1 {
        given[0] matches TermInputModel::Size(r, c) && emulator_size(r, c)
    } else {
        let before = given.drop_last();
        let cols = size_after(before).1;
        &&& showable(before)
        &&& match given.last() {
            TermInputModel::Size(r, c) => emulator_size(r, c) && (c >= cols || narrow(
                bytes_of(before),
            )),
            TermInputModel::Bytes(data) => cols >= 3 || narrow(bytes_of(before) + data),
        }
    }
}

/// A terminal emulator without scrollback.
///
/// An emulator of one row fails when a line wraps, one that is narrower than a
/// character fails to print it, and one that is made narrower may keep half of
/// a character, at which it fails later: inputs that can come to this are left out
/// where an emulator is given something.
#[verifier::external_body]
pub struct Terminal {
    parser: tui_term::vt100::Parser,
}

/// What an emulator was given, from its first size on.
pub uninterp spec fn given_to(terminal: Terminal) -> Seq<TermInputModel>;

/// Whether the cursor keys are in application mode after these inputs.
pub uninterp spec fn application_cursor_after(given: Seq<TermInputModel>) -> bool;

/// Whether what is pasted is to stand in brackets.
pub uninterp spec fn bracketed_paste_after(given: Seq<TermInputModel>) -> bool;

/// Whether the alternate screen is shown.
pub uninterp spec fn alternate_screen_after(given: Seq<TermInputModel>) -> bool;

/// The text that is shown.
pub uninterp spec fn contents_after(given: Seq<TermInputModel>) -> Text;

/// The text with escape sequences for its colours.
pub uninterp spec fn formatted_after(given: Seq<TermInputModel>) -> Seq<u8>;

impl Terminal {
    /// `vt100::Parser::new`: an emulator of this size that was given nothing yet.
    #[verifier::external_body]
    pub(crate) fn open(rows: u16, cols: u16) -> (r: Terminal)
        requires
            emulator_size(rows, cols),
        ensures
            given_to(r) == seq![TermInputModel::Size(rows, cols)],
    {
        Terminal { parser: tui_term::vt100::Parser::new(rows, cols, 0) }
    }

    /// `vt100::Parser::process`: gives the emulator bytes.
    #[verifier::external_body]
    pub(crate) fn process(&mut self, data: &Vec<u8>)
        requires
            showable(given_to(*old(self)).push(TermInputModel::Bytes(data@))),
        ensures
            given_to(*final(self)) == given_to(*old(self)).push(TermInputModel::Bytes(data@)),
    {
        self.parser.process(data)
    }

    /// `vt100::Screen::set_size`: gives the emulator another size.
    #[verifier::external_body]
    pub(crate) fn set_size(&mut self, rows: u16, cols: u16)
        requires
            showable(given_to(*old(self)).push(TermInputModel::Size(rows, cols))),
        ensures
            given_to(*final(self)) == given_to(*old(self)).push(TermInputModel::Size(rows, cols)),
    {
        self.parser.screen_mut().set_size(rows, cols)
    }

    /// `vt100::Screen::application_cursor`. What a screen reports depends on what
    /// the emulator was given, and on nothing else; so with the other reports.
    #[verifier::external_body]
    pub(crate) fn application_cursor(&self) -> (r: bool)
        ensures
            r == application_cursor_after(given_to(*self)),
    {
        self.parser.screen().application_cursor()
    }

    /// `vt100::Screen::bracketed_paste`.
    #[verifier::external_body]
    pub(crate) fn bracketed_paste(&self) -> (r: bool)
        ensures
            r == bracketed_paste_after(given_to(*self)),
    {
        self.parser.screen().bracketed_paste()
    }

    /// `vt100::Screen::alternate_screen`.
    #[verifier::external_body]
    pub(crate) fn alternate_screen(&self) -> (r: bool)
        ensures
            r == alternate_screen_after(given_to(*self)),
    {
        self.parser.screen().alternate_screen()
    }

    /// `vt100::Screen::contents`.
    #[verifier::external_body]
    pub(crate) fn contents(&self) -> (r: String)
        requires
            showable(given_to(*self)),
        ensures
            r@ == contents_after(given_to(*self)),
    {
        self.parser.screen().contents()
    }

    /// `vt100::Screen::contents_formatted`.
    #[verifier::external_body]
    pub(crate) fn contents_formatted(&self) -> (r: Vec<u8>)
        requires
            showable(given_to(*self)),
        ensures
            r@ == formatted_after(given_to(*self)),
    {
        self.parser.screen().contents_formatted()
    }
}

/// What an emulator shows after these inputs.
pub open spec fn screen_after(given: Seq<TermInputModel>) -> ScreenModel {
    ScreenModel {
        application_cursor: application_cursor_after(given),
        bracketed_paste: bracketed_paste_after(given),
        alternate_screen: alternate_screen_after(given),
        contents: contents_after(given),
        formatted: formatted_after(given),
    }
}

// ── Sizes ──

pub open spec fn at_least_one(n: u16) -> u16 {
    if n >= 1 {
        n
    } else {
        1
    }
}

/// Columns and rows that a session gets of the terminal.
pub open spec fn session_size(width: u16, height: u16) -> (u16, u16) {
    (
        at_least_one(crate::tui::geometry::minus(width, 2)),
        at_least_one(crate::tui::geometry::minus(height, 3)),
    )
}

pub fn terminal_size(terminal_width: u16, terminal_height: u16) -> (r: (u16, u16))
    ensures
        r == session_size(terminal_width, terminal_height),
{
    let cols: u16 = crate::tui::geometry::saturating_minus(terminal_width, 2);
    let rows: u16 = crate::tui::geometry::saturating_minus(terminal_height, 3);
    (
        if cols >= 1 {
            cols
        } else {
            1
        },
        if rows >= 1 {
            rows
        } else {
            1
        },
    )
}

// ── Keys ──

/// The UTF-8 encoding of a character.
pub open spec fn char_bytes(c: char) -> Seq<u8> {
    vstd::utf8::encode_utf8(seq![c])
}

pub open spec fn ascii_letter(c: char) -> bool {
    ('a' <= c && c <= 'z') || ('A' <= c && c <= 'Z')
}

/// The control byte of a letter: 1 for A to 26 for Z, in either case.
pub open spec fn control_byte(c: char) -> u8 {
    if 'a' <= c && c <= 'z' {
        (c as int - 'a' as int + 1) as u8
    } else {
        (c as int - 'A' as int + 1) as u8
    }
}

pub open spec fn cursor_sequence(application: bool, last: u8) -> Seq<u8> {
    if application {
        seq![0x1bu8, 0x4fu8, last]
    } else {
        seq![0x1bu8, 0x5bu8, last]
    }
}

/// The bytes that a key sends to a session.
pub open spec fn bytes_of_key(key: KeyEvent, application: bool) -> Option<Seq<u8>> {
    match key.code {
        KeyCode::Char(c) => if key.modifiers.control {
            if ascii_letter(c) {
                Some(seq![control_byte(c)])
            } else {
                None
            }
        } else {
            Some(char_bytes(c))
        },
        KeyCode::Enter => Some(seq![0x0du8]),
        KeyCode::Tab => Some(seq![0x09u8]),
        KeyCode::Backspace => Some(seq![0x7fu8]),
        KeyCode::Esc => Some(seq![0x1bu8]),
        KeyCode::Left => Some(cursor_sequence(application, 0x44)),
        KeyCode::Right => Some(cursor_sequence(application, 0x43)),
        KeyCode::Up => Some(cursor_sequence(application, 0x41)),
        KeyCode::Down => Some(cursor_sequence(application, 0x42)),
        KeyCode::Home => Some(cursor_sequence(application, 0x48)),
        KeyCode::End => Some(cursor_sequence(application, 0x46)),
        KeyCode::Delete => Some(seq![0x1bu8, 0x5bu8, 0x33u8, 0x7eu8]),
        KeyCode::BackTab => Some(seq![0x1bu8, 0x5bu8, 0x5au8]),
        _ => None,
    }
}

fn cursor_key(application: bool, last: u8) -> (r: Vec<u8>)
    ensures
        r@ == cursor_sequence(application, last),
{
    let r: Vec<u8> = if application {
        vec![0x1bu8, 0x4fu8, last]
    } else {
        vec![0x1bu8, 0x5bu8, last]
    };
    assert(r@ =~= cursor_sequence(application, last));
    r
}

fn one_byte(b: u8) -> (r: Vec<u8>)
    ensures
        r@ == seq![b],
{
    let r: Vec<u8> = vec![b];
    assert(r@ =~= seq![b]);
    r
}

/// The UTF-8 encoding of a string.
pub fn utf8_bytes(s: &str) -> (r: Vec<u8>)
    ensures
        r@ == vstd::utf8::encode_utf8(s@),
{
    let bytes = s.as_bytes();
    let mut out: Vec<u8> = Vec::new();
    let mut i: usize = 0;
    while i < bytes.len()
        invariant
            i <= bytes@.len(),
            out@ == bytes@.take(i as int),
        decreases bytes@.len() - i,
    {
        out.push(bytes[i]);
        i = i + 1;
        assert(out@ =~= bytes@.take(i as int));
    }
    assert(bytes@.take(i as int) =~= bytes@);
    out
}

/// Encodes a key press for a foreground session.
pub fn key_bytes(key: KeyEvent, application_cursor: bool) -> (r: Option<Vec<u8>>)
    ensures
        match r {
            Some(v) => bytes_of_key(key, application_cursor) == Some(v@),
            None => bytes_of_key(key, application_cursor) is None,
        },
{
    match key.code {
        KeyCode::Char(c) => {
            if key.modifiers.control {
                if 'a' <= c && c <= 'z' {
                    Some(one_byte((c as u32 - 'a' as u32 + 1) as u8))
                } else if 'A' <= c && c <= 'Z' {
                    Some(one_byte((c as u32 - 'A' as u32 + 1) as u8))
                } else {
                    None
                }
            } else {
                let mut s: String = String::new();
                s.push(c);
                assert(s@ =~= seq![c]);
                Some(utf8_bytes(s.as_str()))
            }
        },
        KeyCode::Enter => Some(one_byte(0x0d)),
        KeyCode::Tab => Some(one_byte(0x09)),
        KeyCode::Backspace => Some(one_byte(0x7f)),
        KeyCode::Esc => Some(one_byte(0x1b)),
        KeyCode::Left => Some(cursor_key(application_cursor, 0x44)),
        KeyCode::Right => Some(cursor_key(application_cursor, 0x43)),
        KeyCode::Up => Some(cursor_key(application_cursor, 0x41)),
        KeyCode::Down => Some(cursor_key(application_cursor, 0x42)),
        KeyCode::Home => Some(cursor_key(application_cursor, 0x48)),
        KeyCode::End => Some(cursor_key(application_cursor, 0x46)),
        KeyCode::Delete => {
            let r: Vec<u8> = vec![0x1bu8, 0x5bu8, 0x33u8, 0x7eu8];
            assert(r@ =~= seq![0x1bu8, 0x5bu8, 0x33u8, 0x7eu8]);
            Some(r)
        },
        KeyCode::BackTab => {
            let r: Vec<u8> = vec![0x1bu8, 0x5bu8, 0x5au8];
            assert(r@ =~= seq![0x1bu8, 0x5bu8, 0x5au8]);
            Some(r)
        },
        _ => None,
    }
}

/// What marks the start and the end of pasted text.
pub open spec fn paste_start() -> Seq<u8> {
    seq![0x1bu8, 0x5bu8, 0x32u8, 0x30u8, 0x30u8, 0x7eu8]
}

pub open spec fn paste_end() -> Seq<u8> {
    seq![0x1bu8, 0x5bu8, 0x32u8, 0x30u8, 0x31u8, 0x7eu8]
}

/// The bytes that pasted text sends to a session.
pub open spec fn bytes_of_paste(text: Text, bracketed: bool) -> Seq<u8> {
    if bracketed {
        paste_start() + vstd::utf8::encode_utf8(text) + paste_end()
    } else {
        vstd::utf8::encode_utf8(text)
    }
}

/// Encodes pasted text for a foreground session.
pub fn paste_bytes(text: &str, bracketed: bool) -> (r: Vec<u8>)
    ensures
        r@ == bytes_of_paste(text@, bracketed),
{
    let mut body = utf8_bytes(text);
    if bracketed {
        let mut wrapped: Vec<u8> = vec![0x1bu8, 0x5bu8, 0x32u8, 0x30u8, 0x30u8, 0x7eu8];
        let mut end: Vec<u8> = vec![0x1bu8, 0x5bu8, 0x32u8, 0x30u8, 0x31u8, 0x7eu8];
        proof {
            assert(wrapped@ =~= paste_start());
            assert(end@ =~= paste_end());
        }
        wrapped.append(&mut body);
        wrapped.append(&mut end);
        wrapped
    } else {
        body
    }
}

} // verus!
