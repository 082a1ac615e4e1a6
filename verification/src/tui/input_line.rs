//! The command prompt: text, cursor and history.

use vstd::prelude::*;
use vstd::string::*;

use crate::mode::Mode;
use crate::runtime_env::strings_eq;
use crate::text;
use crate::text::Text;
use crate::tui::geometry::{minus, saturating_minus, Rect};
use crate::tui::keys::{
    no_modifiers, only_alt, only_control, KeyCode, KeyEvent, KeyEventKind, KeyModifiers,
};
use crate::tui::message::{opt_action, ActionModel, UserAction};

verus! {

/// Messages local to the input line.
#[derive(Debug)]
pub enum InputMsg {
    /// Set the active mode.
    SetMode(Mode),
    /// Clear the text after submission.
    Clear,
}

/// One row of the prompt line: its characters, and which of them the cursor
/// stands on.
#[derive(Debug, PartialEq, Eq)]
pub struct PromptRow {
    pub chars: Vec<char>,
    pub cursor: Option<usize>,
}

/// A row over a sequence of characters.
pub struct RowModel {
    pub chars: Text,
    pub cursor: Option<usize>,
}

impl View for PromptRow {
    type V = RowModel;

    open spec fn view(&self) -> RowModel {
        RowModel { chars: self.chars@, cursor: self.cursor }
    }
}

#[derive(Debug)]
pub struct InputLine {
    /// Current text.
    pub content: String,
    /// Byte offset of the cursor in `content`.
    pub cursor: usize,
    /// Command history (newest last).
    pub history: Vec<String>,
    history_idx: Option<usize>,
    stashed: String,
    /// Active input mode.
    pub mode: Mode,
}

/// The input line over character sequences.
pub struct InputModel {
    pub content: Text,
    /// How many characters stand before the cursor.
    pub cursor: int,
    pub history: Seq<Text>,
    /// Which entry of the history is shown, if one is.
    pub history_idx: Option<usize>,
    /// What was typed before the history was shown.
    pub stashed: Text,
    pub mode: Mode,
}

impl View for InputLine {
    type V = InputModel;

    closed spec fn view(&self) -> InputModel {
        InputModel {
            content: self.content@,
            cursor: text::char_at_byte(self.content@, self.cursor as int),
            history: text::texts(self.history@),
            history_idx: self.history_idx,
            stashed: self.stashed@,
            mode: self.mode,
        }
    }
}

/// Whether a byte offset lies between two characters.
pub open spec fn on_boundary(s: Text, off: int) -> bool {
    off == text::byte_len(s.take(text::char_at_byte(s, off)))
}

// ── Positions ──

/// The start of the line that holds position `k`.
pub open spec fn line_start(s: Text, k: int) -> int
    decreases k,
{
    if k <= 0 || k > s.len() {
        0
    } else if s[k - 1] == '\n' {
        k
    } else {
        line_start(s, k - 1)
    }
}

/// The end of the line that holds position `k`.
pub open spec fn line_end(s: Text, k: int) -> int {
    text::find_from(s, k, '\n')
}

pub open spec fn lesser(a: int, b: int) -> int {
    if a <= b {
        a
    } else {
        b
    }
}

/// The same column in the line above.
pub open spec fn above(s: Text, k: int) -> Option<int> {
    let start = line_start(s, k);
    if start == 0 {
        None
    } else {
        let from = line_start(s, start - 1);
        Some(from + lesser(k - start, start - 1 - from))
    }
}

/// The same column in the line below.
pub open spec fn below(s: Text, k: int) -> Option<int> {
    let end = line_end(s, k);
    if end >= s.len() {
        None
    } else {
        Some(end + 1 + lesser(k - line_start(s, k), line_end(s, end + 1) - (end + 1)))
    }
}

/// `k` moved back over white space, or over other characters.
pub open spec fn back_over(s: Text, k: int, white: bool) -> int
    decreases k,
{
    if 0 < k <= s.len() && text::is_white(s[k - 1]) == white {
        back_over(s, k - 1, white)
    } else {
        k
    }
}

/// `k` moved on over white space, or over other characters.
pub open spec fn on_over(s: Text, k: int, white: bool) -> int
    decreases s.len() - k,
{
    if 0 <= k < s.len() && text::is_white(s[k]) == white {
        on_over(s, k + 1, white)
    } else {
        k
    }
}

pub open spec fn word_left(s: Text, k: int) -> int {
    back_over(s, back_over(s, k, true), false)
}

pub open spec fn word_right(s: Text, k: int) -> int {
    on_over(s, on_over(s, k, true), false)
}

/// Where line `n` starts.
pub open spec fn nth_line_start(lines: Seq<Text>, n: int) -> int
    decreases n,
{
    if n <= 0 || n > lines.len() {
        0
    } else {
        nth_line_start(lines, n - 1) + lines[n - 1].len() + 1
    }
}

// ── Editing ──

impl InputModel {
    /// With this text and cursor.
    pub open spec fn edited(self, content: Text, cursor: int) -> InputModel {
        InputModel { content, cursor, ..self }
    }

    /// With text put in at the cursor.
    pub open spec fn inserted(self, text: Text) -> InputModel {
        InputModel {
            content: self.content.take(self.cursor) + text + self.content.skip(self.cursor),
            cursor: self.cursor + text.len(),
            history_idx: None,
            ..self
        }
    }

    /// With the characters from `a` to `b` replaced.
    pub open spec fn replaced(self, a: int, b: int, text: Text) -> InputModel {
        InputModel {
            content: self.content.take(a) + text + self.content.skip(b),
            cursor: a + text.len(),
            history_idx: None,
            ..self
        }
    }

    /// Without the characters from `a` to `b`, the cursor at `a`.
    pub open spec fn cut(self, a: int, b: int) -> InputModel {
        self.edited(self.content.take(a) + self.content.skip(b), a)
    }

    pub open spec fn cleared(self) -> InputModel {
        InputModel { content: Seq::empty(), cursor: 0, history_idx: None, ..self }
    }

    /// After the text was taken; what is not blank enters the history.
    pub open spec fn taken(self) -> InputModel {
        InputModel {
            history: if text::trim(self.content).len() > 0 {
                self.history.push(self.content)
            } else {
                self.history
            },
            ..self.cleared()
        }
    }

    pub open spec fn older(self) -> InputModel {
        if self.history.len() == 0 {
            self
        } else {
            match self.history_idx {
                None => {
                    let i = self.history.len() - 1;
                    InputModel {
                        stashed: self.content,
                        history_idx: Some(i as usize),
                        content: self.history[i],
                        cursor: self.history[i].len() as int,
                        ..self
                    }
                },
                Some(i) => if i == 0 {
                    self
                } else {
                    InputModel {
                        history_idx: Some((i - 1) as usize),
                        content: self.history[i - 1],
                        cursor: self.history[i - 1].len() as int,
                        ..self
                    }
                },
            }
        }
    }

    pub open spec fn newer(self) -> InputModel {
        match self.history_idx {
            None => self,
            Some(i) => if i + 1 >= self.history.len() {
                InputModel {
                    history_idx: None,
                    content: self.stashed,
                    cursor: self.stashed.len() as int,
                    ..self
                }
            } else {
                InputModel {
                    history_idx: Some((i + 1) as usize),
                    content: self.history[i + 1],
                    cursor: self.history[i + 1].len() as int,
                    ..self
                }
            },
        }
    }

    pub open spec fn at(self, cursor: int) -> InputModel {
        InputModel { cursor, ..self }
    }

    /// With the cursor where a point of the area lies.
    pub open spec fn pointed(self, area: Rect, column: u16, row: u16) -> InputModel {
        let lines = text::split(self.content, '\n');
        let wanted = minus(row, area.y) as int;
        let n = lesser(wanted, lines.len() - 1);
        let prompt = prompt_text(self.mode).len();
        let visual = minus(column, area.x) as int;
        let col = if visual >= prompt {
            visual - prompt
        } else {
            0
        };
        InputModel {
            cursor: lesser(
                nth_line_start(lines, n) + lesser(col, lines[n].len() as int),
                self.content.len() as int,
            ),
            history_idx: None,
            ..self
        }
    }

    /// The rows once the first `i` characters stand in them. Rows behind the
    /// first are indented by the width of the prompt.
    pub open spec fn drawn(self, i: int) -> Seq<RowModel>
        decreases i,
    {
        let prompt = prompt_text(self.mode);
        if i <= 0 {
            seq![RowModel { chars: prompt, cursor: None }]
        } else {
            let rows = self.drawn(i - 1);
            let row = rows.last();
            let here = self.cursor == i - 1;
            if self.content[i - 1] == '\n' {
                let row = if here {
                    row.with_cursor(' ')
                } else {
                    row
                };
                rows.drop_last().push(row).push(
                    RowModel { chars: blanks(prompt.len()), cursor: None },
                )
            } else {
                let row = if here {
                    row.with_cursor(self.content[i - 1])
                } else {
                    RowModel { chars: row.chars.push(self.content[i - 1]), ..row }
                };
                rows.drop_last().push(row)
            }
        }
    }

    /// The prompt and the text as rows, with a blank for the cursor where it
    /// stands behind the text.
    pub open spec fn drawn_rows(self) -> Seq<RowModel> {
        let rows = self.drawn(self.content.len() as int);
        if self.cursor >= self.content.len() {
            rows.drop_last().push(rows.last().with_cursor(' '))
        } else {
            rows
        }
    }

    /// The word at the cursor.
    pub open spec fn word_range(self) -> (int, int) {
        (back_over(self.content, self.cursor, false), on_over(self.content, self.cursor, false))
    }

    /// The line before the cursor.
    pub open spec fn line_prefix(self) -> Text {
        self.content.subrange(line_start(self.content, self.cursor), self.cursor)
    }

    /// The text of the word at the cursor.
    pub open spec fn word(self) -> Text {
        self.content.subrange(self.word_range().0, self.word_range().1)
    }

    /// The input line after a key, and the action that the key asks for.
    pub open spec fn after_key(self, key: KeyEvent) -> (InputModel, Option<ActionModel>) {
        let s = self.content;
        let k = self.cursor;
        let m = key.modifiers;
        if key.kind != KeyEventKind::Press {
            (self, None)
        } else {
            match key.code {
                KeyCode::BackTab => (self, Some(ActionModel::ModeSwitch)),
                KeyCode::Enter => if m.shift || m.control {
                    (self.inserted(seq!['\n']), None)
                } else if m == no_modifiers() {
                    (
                        self.taken(),
                        if s.len() > 0 {
                            Some(ActionModel::Submit(s))
                        } else {
                            None
                        },
                    )
                } else {
                    (self, None)
                },
                KeyCode::Up => match above(s, k) {
                    Some(p) => (self.at(p), None),
                    None => (self.older(), None),
                },
                KeyCode::Down => match below(s, k) {
                    Some(p) => (self.at(p), None),
                    None => (self.newer(), None),
                },
                KeyCode::Left => if m == only_alt() {
                    (self.at(word_left(s, k)), None)
                } else if m.super_key {
                    (self.at(line_start(s, k)), None)
                } else if k > 0 {
                    (self.at(k - 1), None)
                } else {
                    (self, None)
                },
                KeyCode::Right => if m == only_alt() {
                    (self.at(word_right(s, k)), None)
                } else if m.super_key {
                    (self.at(line_end(s, k)), None)
                } else if k < s.len() {
                    (self.at(k + 1), None)
                } else {
                    (self, None)
                },
                KeyCode::Home => (self.at(line_start(s, k)), None),
                KeyCode::End => (self.at(line_end(s, k)), None),
                KeyCode::Backspace => if k > 0 {
                    (self.cut(k - 1, k), None)
                } else {
                    (self, None)
                },
                KeyCode::Delete => if k < s.len() {
                    (self.cut(k, k + 1), None)
                } else {
                    (self, None)
                },
                KeyCode::Char(c) => if m == only_control() && c == 'b' {
                    (self, Some(ActionModel::ToggleSidebar))
                } else if m == only_control() && c == 'c' {
                    (self, None)
                } else if m == only_control() && c == 'a' {
                    (self.at(0), None)
                } else if m == only_control() && c == 'e' {
                    (self.at(s.len() as int), None)
                } else if m == only_control() && c == 'u' {
                    (self.cut(line_start(s, k), k), None)
                } else if m == only_control() && c == 'k' {
                    (self.cut(k, line_end(s, k)), None)
                } else if m == only_control() && c == 'w' {
                    (self.cut(word_left(s, k), k), None)
                } else {
                    (self.inserted(seq![c]), None)
                },
                _ => (self, None),
            }
        }
    }
}

pub open spec fn prompt_text(mode: Mode) -> Text {
    " ["@ + mode.indicator_text() + "] > "@
}

// ── Bounds ──

impl RowModel {
    /// With a character that the cursor stands on.
    pub open spec fn with_cursor(self, c: char) -> RowModel {
        RowModel { chars: self.chars.push(c), cursor: Some(self.chars.len() as usize) }
    }
}

/// `n` blanks.
pub open spec fn blanks(n: nat) -> Text
    decreases n,
{
    if n == 0 {
        Seq::empty()
    } else {
        blanks((n - 1) as nat).push(' ')
    }
}

pub open spec fn row_models(v: Seq<PromptRow>) -> Seq<RowModel> {
    v.map_values(|row: PromptRow| row@)
}

fn indent(n: usize) -> (r: Vec<char>)
    ensures
        r@ == blanks(n as nat),
{
    let mut r: Vec<char> = Vec::new();
    let mut i: usize = 0;
    while i < n
        invariant
            i <= n,
            r@ == blanks(i as nat),
        decreases n - i,
    {
        r.push(' ');
        i = i + 1;
    }
    r
}

proof fn lemma_line_start(s: Text, k: int)
    requires
        0 <= k <= s.len(),
    ensures
        0 <= line_start(s, k) <= k,
    decreases k,
{
    if k > 0 && s[k - 1] != '\n' {
        lemma_line_start(s, k - 1);
    }
}

proof fn lemma_back_over(s: Text, k: int, white: bool)
    requires
        0 <= k <= s.len(),
    ensures
        0 <= back_over(s, k, white) <= k,
    decreases k,
{
    if 0 < k && text::is_white(s[k - 1]) == white {
        lemma_back_over(s, k - 1, white);
    }
}

proof fn lemma_on_over(s: Text, k: int, white: bool)
    requires
        0 <= k <= s.len(),
    ensures
        k <= on_over(s, k, white) <= s.len(),
    decreases s.len() - k,
{
    if k < s.len() && text::is_white(s[k]) == white {
        lemma_on_over(s, k + 1, white);
    }
}

fn find_line_start(v: &Vec<char>, k: usize) -> (r: usize)
    requires
        k <= v@.len(),
    ensures
        r == line_start(v@, k as int),
        r <= k,
{
    let mut i: usize = k;
    while i > 0 && v[i - 1] != '\n'
        invariant
            i <= k <= v@.len(),
            line_start(v@, k as int) == line_start(v@, i as int),
        decreases i,
    {
        i = i - 1;
    }
    i
}

fn go_back_over(v: &Vec<char>, k: usize, white: bool) -> (r: usize)
    requires
        k <= v@.len(),
    ensures
        r == back_over(v@, k as int, white),
        r <= k,
{
    let mut i: usize = k;
    while i > 0 && text::is_whitespace(v[i - 1]) == white
        invariant
            i <= k <= v@.len(),
            back_over(v@, k as int, white) == back_over(v@, i as int, white),
        decreases i,
    {
        i = i - 1;
    }
    i
}

fn go_on_over(v: &Vec<char>, k: usize, white: bool) -> (r: usize)
    requires
        k <= v@.len(),
    ensures
        r == on_over(v@, k as int, white),
        k <= r <= v@.len(),
{
    let mut i: usize = k;
    while i < v.len() && text::is_whitespace(v[i]) == white
        invariant
            k <= i <= v@.len(),
            on_over(v@, k as int, white) == on_over(v@, i as int, white),
        decreases v@.len() - i,
    {
        i = i + 1;
    }
    i
}

proof fn lemma_split_lines(s: Text, n: int)
    requires
        0 <= n < text::split(s, '\n').len(),
    ensures
        0 <= nth_line_start(text::split(s, '\n'), n),
        nth_line_start(text::split(s, '\n'), n) + text::split(s, '\n')[n].len() <= s.len(),
    decreases s.len(), n,
{
    let lines = text::split(s, '\n');
    let e = text::find_from(s, 0, '\n');
    text::lemma_find_from(s, 0, '\n');
    if e < s.len() {
        let rest = s.skip(e + 1);
        let more = text::split(rest, '\n');
        assert(lines =~= seq![s.take(e)] + more);
        if n > 0 {
            lemma_split_lines(rest, n - 1);
            lemma_line_start_shift(lines, more, s.take(e), n);
        }
    }
}

proof fn lemma_line_start_shift(lines: Seq<Text>, more: Seq<Text>, first: Text, n: int)
    requires
        lines == seq![first] + more,
        1 <= n <= lines.len(),
    ensures
        nth_line_start(lines, n) == first.len() + 1 + nth_line_start(more, n - 1),
    decreases n,
{
    if n > 1 {
        lemma_line_start_shift(lines, more, first, n - 1);
        assert(lines[n - 1] == more[n - 2]);
    } else {
        assert(lines[0] == first);
        assert(nth_line_start(lines, 0) == 0);
        assert(nth_line_start(more, 0) == 0);
    }
}

proof fn lemma_split_not_empty(s: Text)
    ensures
        text::split(s, '\n').len() >= 1,
{
    text::lemma_find_from(s, 0, '\n');
}

impl InputLine {
    /// The cursor lies between two characters, and what is shown of the history
    /// is in it.
    pub closed spec fn wf(&self) -> bool {
        &&& on_boundary(self.content@, self.cursor as int)
        &&& match self.history_idx {
            Some(i) => i < self.history@.len(),
            None => true,
        }
    }

    /// The cursor is in the text.
    pub proof fn lemma_wf(&self)
        requires
            self.wf(),
        ensures
            0 <= self@.cursor <= self@.content.len(),
            self@.history_idx matches Some(i) ==> i < self@.history.len(),
    {
        text::lemma_char_at_byte_bounds(self.content@, self.cursor as int);
    }

    pub fn new() -> (r: InputLine)
        ensures
            r.wf(),
            r@ == (InputModel {
                content: Seq::empty(),
                cursor: 0,
                history: Seq::empty(),
                history_idx: None,
                stashed: Seq::empty(),
                mode: Mode::Job,
            }),
    {
        let r = InputLine {
            content: String::new(),
            cursor: 0,
            history: Vec::new(),
            history_idx: None,
            stashed: String::new(),
            mode: Mode::Job,
        };
        proof {
            assert(r.content@ =~= Seq::<char>::empty());
            assert(r.stashed@ =~= Seq::<char>::empty());
            assert(text::texts(r.history@) =~= Seq::<Text>::empty());
            assert(r.content@.take(0) =~= Seq::<char>::empty());
        }
        r
    }

    /// The characters and the cursor among them.
    fn parts(&self) -> (r: (Vec<char>, usize))
        requires
            self.wf(),
        ensures
            r.0@ == self@.content,
            r.1 == self@.cursor,
            r.1 <= r.0@.len(),
    {
        let v = text::chars_of(self.content.as_str());
        let k = text::char_index_at_byte(&v, self.cursor);
        (v, k)
    }

    /// Puts the cursor behind `k` characters.
    fn put_cursor(&mut self, v: &Vec<char>, k: usize)
        requires
            old(self).wf(),
            v@ == old(self)@.content,
            k <= v@.len(),
        ensures
            final(self).wf(),
            final(self)@ == old(self)@.at(k as int),
    {
        let before = text::string_of(v, 0, k);
        proof {
            assert(before@ =~= v@.take(k as int));
            text::lemma_char_at_byte_of_prefix(v@, k as int);
        }
        self.cursor = text::str_byte_len(before.as_str());
    }

    /// Sets text and cursor.
    fn put(&mut self, v: &Vec<char>, k: usize)
        requires
            old(self).wf(),
            k <= v@.len(),
        ensures
            final(self).wf(),
            final(self)@ == old(self)@.edited(v@, k as int),
    {
        let before = text::string_of(v, 0, k);
        proof {
            assert(before@ =~= v@.take(k as int));
            text::lemma_char_at_byte_of_prefix(v@, k as int);
        }
        self.content = text::all_string(v);
        self.cursor = text::str_byte_len(before.as_str());
    }

    /// Takes the text for submission; what is not blank enters the history.
    pub fn take_input(&mut self) -> (r: String)
        requires
            old(self).wf(),
        ensures
            final(self).wf(),
            r@ == old(self)@.content,
            final(self)@ == old(self)@.taken(),
    {
        let mut input: String = String::new();
        let ghost empty = input@;
        std::mem::swap(&mut input, &mut self.content);
        self.cursor = 0;
        self.history_idx = None;
        proof {
            assert(empty =~= Seq::<char>::empty());
            assert(self.content@ =~= Seq::<char>::empty());
            assert(self.content@.take(0) =~= Seq::<char>::empty());
        }
        let trimmed = text::str_trim(input.as_str());
        if trimmed.len() > 0 {
            let entry = input.clone();
            proof {
                assert(text::texts(self.history@.push(entry)) =~= text::texts(self.history@).push(entry@));
            }
            self.history.push(entry);
        }
        input
    }

    fn show(&mut self, text: &str)
        requires
            match old(self).history_idx {
                Some(i) => i < old(self).history@.len(),
                None => true,
            },
        ensures
            final(self).wf(),
            final(self)@ == old(self)@.edited(text@, text@.len() as int),
    {
        let v = text::chars_of(text);
        self.content = text.to_owned();
        proof {
            assert(text@.take(text@.len() as int) =~= text@);
            text::lemma_char_at_byte_of_prefix(text@, text@.len() as int);
        }
        self.cursor = text::str_byte_len(text);
    }

    fn history_up(&mut self)
        requires
            old(self).wf(),
        ensures
            final(self).wf(),
            final(self)@ == old(self)@.older(),
    {
        if self.history.len() == 0 {
            return;
        }
        let index: usize = match self.history_idx {
            None => {
                self.stashed = self.content.clone();
                self.history.len() - 1
            },
            Some(i) => {
                if i == 0 {
                    return;
                }
                i - 1
            },
        };
        self.history_idx = Some(index);
        let entry = self.history[index].clone();
        assert(text::texts(self.history@)[index as int] == entry@);
        self.show(entry.as_str());
    }

    fn history_down(&mut self)
        requires
            old(self).wf(),
        ensures
            final(self).wf(),
            final(self)@ == old(self)@.newer(),
    {
        let index: usize = match self.history_idx {
            None => {
                return;
            },
            Some(i) => i,
        };
        assert(index < self.history.len());
        if index + 1 >= self.history.len() {
            self.history_idx = None;
            let entry = self.stashed.clone();
            self.show(entry.as_str());
        } else {
            self.history_idx = Some(index + 1);
            let entry = self.history[index + 1].clone();
            assert(text::texts(self.history@)[index + 1] == entry@);
            self.show(entry.as_str());
        }
    }

    /// The rows that the input wants: one for each line, six at most.
    pub fn desired_height(&self) -> (r: u16)
        ensures
            r == desired_rows(self@.content),
    {
        let lines = text::chars_split(&text::chars_of(self.content.as_str()), '\n');
        proof {
            lemma_split_not_empty(self.content@);
            assert(text::texts(lines@).len() == lines@.len());
        }
        if lines.len() < 6 {
            lines.len() as u16
        } else {
            6
        }
    }

    pub fn insert_text(&mut self, text: &str)
        requires
            old(self).wf(),
        ensures
            final(self).wf(),
            final(self)@ == old(self)@.inserted(text@),
    {
        let (v, k) = self.parts();
        self.splice(&v, k, k, text);
    }

    /// Replaces the characters from `a` to `b`.
    fn splice(&mut self, v: &Vec<char>, a: usize, b: usize, text: &str)
        requires
            old(self).wf(),
            v@ == old(self)@.content,
            a <= b <= v@.len(),
        ensures
            final(self).wf(),
            final(self)@ == old(self)@.replaced(a as int, b as int, text@),
    {
        let mut out = text::string_of(v, 0, a);
        let tail = text::string_of(v, b, v.len());
        out.append(text);
        let ghost head = v@.take(a as int) + text@;
        proof {
            assert(out@ =~= head);
            assert(tail@ =~= v@.skip(b as int));
        }
        let at = text::str_byte_len(out.as_str());
        out.append(tail.as_str());
        proof {
            let full = head + v@.skip(b as int);
            assert(full.take(head.len() as int) =~= head);
            text::lemma_char_at_byte_of_prefix(full, head.len() as int);
        }
        self.content = out;
        self.cursor = at;
        self.history_idx = None;
    }

    pub fn replace_history(&mut self, history: Vec<String>)
        requires
            old(self).wf(),
        ensures
            final(self).wf(),
            final(self)@ == (InputModel {
                history: text::texts(history@),
                history_idx: None,
                stashed: Seq::empty(),
                ..old(self)@
            }),
    {
        self.history = history;
        self.history_idx = None;
        self.stashed = String::new();
        assert(self.stashed@ =~= Seq::<char>::empty());
    }

    /// Whether the history is this one.
    pub fn history_is(&self, history: &Vec<String>) -> (r: bool)
        ensures
            r == (self@.history == text::texts(history@)),
    {
        strings_eq(&self.history, history)
    }

    /// The bytes of the word at the cursor.
    pub fn current_word_range(&self) -> (r: std::ops::Range<usize>)
        requires
            self.wf(),
        ensures
            r.start == text::byte_len(self@.content.take(self@.word_range().0)),
            r.end == text::byte_len(self@.content.take(self@.word_range().1)),
    {
        let (v, k) = self.parts();
        let a = go_back_over(&v, k, false);
        let b = go_on_over(&v, k, false);
        let head = text::string_of(&v, 0, a);
        let upto = text::string_of(&v, 0, b);
        proof {
            assert(head@ =~= v@.take(a as int));
            assert(upto@ =~= v@.take(b as int));
        }
        text::str_byte_len(head.as_str())..text::str_byte_len(upto.as_str())
    }

    /// Replaces a range of bytes and puts the cursor behind it.
    pub fn replace_range(&mut self, range: std::ops::Range<usize>, text: &str)
        requires
            old(self).wf(),
            range.start <= range.end,
            on_boundary(old(self)@.content, range.start as int),
            on_boundary(old(self)@.content, range.end as int),
        ensures
            final(self).wf(),
            final(self)@ == old(self)@.replaced(
                text::char_at_byte(old(self)@.content, range.start as int),
                text::char_at_byte(old(self)@.content, range.end as int),
                text@,
            ),
    {
        let v = text::chars_of(self.content.as_str());
        let a = text::char_index_at_byte(&v, range.start);
        let b = text::char_index_at_byte(&v, range.end);
        proof {
            text::lemma_char_at_byte_monotone(v@, range.start as int, range.end as int);
        }
        self.splice(&v, a, b, text);
    }

    /// Replaces the word at the cursor and puts the cursor behind it.
    pub fn replace_word(&mut self, text: &str)
        requires
            old(self).wf(),
        ensures
            final(self).wf(),
            final(self)@ == old(self)@.replaced(
                old(self)@.word_range().0,
                old(self)@.word_range().1,
                text@,
            ),
    {
        let (v, k) = self.parts();
        let a = go_back_over(&v, k, false);
        let b = go_on_over(&v, k, false);
        self.splice(&v, a, b, text);
    }

    /// The line before the cursor, and the word at it.
    pub fn completion_parts(&self) -> (r: (String, String))
        requires
            self.wf(),
        ensures
            r.0@ == self@.line_prefix(),
            r.1@ == self@.word(),
    {
        let (v, k) = self.parts();
        let from = find_line_start(&v, k);
        let a = go_back_over(&v, k, false);
        let b = go_on_over(&v, k, false);
        (text::string_of(&v, from, k), text::string_of(&v, a, b))
    }

    /// Cuts the characters from `a` to `b`.
    fn cut(&mut self, v: &Vec<char>, a: usize, b: usize)
        requires
            old(self).wf(),
            v@ == old(self)@.content,
            a <= b <= v@.len(),
        ensures
            final(self).wf(),
            final(self)@ == old(self)@.cut(a as int, b as int),
    {
        let mut rest = text::sub_chars(v, 0, a);
        let mut tail = text::sub_chars(v, b, v.len());
        proof {
            assert(rest@ =~= v@.take(a as int));
            assert(tail@ =~= v@.skip(b as int));
        }
        rest.append(&mut tail);
        self.put(&rest, a);
    }

    /// The prompt before the text.
    pub fn prompt_text(&self) -> (r: String)
        ensures
            r@ == prompt_text(self@.mode),
    {
        text::concat3(" [", self.mode.indicator(), "] > ")
    }

    /// The prompt and the text as rows. Rows behind the first are indented by
    /// the width of the prompt.
    pub fn render_lines(&self) -> (r: Vec<PromptRow>)
        requires
            self.wf(),
        ensures
            row_models(r@) == self@.drawn_rows(),
    {
        let prompt = text::chars_of(self.prompt_text().as_str());
        let (v, k) = self.parts();
        let width: usize = prompt.len();
        let mut rows: Vec<PromptRow> = Vec::new();
        let mut row = PromptRow { chars: prompt, cursor: None };
        let mut i: usize = 0;
        assert(row_models(rows@).push(row@) =~= self@.drawn(0));
        while i < v.len()
            invariant
                i <= v@.len(),
                v@ == self@.content,
                k == self@.cursor,
                width == prompt_text(self@.mode).len(),
                row_models(rows@).push(row@) == self@.drawn(i as int),
            decreases v@.len() - i,
        {
            let ghost before = row_models(rows@).push(row@);
            assert(before.last() == row@ && before.drop_last() =~= row_models(rows@));
            if v[i] == '\n' {
                if i == k {
                    row.cursor = Some(row.chars.len());
                    row.chars.push(' ');
                }
                let ghost done = rows@;
                let ghost full = row@;
                rows.push(row);
                assert(row_models(rows@) =~= row_models(done).push(full));
                row = PromptRow { chars: indent(width), cursor: None };
            } else {
                if i == k {
                    row.cursor = Some(row.chars.len());
                }
                row.chars.push(v[i]);
            }
            i = i + 1;
            assert(row_models(rows@).push(row@) =~= self@.drawn(i as int));
        }
        let ghost before = row_models(rows@).push(row@);
        assert(before.last() == row@ && before.drop_last() =~= row_models(rows@));
        if k >= v.len() {
            row.cursor = Some(row.chars.len());
            row.chars.push(' ');
        }
        let ghost done = rows@;
        let ghost full = row@;
        rows.push(row);
        assert(row_models(rows@) =~= row_models(done).push(full));
        assert(row_models(rows@) =~= self@.drawn_rows());
        rows
    }

    pub fn set_cursor_from_point(&mut self, area: Rect, column: u16, row: u16)
        requires
            old(self).wf(),
        ensures
            final(self).wf(),
            final(self)@ == old(self)@.pointed(area, column, row),
    {
        let (v, k) = self.parts();
        let lines = text::chars_split(&v, '\n');
        let ghost all = text::split(v@, '\n');
        proof {
            lemma_split_not_empty(v@);
            assert(text::texts(lines@).len() == lines@.len());
        }
        let wanted: usize = saturating_minus(row, area.y) as usize;
        let target: usize = if wanted <= lines.len() - 1 {
            wanted
        } else {
            lines.len() - 1
        };
        let prompt: usize = self.prompt_text().as_str().unicode_len();
        let visual: usize = saturating_minus(column, area.x) as usize;
        let col: usize = if visual >= prompt {
            visual - prompt
        } else {
            0
        };
        proof {
            lemma_split_lines(v@, target as int);
        }
        let mut start: usize = 0;
        let mut i: usize = 0;
        while i < target
            invariant
                i <= target < lines@.len(),
                all == text::split(v@, '\n'),
                text::texts(lines@) == all,
                start == nth_line_start(all, i as int),
                start <= v.len(),
            decreases target - i,
        {
            proof {
                assert(all[i as int] == lines@[i as int]@);
                lemma_split_lines(v@, i + 1);
            }
            start = start + lines[i].as_str().unicode_len() + 1;
            i = i + 1;
        }
        assert(all[target as int] == lines@[target as int]@);
        let len: usize = lines[target].as_str().unicode_len();
        let at: usize = start + if col <= len {
            col
        } else {
            len
        };
        self.put_cursor(&v, at);
        self.history_idx = None;
    }

    pub fn update(&mut self, msg: InputMsg)
        requires
            old(self).wf(),
        ensures
            final(self).wf(),
            final(self)@ == match msg {
                InputMsg::SetMode(mode) => InputModel { mode, ..old(self)@ },
                InputMsg::Clear => old(self)@.cleared(),
            },
    {
        match msg {
            InputMsg::SetMode(mode) => {
                self.mode = mode;
            },
            InputMsg::Clear => {
                self.content = String::new();
                self.cursor = 0;
                self.history_idx = None;
                proof {
                    assert(self.content@ =~= Seq::<char>::empty());
                    assert(self.content@.take(0) =~= Seq::<char>::empty());
                }
            },
        }
    }

    fn handle_char(&mut self, c: char, m: KeyModifiers) -> (r: Option<UserAction>)
        requires
            old(self).wf(),
        ensures
            final(self).wf(),
            (final(self)@, opt_action(r)) == old(self)@.after_key(
                KeyEvent { code: KeyCode::Char(c), modifiers: m, kind: KeyEventKind::Press },
            ),
    {
        let (v, k) = self.parts();
        let control = m.is_control();
        if control && c == 'b' {
            Some(UserAction::ToggleSidebar)
        } else if control && c == 'c' {
            None
        } else if control && c == 'a' {
            self.put_cursor(&v, 0);
            None
        } else if control && c == 'e' {
            self.put_cursor(&v, v.len());
            None
        } else if control && c == 'u' {
            let from = find_line_start(&v, k);
            self.cut(&v, from, k);
            None
        } else if control && c == 'k' {
            let to = text::find_char(&v, k, '\n');
            self.cut(&v, k, to);
            None
        } else if control && c == 'w' {
            let from = go_back_over(&v, go_back_over(&v, k, true), false);
            self.cut(&v, from, k);
            None
        } else {
            let mut s: String = String::new();
            s.push(c);
            assert(s@ =~= seq![c]);
            self.insert_text(s.as_str());
            None
        }
    }

    pub fn handle_key(&mut self, key: KeyEvent) -> (r: Option<UserAction>)
        requires
            old(self).wf(),
        ensures
            final(self).wf(),
            (final(self)@, opt_action(r)) == old(self)@.after_key(key),
    {
        if key.kind != KeyEventKind::Press {
            return None;
        }
        let m = key.modifiers;
        let (v, k) = self.parts();
        match key.code {
            KeyCode::BackTab => Some(UserAction::ModeSwitch),
            KeyCode::Enter => {
                if m.shift || m.control {
                    proof {
                        reveal_strlit("\n");
                        assert("\n"@ =~= seq!['\n']);
                    }
                    self.insert_text("\n");
                    None
                } else if m.is_none() {
                    let input = self.take_input();
                    if input.as_str().unicode_len() > 0 {
                        Some(UserAction::Submit(input))
                    } else {
                        None
                    }
                } else {
                    None
                }
            },
            KeyCode::Up => {
                let start = find_line_start(&v, k);
                if start == 0 {
                    self.history_up();
                } else {
                    let from = find_line_start(&v, start - 1);
                    let col: usize = k - start;
                    let len: usize = start - 1 - from;
                    let to: usize = from + if col <= len {
                        col
                    } else {
                        len
                    };
                    self.put_cursor(&v, to);
                }
                None
            },
            KeyCode::Down => {
                let end = text::find_char(&v, k, '\n');
                if end >= v.len() {
                    self.history_down();
                } else {
                    let start = find_line_start(&v, k);
                    let next_end = text::find_char(&v, end + 1, '\n');
                    let col: usize = k - start;
                    let len: usize = next_end - (end + 1);
                    let to: usize = end + 1 + if col <= len {
                        col
                    } else {
                        len
                    };
                    self.put_cursor(&v, to);
                }
                None
            },
            KeyCode::Left => {
                if m.is_alt() {
                    let to = go_back_over(&v, go_back_over(&v, k, true), false);
                    self.put_cursor(&v, to);
                } else if m.super_key {
                    let to = find_line_start(&v, k);
                    self.put_cursor(&v, to);
                } else if k > 0 {
                    self.put_cursor(&v, k - 1);
                }
                None
            },
            KeyCode::Right => {
                if m.is_alt() {
                    let to = go_on_over(&v, go_on_over(&v, k, true), false);
                    self.put_cursor(&v, to);
                } else if m.super_key {
                    let to = text::find_char(&v, k, '\n');
                    self.put_cursor(&v, to);
                } else if k < v.len() {
                    self.put_cursor(&v, k + 1);
                }
                None
            },
            KeyCode::Home => {
                let to = find_line_start(&v, k);
                self.put_cursor(&v, to);
                None
            },
            KeyCode::End => {
                let to = text::find_char(&v, k, '\n');
                self.put_cursor(&v, to);
                None
            },
            KeyCode::Backspace => {
                if k > 0 {
                    self.cut(&v, k - 1, k);
                }
                None
            },
            KeyCode::Delete => {
                if k < v.len() {
                    self.cut(&v, k, k + 1);
                }
                None
            },
            KeyCode::Char(c) => self.handle_char(c, m),
            _ => None,
        }
    }
}

/// The rows that a text wants: one for each line, six at most.
pub open spec fn desired_rows(content: Text) -> u16 {
    if text::split(content, '\n').len() < 6 {
        text::split(content, '\n').len() as u16
    } else {
        6
    }
}

// ── Laws ──

/// Going back to newer entries until there is none gives back what was typed.
pub proof fn lemma_history_gives_back(m: InputModel)
    requires
        m.history.len() > 0,
        m.history.len() <= usize::MAX,
        m.history_idx is None,
    ensures
        m.older().newer().content == m.content,
        m.older().newer().history_idx is None,
{
}

/// Whatever is inserted can be cut out again.
pub proof fn lemma_insert_then_cut(m: InputModel, text: Text)
    requires
        0 <= m.cursor <= m.content.len(),
    ensures
        m.inserted(text).cut(m.cursor, m.cursor + text.len()).content == m.content,
        m.inserted(text).cut(m.cursor, m.cursor + text.len()).cursor == m.cursor,
{
    assert(m.inserted(text).cut(m.cursor, m.cursor + text.len()).content =~= m.content);
}

/// A key leaves the cursor in the text.
pub proof fn lemma_cursor_stays_in_text(m: InputModel, key: KeyEvent)
    requires
        0 <= m.cursor <= m.content.len(),
        m.history_idx matches Some(i) ==> i < m.history.len(),
        m.history.len() <= usize::MAX,
    ensures
        0 <= m.after_key(key).0.cursor <= m.after_key(key).0.content.len(),
{
    let s = m.content;
    let k = m.cursor;
    lemma_line_start(s, k);
    text::lemma_find_from(s, k, '\n');
    lemma_back_over(s, k, true);
    lemma_back_over(s, back_over(s, k, true), false);
    lemma_on_over(s, k, true);
    lemma_on_over(s, on_over(s, k, true), false);
    if line_start(s, k) > 0 {
        lemma_line_start(s, line_start(s, k) - 1);
    }
    if line_end(s, k) < s.len() {
        text::lemma_find_from(s, line_end(s, k) + 1, '\n');
    }
}

/// The text is drawn on one row more than it has line feeds.
pub proof fn lemma_a_row_for_each_line(m: InputModel, i: int)
    requires
        0 <= i <= m.content.len(),
    ensures
        m.drawn(i).len() == 1 + crate::tui::main_view::line_feeds(m.content.take(i)),
    decreases i,
{
    if i > 0 {
        lemma_a_row_for_each_line(m, i - 1);
        assert(m.content.take(i).drop_last() =~= m.content.take(i - 1));
        assert(m.content.take(i).last() == m.content[i - 1]);
        assert(m.drawn(i - 1).drop_last().len() == m.drawn(i - 1).len() - 1);
    } else {
        assert(m.content.take(i).len() == 0);
        assert(m.drawn(i).len() == 1);
    }
}

} // verus!
