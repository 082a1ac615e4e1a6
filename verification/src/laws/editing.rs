//! Editing: what each key does to the text and to the cursor.

use vstd::prelude::*;

use crate::text;
use crate::text::Text;
use crate::tui::input_line::{
    back_over, line_end, line_start, on_over, word_left, word_right, InputModel,
};
use crate::tui::keys::{KeyCode, KeyEvent, KeyEventKind, KeyModifiers};
use crate::tui::message::ActionModel;

verus! {

/// A key that is pressed without modifiers.
pub open spec fn pressed(code: KeyCode) -> KeyEvent {
    KeyEvent { code, modifiers: plain(), kind: KeyEventKind::Press }
}

/// A letter that is pressed with control alone.
pub open spec fn with_control(c: char) -> KeyEvent {
    KeyEvent {
        code: KeyCode::Char(c),
        modifiers: KeyModifiers { control: true, ..plain() },
        kind: KeyEventKind::Press,
    }
}

/// An arrow that is pressed with alt alone.
pub open spec fn with_alt(code: KeyCode) -> KeyEvent {
    KeyEvent {
        code,
        modifiers: KeyModifiers { alt: true, ..plain() },
        kind: KeyEventKind::Press,
    }
}

pub open spec fn plain() -> KeyModifiers {
    KeyModifiers { shift: false, control: false, alt: false, super_key: false, other: false }
}

/// The cursor stands in the text.
pub open spec fn in_text(m: InputModel) -> bool {
    0 <= m.cursor <= m.content.len()
}

/// A character is put in at the cursor, which moves behind it; taking back gives back what
/// was there, and so does deleting from the front.
pub proof fn lemma_typed_character(m: InputModel, c: char)
    requires
        in_text(m),
    ensures
        ({
            let typed = m.after_key(pressed(KeyCode::Char(c))).0;
            let k = m.cursor;
            &&& typed.content.len() == m.content.len() + 1
            &&& typed.content[k] == c
            &&& forall|i: int| 0 <= i < k ==> typed.content[i] == m.content[i]
            &&& forall|i: int| k <= i < m.content.len() ==> typed.content[i + 1] == m.content[i]
            &&& typed.cursor == k + 1
            &&& typed.history == m.history
            &&& typed.mode == m.mode
            &&& m.after_key(pressed(KeyCode::Char(c))).1 is None
            &&& typed.after_key(pressed(KeyCode::Backspace)).0.content == m.content
            &&& typed.after_key(pressed(KeyCode::Backspace)).0.cursor == k
            &&& typed.after_key(pressed(KeyCode::Left)).0.after_key(
                pressed(KeyCode::Delete),
            ).0.content == m.content
        }),
{
    let typed = m.after_key(pressed(KeyCode::Char(c))).0;
    let k = m.cursor;
    assert(typed.content == m.content.take(k) + seq![c] + m.content.skip(k));
    assert(typed.after_key(pressed(KeyCode::Backspace)).0.content =~= m.content);
    assert(typed.after_key(pressed(KeyCode::Left)).0.after_key(pressed(KeyCode::Delete)).0.content
        =~= m.content);
}

/// Left and right move the cursor by one character, as far as there is text, and undo each
/// other; they leave the text as it is.
pub proof fn lemma_arrows(m: InputModel)
    requires
        in_text(m),
    ensures
        ({
            let left = m.after_key(pressed(KeyCode::Left)).0;
            let right = m.after_key(pressed(KeyCode::Right)).0;
            &&& left == m.at(
                if m.cursor > 0 {
                    m.cursor - 1
                } else {
                    0
                },
            )
            &&& right == m.at(
                if m.cursor < m.content.len() {
                    m.cursor + 1
                } else {
                    m.cursor
                },
            )
            &&& m.cursor > 0 ==> left.after_key(pressed(KeyCode::Right)).0 == m
            &&& m.cursor < m.content.len() ==> right.after_key(pressed(KeyCode::Left)).0 == m
        }),
{
}

/// At either end of the text nothing is taken away there.
pub proof fn lemma_nothing_to_take(m: InputModel)
    requires
        in_text(m),
    ensures
        m.cursor == 0 ==> m.after_key(pressed(KeyCode::Backspace)).0 == m,
        m.cursor == m.content.len() ==> m.after_key(pressed(KeyCode::Delete)).0 == m,
{
}

proof fn lemma_line_start(s: Text, k: int)
    requires
        0 <= k <= s.len(),
    ensures
        0 <= line_start(s, k) <= k,
        line_start(s, k) > 0 ==> s[line_start(s, k) - 1] == '\n',
        forall|i: int| line_start(s, k) <= i < k ==> s[i] != '\n',
    decreases k,
{
    if k > 0 && s[k - 1] != '\n' {
        lemma_line_start(s, k - 1);
    }
}

proof fn lemma_line_end(s: Text, k: int)
    requires
        0 <= k <= s.len(),
    ensures
        k <= line_end(s, k) <= s.len(),
        line_end(s, k) < s.len() ==> s[line_end(s, k)] == '\n',
        forall|i: int| k <= i < line_end(s, k) ==> s[i] != '\n',
    decreases s.len() - k,
{
    if k < s.len() && s[k] != '\n' {
        lemma_line_end(s, k + 1);
    }
}

/// `at` is the start of the line that holds `k`.
pub open spec fn starts_line(s: Text, at: int, k: int) -> bool {
    &&& 0 <= at <= k
    &&& at == 0 || s[at - 1] == '\n'
    &&& forall|i: int| at <= i < k ==> s[i] != '\n'
}

/// `at` is the end of the line that holds `k`.
pub open spec fn ends_line(s: Text, at: int, k: int) -> bool {
    &&& k <= at <= s.len()
    &&& at == s.len() || s[at] == '\n'
    &&& forall|i: int| k <= i < at ==> s[i] != '\n'
}

/// Home and End go to the ends of the line, and control with `a` and `e` to those of the
/// text; the text stays.
pub proof fn lemma_ends_of_the_line(m: InputModel)
    requires
        in_text(m),
    ensures
        ({
            let home = m.after_key(pressed(KeyCode::Home)).0;
            let end = m.after_key(pressed(KeyCode::End)).0;
            &&& home == m.at(home.cursor) && starts_line(m.content, home.cursor, m.cursor)
            &&& end == m.at(end.cursor) && ends_line(m.content, end.cursor, m.cursor)
            &&& m.after_key(with_control('a')).0 == m.at(0)
            &&& m.after_key(with_control('e')).0 == m.at(m.content.len() as int)
        }),
{
    lemma_line_start(m.content, m.cursor);
    lemma_line_end(m.content, m.cursor);
}

/// Control with `u` takes away the line in front of the cursor, with `k` the line behind it.
pub proof fn lemma_rest_of_the_line(m: InputModel)
    requires
        in_text(m),
    ensures
        ({
            let u = m.after_key(with_control('u')).0;
            let k = m.after_key(with_control('k')).0;
            &&& starts_line(m.content, u.cursor, m.cursor)
            &&& u.content == m.content.take(u.cursor) + m.content.skip(m.cursor)
            &&& k.cursor == m.cursor
            &&& exists|at: int|
                #[trigger] ends_line(m.content, at, m.cursor) && k.content == m.content.take(
                    m.cursor,
                ) + m.content.skip(at)
        }),
{
    lemma_line_start(m.content, m.cursor);
    lemma_line_end(m.content, m.cursor);
    assert(ends_line(m.content, line_end(m.content, m.cursor), m.cursor));
}

proof fn lemma_back_over(s: Text, k: int, white: bool)
    requires
        0 <= k <= s.len(),
    ensures
        0 <= back_over(s, k, white) <= k,
        forall|i: int| back_over(s, k, white) <= i < k ==> text::is_white(#[trigger] s[i]) == white,
        back_over(s, k, white) > 0 ==> text::is_white(s[back_over(s, k, white) - 1]) != white,
    decreases k,
{
    if k > 0 && text::is_white(s[k - 1]) == white {
        lemma_back_over(s, k - 1, white);
    }
}

proof fn lemma_on_over(s: Text, k: int, white: bool)
    requires
        0 <= k <= s.len(),
    ensures
        k <= on_over(s, k, white) <= s.len(),
        forall|i: int| k <= i < on_over(s, k, white) ==> text::is_white(#[trigger] s[i]) == white,
        on_over(s, k, white) < s.len() ==> text::is_white(s[on_over(s, k, white)]) != white,
    decreases s.len() - k,
{
    if k < s.len() && text::is_white(s[k]) == white {
        lemma_on_over(s, k + 1, white);
    }
}

/// From `p` to `mid` lies a whole word, and from there to `k` white space.
pub open spec fn word_in_front(s: Text, p: int, mid: int, k: int) -> bool {
    &&& 0 <= p <= mid <= k <= s.len()
    &&& forall|i: int| p <= i < mid ==> !text::is_white(#[trigger] s[i])
    &&& forall|i: int| mid <= i < k ==> text::is_white(#[trigger] s[i])
    &&& p > 0 ==> text::is_white(s[p - 1]) && p < mid
}

/// From `k` to `mid` lies white space, and from there to `p` a whole word.
pub open spec fn word_behind(s: Text, k: int, mid: int, p: int) -> bool {
    &&& 0 <= k <= mid <= p <= s.len()
    &&& forall|i: int| k <= i < mid ==> text::is_white(#[trigger] s[i])
    &&& forall|i: int| mid <= i < p ==> !text::is_white(#[trigger] s[i])
    &&& p < s.len() ==> text::is_white(s[p]) && mid < p
}

/// Alt and left goes over white space and then over a word, and control with `w` takes away
/// just that.
pub proof fn lemma_word_in_front(m: InputModel)
    requires
        in_text(m),
    ensures
        ({
            let left = m.after_key(with_alt(KeyCode::Left)).0;
            let w = m.after_key(with_control('w')).0;
            let p = left.cursor;
            &&& left == m.at(p)
            &&& exists|mid: int| #[trigger] word_in_front(m.content, p, mid, m.cursor)
            &&& w.cursor == p
            &&& w.content == m.content.take(p) + m.content.skip(m.cursor)
        }),
{
    let s = m.content;
    let mid = back_over(s, m.cursor, true);
    lemma_back_over(s, m.cursor, true);
    lemma_back_over(s, mid, false);
    let p = word_left(s, m.cursor);
    if p > 0 && p == mid {
        assert(text::is_white(s[p - 1]));
        assert(!text::is_white(s[mid - 1]));
    }
    assert(word_in_front(s, p, mid, m.cursor));
}

/// Alt and right goes over white space and then over a word.
pub proof fn lemma_word_behind(m: InputModel)
    requires
        in_text(m),
    ensures
        ({
            let right = m.after_key(with_alt(KeyCode::Right)).0;
            let p = right.cursor;
            &&& right == m.at(p)
            &&& exists|mid: int| #[trigger] word_behind(m.content, m.cursor, mid, p)
        }),
{
    let s = m.content;
    let mid = on_over(s, m.cursor, true);
    lemma_on_over(s, m.cursor, true);
    lemma_on_over(s, mid, false);
    let p = word_right(s, m.cursor);
    if p < s.len() && p == mid {
        assert(text::is_white(s[p]));
        assert(!text::is_white(s[mid]));
    }
    assert(word_behind(s, m.cursor, mid, p));
}

/// The word at the cursor has no white space in it and reaches as far as it can.
pub proof fn lemma_word_at_the_cursor(m: InputModel)
    requires
        in_text(m),
    ensures
        ({
            let (a, b) = m.word_range();
            &&& 0 <= a <= m.cursor <= b <= m.content.len()
            &&& forall|i: int| a <= i < b ==> !text::is_white(#[trigger] m.content[i])
            &&& a > 0 ==> text::is_white(m.content[a - 1])
            &&& b < m.content.len() ==> text::is_white(m.content[b])
            &&& m.word() == m.content.subrange(a, b)
        }),
{
    lemma_back_over(m.content, m.cursor, false);
    lemma_on_over(m.content, m.cursor, false);
}

/// Enter hands on the text and leaves none; what is not blank enters the history. With shift
/// or control it breaks the line instead.
pub proof fn lemma_enter(m: InputModel)
    requires
        in_text(m),
    ensures
        ({
            let (after, action) = m.after_key(pressed(KeyCode::Enter));
            let shift = KeyEvent {
                modifiers: KeyModifiers { shift: true, ..plain() },
                ..pressed(KeyCode::Enter)
            };
            &&& m.content.len() > 0 ==> action == Some(ActionModel::Submit(m.content))
            &&& m.content.len() == 0 ==> action is None
            &&& after.content.len() == 0 && after.cursor == 0 && after.history_idx is None
            &&& after.mode == m.mode
            &&& text::trim(m.content).len() > 0 ==> after.history == m.history.push(m.content)
            &&& text::trim(m.content).len() == 0 ==> after.history == m.history
            &&& m.after_key(shift).1 is None
            &&& m.after_key(shift).0.content == m.content.take(m.cursor) + seq!['\n']
                + m.content.skip(m.cursor)
            &&& m.after_key(shift).0.cursor == m.cursor + 1
        }),
{
}

/// In the first line, up shows the entry before the one that is shown, from the newest on;
/// in the last line, down shows the one behind it, and behind the newest what was typed.
pub proof fn lemma_history_keys(m: InputModel)
    requires
        in_text(m),
        m.history.len() <= usize::MAX,
        m.history_idx matches Some(i) ==> i < m.history.len(),
    ensures
        ({
            let up = m.after_key(pressed(KeyCode::Up)).0;
            let down = m.after_key(pressed(KeyCode::Down)).0;
            let n = m.history.len() as int;
            &&& !m.content.take(m.cursor).contains('\n') ==> {
                &&& m.history_idx is None && n > 0 ==> up.content == m.history[n - 1]
                    && up.history_idx == Some((n - 1) as usize) && up.stashed == m.content
                &&& m.history_idx matches Some(i) ==> if i > 0 {
                    up.content == m.history[i - 1] && up.history_idx == Some((i - 1) as usize)
                } else {
                    up == m
                }
                &&& n == 0 ==> up == m
            }
            &&& !m.content.skip(m.cursor).contains('\n') ==> {
                &&& m.history_idx is None ==> down == m
                &&& m.history_idx matches Some(i) ==> if i + 1 < n {
                    down.content == m.history[i + 1] && down.history_idx == Some((i + 1) as usize)
                } else {
                    down.content == m.stashed && down.history_idx is None
                }
            }
        }),
{
    let s = m.content;
    lemma_line_start(s, m.cursor);
    lemma_line_end(s, m.cursor);
    if !s.take(m.cursor).contains('\n') && line_start(s, m.cursor) > 0 {
        let i = line_start(s, m.cursor) - 1;
        assert(s.take(m.cursor)[i] == '\n');
    }
    if !s.skip(m.cursor).contains('\n') && line_end(s, m.cursor) < s.len() {
        let i = line_end(s, m.cursor) - m.cursor;
        assert(s.skip(m.cursor)[i] == '\n');
    }
}

/// In any other line, up and down go to the line above and below: to the same column, or to
/// the end of a line that is shorter.
pub proof fn lemma_lines_above_and_below(m: InputModel, start: int, end: int)
    requires
        in_text(m),
        starts_line(m.content, start, m.cursor),
        ends_line(m.content, end, m.cursor),
    ensures
        start > 0 ==> ({
            let up = m.after_key(pressed(KeyCode::Up)).0;
            &&& up == m.at(up.cursor)
            &&& exists|from: int|
                {
                    &&& #[trigger] starts_line(m.content, from, start - 1)
                    &&& up.cursor == if m.cursor - start <= start - 1 - from {
                        from + (m.cursor - start)
                    } else {
                        start - 1
                    }
                }
        }),
        end < m.content.len() ==> ({
            let down = m.after_key(pressed(KeyCode::Down)).0;
            &&& down == m.at(down.cursor)
            &&& exists|to: int|
                {
                    &&& #[trigger] ends_line(m.content, to, end + 1)
                    &&& down.cursor == if m.cursor - start <= to - (end + 1) {
                        end + 1 + (m.cursor - start)
                    } else {
                        to
                    }
                }
        }),
{
    let s = m.content;
    lemma_line_start(s, m.cursor);
    lemma_line_end(s, m.cursor);
    let a = line_start(s, m.cursor);
    if a < start {
        assert(s[start - 1] == '\n');
    }
    if start < a {
        assert(s[a - 1] == '\n');
    }
    let b = line_end(s, m.cursor);
    if b < end {
        assert(s[b] == '\n');
    }
    if end < b {
        assert(s[end] == '\n');
    }
    if start > 0 {
        lemma_line_start(s, start - 1);
        assert(starts_line(s, line_start(s, start - 1), start - 1));
    }
    if end < s.len() {
        lemma_line_end(s, end + 1);
        assert(ends_line(s, line_end(s, end + 1), end + 1));
    }
}

/// Only a key that is pressed does anything, and only some keys ask for an action.
pub proof fn lemma_other_keys(m: InputModel, key: KeyEvent)
    ensures
        !(key.kind is Press) ==> m.after_key(key) == (m, None::<ActionModel>),
        key.kind is Press && key.code is BackTab ==> m.after_key(key) == (
            m,
            Some(ActionModel::ModeSwitch),
        ),
        m.after_key(with_control('b')) == (m, Some(ActionModel::ToggleSidebar)),
        m.after_key(with_control('c')) == (m, None::<ActionModel>),
{
}

} // verus!
