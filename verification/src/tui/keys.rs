//! Keys and mouse events.

use vstd::prelude::*;

verus! {

/// A key, without modifiers.
#[derive(Debug, Clone, Copy, PartialEq, Eq, Structural)]
pub enum KeyCode {
    Char(char),
    Enter,
    Tab,
    BackTab,
    Backspace,
    Delete,
    Esc,
    Left,
    Right,
    Up,
    Down,
    Home,
    End,
    PageUp,
    PageDown,
    /// A key without a meaning here.
    Other,
}

/// Modifiers held with a key.
#[derive(Debug, Clone, Copy, PartialEq, Eq, Structural)]
pub struct KeyModifiers {
    pub shift: bool,
    pub control: bool,
    pub alt: bool,
    pub super_key: bool,
    /// Hyper or meta.
    pub other: bool,
}

/// No modifier.
pub open spec fn no_modifiers() -> KeyModifiers {
    KeyModifiers { shift: false, control: false, alt: false, super_key: false, other: false }
}

/// Control alone.
pub open spec fn only_control() -> KeyModifiers {
    KeyModifiers { control: true, ..no_modifiers() }
}

/// Alt alone.
pub open spec fn only_alt() -> KeyModifiers {
    KeyModifiers { alt: true, ..no_modifiers() }
}

impl KeyModifiers {
    /// No modifier.
    pub fn none() -> (r: KeyModifiers)
        ensures
            r == no_modifiers(),
    {
        KeyModifiers { shift: false, control: false, alt: false, super_key: false, other: false }
    }

    /// Shift alone.
    pub fn shift() -> (r: KeyModifiers)
        ensures
            r == (KeyModifiers { shift: true, ..no_modifiers() }),
    {
        KeyModifiers { shift: true, control: false, alt: false, super_key: false, other: false }
    }

    /// Control alone.
    pub fn control() -> (r: KeyModifiers)
        ensures
            r == only_control(),
    {
        KeyModifiers { shift: false, control: true, alt: false, super_key: false, other: false }
    }

    /// Alt alone.
    pub fn alt() -> (r: KeyModifiers)
        ensures
            r == only_alt(),
    {
        KeyModifiers { shift: false, control: false, alt: true, super_key: false, other: false }
    }

    /// The super key alone.
    pub fn super_key() -> (r: KeyModifiers)
        ensures
            r == (KeyModifiers { super_key: true, ..no_modifiers() }),
    {
        KeyModifiers { shift: false, control: false, alt: false, super_key: true, other: false }
    }

    pub fn is_none(self) -> (r: bool)
        ensures
            r == (self == no_modifiers()),
    {
        !self.shift && !self.control && !self.alt && !self.super_key && !self.other
    }

    pub fn is_control(self) -> (r: bool)
        ensures
            r == (self == only_control()),
    {
        !self.shift && self.control && !self.alt && !self.super_key && !self.other
    }

    pub fn is_alt(self) -> (r: bool)
        ensures
            r == (self == only_alt()),
    {
        !self.shift && !self.control && self.alt && !self.super_key && !self.other
    }
}

/// What happens to a key.
#[derive(Debug, Clone, Copy, PartialEq, Eq, Structural)]
pub enum KeyEventKind {
    Press,
    Repeat,
    Release,
}

#[derive(Debug, Clone, Copy, PartialEq, Eq, Structural)]
pub struct KeyEvent {
    pub code: KeyCode,
    pub modifiers: KeyModifiers,
    pub kind: KeyEventKind,
}

impl KeyEvent {
    /// A key that is pressed.
    pub fn new(code: KeyCode, modifiers: KeyModifiers) -> (r: KeyEvent)
        ensures
            r == (KeyEvent { code, modifiers, kind: KeyEventKind::Press }),
    {
        KeyEvent { code, modifiers, kind: KeyEventKind::Press }
    }
}

/// What the mouse does.
#[derive(Debug, Clone, Copy, PartialEq, Eq, Structural)]
pub enum MouseEventKind {
    /// The left button goes down.
    LeftDown,
    ScrollUp,
    ScrollDown,
    Other,
}

#[derive(Debug, Clone, Copy, PartialEq, Eq, Structural)]
pub struct MouseEvent {
    pub kind: MouseEventKind,
    pub column: u16,
    pub row: u16,
}

/// Shift+Tab in either of its forms.
pub open spec fn mode_switch_key(key: KeyEvent) -> bool {
    key.code == KeyCode::BackTab || (key.code == KeyCode::Tab && key.modifiers.shift)
}

pub fn is_mode_switch_key(key: KeyEvent) -> (r: bool)
    ensures
        r == mode_switch_key(key),
{
    key.code == KeyCode::BackTab || (key.code == KeyCode::Tab && key.modifiers.shift)
}

} // verus!
