//! Keyboard events as the handlers read them: key code, modifiers, and event kind.

use vstd::prelude::*;

verus! {

/// The key that was pressed.
#[derive(Debug, Clone, Copy, PartialEq, Eq, Structural)]
pub enum KeyCode {
    Char(char),
    Enter,
    Esc,
    Tab,
    BackTab,
    Backspace,
    Delete,
    Up,
    Down,
    Left,
    Right,
    Home,
    End,
    PageUp,
    PageDown,
    /// Any other key (function keys, insert, media keys, ...).
    Other,
}

/// Modifier keys held with the key.
#[derive(Debug, Clone, Copy, PartialEq, Eq, Structural)]
pub struct KeyModifiers {
    pub shift: bool,
    pub control: bool,
    pub alt: bool,
    pub super_key: bool,
    pub hyper: bool,
    pub meta: bool,
}

impl KeyModifiers {
    /// No modifier held.
    pub open spec fn is_none(self) -> bool {
        !self.shift && !self.control && !self.alt && !self.super_key && !self.hyper && !self.meta
    }

    /// Control alone.
    pub open spec fn is_control_only(self) -> bool {
        self.control && !self.shift && !self.alt && !self.super_key && !self.hyper && !self.meta
    }

    /// Shift alone.
    pub open spec fn is_shift_only(self) -> bool {
        self.shift && !self.control && !self.alt && !self.super_key && !self.hyper && !self.meta
    }

    pub fn none() -> (r: KeyModifiers)
        ensures
            r.is_none(),
    {
        KeyModifiers {
            shift: false,
            control: false,
            alt: false,
            super_key: false,
            hyper: false,
            meta: false,
        }
    }

    pub fn control_only() -> (r: KeyModifiers)
        ensures
            r.is_control_only(),
    {
        KeyModifiers {
            shift: false,
            control: true,
            alt: false,
            super_key: false,
            hyper: false,
            meta: false,
        }
    }

    pub fn alt_only() -> (r: KeyModifiers)
        ensures
            r.alt && !r.control && !r.shift && !r.super_key && !r.hyper && !r.meta,
    {
        KeyModifiers {
            shift: false,
            control: false,
            alt: true,
            super_key: false,
            hyper: false,
            meta: false,
        }
    }

    pub fn shift_only() -> (r: KeyModifiers)
        ensures
            r.is_shift_only(),
    {
        KeyModifiers {
            shift: true,
            control: false,
            alt: false,
            super_key: false,
            hyper: false,
            meta: false,
        }
    }

    pub fn exec_is_control_only(&self) -> (r: bool)
        ensures
            r == self.is_control_only(),
    {
        self.control && !self.shift && !self.alt && !self.super_key && !self.hyper && !self.meta
    }

    pub fn exec_is_shift_only(&self) -> (r: bool)
        ensures
            r == self.is_shift_only(),
    {
        self.shift && !self.control && !self.alt && !self.super_key && !self.hyper && !self.meta
    }
}

/// Whether the key went down, repeats, or went up.
#[derive(Debug, Clone, Copy, PartialEq, Eq, Structural)]
pub enum KeyEventKind {
    Press,
    Repeat,
    Release,
}

/// One keyboard event.
#[derive(Debug, Clone, Copy, PartialEq, Eq, Structural)]
pub struct KeyEvent {
    pub code: KeyCode,
    pub modifiers: KeyModifiers,
    pub kind: KeyEventKind,
}

impl KeyEvent {
    /// A key press.
    pub fn press(code: KeyCode, modifiers: KeyModifiers) -> (r: KeyEvent)
        ensures
            r.code == code,
            r.modifiers == modifiers,
            r.kind == KeyEventKind::Press,
    {
        KeyEvent { code, modifiers, kind: KeyEventKind::Press }
    }
}

} // verus!
