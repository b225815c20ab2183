//! Keyboard and mouse events.
use vstd::prelude::*;

verus! {

/// A key that the front ends tell apart.
#[derive(Clone, Copy, Debug, PartialEq, Eq, Structural)]
pub enum KeyCode {
    Char(char),
    Enter,
    Backspace,
    Tab,
    Escape,
    Left,
    Right,
    Up,
    Down,
    Home,
    End,
    PageUp,
    PageDown,
    Delete,
    /// A function key.
    Function(u8),
    /// Any other key.
    Other,
}

/// A key with the modifiers held when it was used.
#[derive(Clone, Copy, Debug, PartialEq, Eq, Structural)]
pub struct KeyEvent {
    pub code: KeyCode,
    pub control: bool,
    pub alt: bool,
    pub shift: bool,
    /// The key was let go rather than pressed or repeated.
    pub release: bool,
}

impl KeyEvent {
    /// A key pressed without modifiers.
    pub fn plain(code: KeyCode) -> (key: KeyEvent)
        ensures
            key == (KeyEvent { code, control: false, alt: false, shift: false, release: false }),
    {
        KeyEvent { code, control: false, alt: false, shift: false, release: false }
    }

    /// A key pressed while the control key is held.
    pub fn control(code: KeyCode) -> (key: KeyEvent)
        ensures
            key == (KeyEvent { code, control: true, alt: false, shift: false, release: false }),
    {
        KeyEvent { code, control: true, alt: false, shift: false, release: false }
    }
}

/// What a mouse event reports.
#[derive(Clone, Copy, Debug, PartialEq, Eq, Structural)]
pub enum MouseKind {
    LeftDown,
    LeftUp,
    LeftDrag,
    ScrollUp,
    ScrollDown,
    /// Any other button or movement.
    Other,
}

/// A mouse event and the cell it happened in.
#[derive(Clone, Copy, Debug, PartialEq, Eq, Structural)]
pub struct MouseEvent {
    pub kind: MouseKind,
    pub column: u16,
    pub row: u16,
}

} // verus!
