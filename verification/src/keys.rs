//! Key presses and mouse events as plain values.
use vstd::prelude::*;

verus! {

/// A key of the keyboard.
#[derive(Clone, Copy, Debug, PartialEq, Eq, Structural)]
pub enum KeyCode {
    Backspace,
    Enter,
    Left,
    Right,
    Up,
    Down,
    Home,
    End,
    PageUp,
    PageDown,
    Tab,
    BackTab,
    Delete,
    Insert,
    F(u8),
    Char(char),
    Esc,
    Null,
}

/// The modifier keys held down with a key.
#[derive(Clone, Copy, Debug, PartialEq, Eq, Structural)]
pub struct KeyModifiers {
    pub shift: bool,
    pub control: bool,
    pub alt: bool,
    /// The Super key.
    pub logo: bool,
    /// Hyper or Meta.
    pub other: bool,
}

impl KeyModifiers {
    /// No modifier.
    #[verifier::allow_in_spec]
    pub fn none() -> KeyModifiers
        returns
            (KeyModifiers { shift: false, control: false, alt: false, logo: false, other: false }),
    {
        KeyModifiers { shift: false, control: false, alt: false, logo: false, other: false }
    }

    /// Whether no modifier is held down.
    #[verifier::allow_in_spec]
    pub fn is_empty(self) -> bool
        returns
            (!self.shift && !self.control && !self.alt && !self.logo && !self.other),
    {
        !self.shift && !self.control && !self.alt && !self.logo && !self.other
    }
}

/// Whether a key went down, is held down or went up.
#[derive(Clone, Copy, Debug, PartialEq, Eq, Structural)]
pub enum KeyEventKind {
    Press,
    Repeat,
    Release,
}

/// Something that happened to a key.
#[derive(Clone, Copy, Debug, PartialEq, Eq, Structural)]
pub struct KeyEvent {
    pub code: KeyCode,
    pub modifiers: KeyModifiers,
    pub kind: KeyEventKind,
}

impl KeyEvent {
    /// A press of a key.
    #[verifier::allow_in_spec]
    pub fn new(code: KeyCode, modifiers: KeyModifiers) -> KeyEvent
        returns
            (KeyEvent { code, modifiers, kind: KeyEventKind::Press }),
    {
        KeyEvent { code, modifiers, kind: KeyEventKind::Press }
    }
}

/// A mouse button.
#[derive(Clone, Copy, Debug, PartialEq, Eq, Structural)]
pub enum MouseButton {
    Left,
    Right,
    Middle,
}

/// What the mouse did.
#[derive(Clone, Copy, Debug, PartialEq, Eq, Structural)]
pub enum MouseEventKind {
    Down(MouseButton),
    Up(MouseButton),
    Drag(MouseButton),
    Moved,
    ScrollDown,
    ScrollUp,
    ScrollLeft,
    ScrollRight,
}

/// Something the mouse did, and the cell it did it at.
#[derive(Clone, Copy, Debug, PartialEq, Eq, Structural)]
pub struct MouseEvent {
    pub kind: MouseEventKind,
    pub column: u16,
    pub row: u16,
}

/// Something that the terminal reports.
#[derive(Debug)]
pub enum TermEvent {
    Key(KeyEvent),
    Mouse(MouseEvent),
    Paste(String),
    Resize(u16, u16),
    Focus(bool),
}

} // verus!
