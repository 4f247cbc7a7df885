//! Key presses as the screens read them, and what a screen asks of the
//! application in return.

use vstd::prelude::*;
use crate::screens::Screen;

verus! {

/// The key that was pressed.
#[derive(Debug, Clone, Copy, PartialEq, Eq, Structural)]
pub enum KeyCode {
    /// A key that stands for a character.
    Char(char),
    Up,
    Down,
    Enter,
    Esc,
    /// Any other key.
    Other,
}

/// The modifier keys held down with a key.
#[derive(Debug, Clone, Copy, PartialEq, Eq, Structural)]
pub enum KeyModifiers {
    /// No modifier key.
    Plain,
    /// The control key and no other.
    Control,
    /// Any other modifier key or combination of them.
    Other,
}

/// What happened to the key.
#[derive(Debug, Clone, Copy, PartialEq, Eq, Structural)]
pub enum KeyEventKind {
    Press,
    /// A repeat or a release.
    Other,
}

/// One key event.
#[derive(Debug, Clone, Copy, PartialEq, Eq, Structural)]
pub struct KeyEvent {
    pub code: KeyCode,
    pub modifiers: KeyModifiers,
    pub kind: KeyEventKind,
}

impl KeyEvent {
    /// The key stands for the character `c` and is held with control alone.
    pub open spec fn is_control(self, c: char) -> bool {
        self.code == KeyCode::Char(c) && self.modifiers == KeyModifiers::Control
    }

    /// The press of the key `code` with no modifier.
    pub fn press(code: KeyCode) -> (key: KeyEvent)
        ensures
            key == (KeyEvent { code, modifiers: KeyModifiers::Plain, kind: KeyEventKind::Press }),
    {
        KeyEvent { code, modifiers: KeyModifiers::Plain, kind: KeyEventKind::Press }
    }

    /// The press of the key for the character `c` together with control.
    pub fn control(c: char) -> (key: KeyEvent)
        ensures
            key == (KeyEvent {
                code: KeyCode::Char(c),
                modifiers: KeyModifiers::Control,
                kind: KeyEventKind::Press,
            }),
    {
        KeyEvent { code: KeyCode::Char(c), modifiers: KeyModifiers::Control, kind: KeyEventKind::Press }
    }
}

/// What the application does after a key was handled.
#[derive(Debug, Clone, Copy, PartialEq, Eq, Structural)]
pub enum Event {
    DoNothing,
    Quit,
    /// Show the given screen.
    Switch(Screen),
}

} // verus!
