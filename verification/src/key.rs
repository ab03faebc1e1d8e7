//! The key notifications the editor consumes: a logical key identity, a
//! modifier set, and a press-versus-release discriminator.

use vstd::prelude::*;

verus! {

/// The logical identity of a pressed key.
#[derive(Clone, Copy, Debug, PartialEq, Eq, Hash)]
pub enum KeyCode {
    Char(char),
    Enter,
    Esc,
    Left,
    Right,
    Home,
    End,
    Backspace,
    Delete,
    /// Any key this editor does not react to.
    Other,
}

/// The modifier set held while the key was pressed.
#[derive(Clone, Copy, Debug, PartialEq, Eq, Hash)]
pub enum KeyModifiers {
    Plain,
    Shift,
    Control,
    /// Any other modifier or combination of modifiers.
    Other,
}

/// Whether the notification reports a press, a repeat, or a release.
#[derive(Clone, Copy, Debug, PartialEq, Eq, Hash)]
pub enum KeyEventKind {
    Press,
    Repeat,
    Release,
}

/// One key notification.
#[derive(Clone, Copy, Debug, PartialEq, Eq, Hash)]
pub struct KeyEvent {
    pub code: KeyCode,
    pub modifiers: KeyModifiers,
    pub kind: KeyEventKind,
}

impl KeyEvent {
    /// A press of the given key with the given modifiers.
    pub fn new(code: KeyCode, modifiers: KeyModifiers) -> (e: KeyEvent)
        ensures
            e == (KeyEvent { code, modifiers, kind: KeyEventKind::Press }),
    {
        KeyEvent { code, modifiers, kind: KeyEventKind::Press }
    }
}

} // verus!
