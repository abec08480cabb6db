//! Key presses as the editors and the application see them.
use vstd::prelude::*;

verus! {

/// The key that was pressed.
#[derive(Clone, Copy, Debug, PartialEq, Eq, Structural)]
pub enum KeyCode {
    Char(char),
    Backspace,
    Delete,
    Left,
    Right,
    Up,
    Down,
    Home,
    End,
    PageUp,
    PageDown,
    Tab,
    BackTab,
    Enter,
    Esc,
    Other,
}

/// A key press with the modifiers that the logic reads.
#[derive(Clone, Copy, Debug, PartialEq, Eq, Structural)]
pub struct KeyInput {
    pub code: KeyCode,
    pub shift: bool,
    pub ctrl: bool,
}

impl KeyInput {
    /// A press of `code` with no modifier held.
    pub fn plain(code: KeyCode) -> (k: KeyInput)
        ensures
            k == (KeyInput { code, shift: false, ctrl: false }),
    {
        KeyInput { code, shift: false, ctrl: false }
    }

    /// A press of `code` with the given modifiers.
    pub fn with_modifiers(code: KeyCode, shift: bool, ctrl: bool) -> (k: KeyInput)
        ensures
            k == (KeyInput { code, shift, ctrl }),
    {
        KeyInput { code, shift, ctrl }
    }
}

} // verus!
