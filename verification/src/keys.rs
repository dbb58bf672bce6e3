//! A plain model of terminal key presses: what the input router and the
//! scroll manager decide on. The terminal backend translates its own key
//! events into these values.

use vstd::prelude::*;

verus! {

/// The key that was pressed.
#[derive(Debug, Clone, Copy, PartialEq, Eq, Structural)]
pub enum KeyCode {
    Char(char),
    Up,
    Down,
    PageUp,
    PageDown,
    Enter,
    Esc,
    Other,
}

/// One key press with its modifiers.
#[derive(Debug, Clone, Copy, PartialEq, Eq, Structural)]
pub struct KeyEvent {
    pub code: KeyCode,
    pub ctrl: bool,
    pub shift: bool,
}

impl KeyEvent {
    /// A key press with the given modifiers.
    pub fn new(code: KeyCode, ctrl: bool, shift: bool) -> (k: KeyEvent)
        ensures
            k == (KeyEvent { code, ctrl, shift }),
    {
        KeyEvent { code, ctrl, shift }
    }

    /// A key press with no modifiers.
    pub fn plain(code: KeyCode) -> (k: KeyEvent)
        ensures
            k == (KeyEvent { code, ctrl: false, shift: false }),
    {
        KeyEvent { code, ctrl: false, shift: false }
    }
}

} // verus!
