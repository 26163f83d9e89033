//! The key-input model the core reacts to. The caller translates real
//! terminal key events into this shape; the core never touches a terminal.

use vstd::prelude::*;

verus! {

/// A key the session state machine can react to.
#[derive(Clone, Copy, Debug, PartialEq, Eq, Structural)]
pub enum Key {
    /// A printable character key.
    Char(char),
    Enter,
    Esc,
    Backspace,
    Tab,
    BackTab,
    Up,
    Down,
    Left,
    Right,
    /// Any key the machine has no reaction to.
    Other,
}

/// One key press: the key, whether the control modifier was held, whether
/// no modifier at all was held, and whether the modifiers were plain
/// (none, or shift alone) — text input is accepted only when plain.
#[derive(Clone, Copy, Debug, PartialEq, Eq, Structural)]
pub struct KeyInput {
    pub code: Key,
    pub ctrl: bool,
    pub nomod: bool,
    pub plain: bool,
}

} // verus!
