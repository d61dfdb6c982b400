//! Key presses as the session engine reads them.

use vstd::prelude::*;

verus! {

/// One key press. `Other` stands for every key that the engine ignores.
#[derive(Clone, Copy, Debug, PartialEq, Eq)]
pub enum Key {
    Char(char),
    Enter,
    Esc,
    Up,
    Down,
    Left,
    Right,
    Backspace,
    Delete,
    Home,
    End,
    F(u8),
    Other,
}

} // verus!
