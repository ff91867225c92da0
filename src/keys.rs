//! Key presses, as the interactive screens see them.

use vstd::prelude::*;

verus! {

/// One key press.
#[derive(Clone, Copy, Debug, PartialEq, Eq, Structural)]
pub enum Key {
    Up,
    Down,
    Left,
    Right,
    Tab,
    Enter,
    Esc,
    Char(char),
    /// Any key that no screen reacts to.
    Other,
}

} // verus!
