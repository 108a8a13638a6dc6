//! Key presses as the overlays see them.
use vstd::prelude::*;

verus! {

/// A key of a key press.
#[derive(Debug, Clone, Copy, PartialEq, Eq, Structural)]
pub enum Key {
    Escape,
    Enter,
    Backspace,
    Tab,
    UpArrow,
    DownArrow,
    LeftArrow,
    RightArrow,
    Char(char),
    /// Any other key.
    Other,
}

/// The modifiers held with a key: exactly none, exactly Shift, exactly
/// Ctrl, or some other combination.
#[derive(Debug, Clone, Copy, PartialEq, Eq, Structural)]
pub enum Mods {
    Plain,
    Shift,
    Ctrl,
    Other,
}

/// A key press.
#[derive(Debug, Clone, Copy, PartialEq, Eq, Structural)]
pub struct KeyPress {
    pub key: Key,
    pub mods: Mods,
}

} // verus!
