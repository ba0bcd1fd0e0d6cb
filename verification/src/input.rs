//! Key and mouse-button identifiers and their per-frame transition state,
//! together with the events a window hands to the simulation.

use vstd::prelude::*;

verus! {

/// The mouse buttons the simulation distinguishes. `Unknown` stays the last
/// variant so that everything before it is a real button.
#[derive(Debug, Copy, Clone, PartialEq, Eq, Structural)]
pub enum Button {
    Left,
    Right,
    Middle,
    Unknown,
}

impl Button {
    /// How many real buttons there are: every variant before `Unknown`.
    pub fn count() -> (n: usize)
        ensures
            n == 3,
    {
        3
    }
}

/// The keys the simulation distinguishes. `Unknown` stays the last variant
/// so that everything before it is a real key.
#[derive(Debug, Copy, Clone, PartialEq, Eq, Structural)]
pub enum Key {
    Up,
    Down,
    Enter,
    Backspace,
    L,
    M,
    P,
    Unknown,
}

impl Key {
    /// How many real keys there are: every variant before `Unknown`.
    pub fn count() -> (n: usize)
        ensures
            n == 7,
    {
        7
    }
}

/// A button's transition state for the current frame.
#[derive(Debug, Default, Copy, Clone, PartialEq, Eq, Structural)]
pub struct ButtonState {
    pub just_down: bool,
    pub just_up: bool,
    pub held: bool,
}

/// A key's transition state for the current frame.
#[derive(Debug, Default, Copy, Clone, PartialEq, Eq, Structural)]
pub struct KeyState {
    pub just_down: bool,
    pub just_up: bool,
    pub held: bool,
}

/// One input event delivered by the windowing layer.
#[derive(Debug, Copy, Clone, PartialEq, Eq, Structural)]
pub enum Event {
    KeyDown { key: Key },
    KeyUp { key: Key },
    MouseMove { x: i32, y: i32, dx: i32, dy: i32 },
    MouseButtonDown { button: Button },
    MouseButtonUp { button: Button },
    MouseScroll { delta: i32 },
    Quit,
}

} // verus!
