//! The user-selected display state. It is written by an external front end
//! and only ever read here, one snapshot per tick.

use vstd::prelude::*;
use crate::color::Color;

verus! {

/// What the display should currently show.
#[derive(Copy, Clone, Debug, PartialEq, Eq, Structural)]
pub enum Mode {
    /// Backlight off, screen blank.
    Off,
    /// Date line plus jumbo clock digits.
    Clock,
}

/// One snapshot of the user-facing state, read at the start of a tick.
#[derive(Copy, Clone, Debug, PartialEq, Eq, Structural)]
pub struct UserState {
    pub mode: Mode,
    pub color: Color,
}

impl Default for UserState {
    /// The clock in black, the state shown before any user choice.
    fn default() -> (r: Self)
        ensures
            r == (UserState { mode: Mode::Clock, color: Color { red: 0, green: 0, blue: 0 } }),
    {
        UserState { mode: Mode::Clock, color: Color { red: 0, green: 0, blue: 0 } }
    }
}

} // verus!
