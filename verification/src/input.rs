//! Raw per-frame button state.
use vstd::prelude::*;

verus! {

/// Which buttons are held this frame. The game detects press edges itself
/// by comparing with the previous frame.
#[derive(Debug, Clone, Copy, PartialEq, Eq, Structural)]
pub struct Buttons {
    /// D-pad left: move left (auto-repeat).
    pub left: bool,
    /// D-pad right: move right (auto-repeat).
    pub right: bool,
    /// D-pad down: soft drop (20x gravity while held).
    pub down: bool,
    /// D-pad up: hard drop (press edge only).
    pub up: bool,
    /// A: rotate clockwise (press edge only).
    pub rotate_cw: bool,
    /// B: rotate counter-clockwise (press edge only).
    pub rotate_ccw: bool,
    /// L or R: hold (press edge only).
    pub hold: bool,
    /// START: pause / resume (press edge only).
    pub start: bool,
}

impl Buttons {
    /// No button held.
    pub open spec fn released() -> Buttons {
        Buttons {
            left: false,
            right: false,
            down: false,
            up: false,
            rotate_cw: false,
            rotate_ccw: false,
            hold: false,
            start: false,
        }
    }
}

impl Default for Buttons {
    /// No button held.
    fn default() -> (r: Buttons)
        ensures
            r == Buttons::released(),
    {
        Buttons {
            left: false,
            right: false,
            down: false,
            up: false,
            rotate_cw: false,
            rotate_ccw: false,
            hold: false,
            start: false,
        }
    }
}

} // verus!
