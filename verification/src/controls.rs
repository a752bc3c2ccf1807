//! What a key does to the scene.

use vstd::prelude::*;
use crate::fixed::saturate;

verus! {

/// The keys that the scene knows.
#[derive(Clone, Copy, Debug, PartialEq, Eq, Structural)]
pub enum Key {
    /// Turns the model counter-clockwise.
    A,
    /// Turns the model clockwise.
    D,
    /// Any other key.
    Other,
}

/// The angle, in degrees, by which one key turns the model: one degree.
pub const DELTA_ANGLE: i32 = 65536;

/// What the program is to do after a key event.
#[derive(Clone, Copy, Debug, PartialEq, Eq, Structural)]
pub struct Turn {
    /// The angle of the model, in degrees.
    pub angle: i32,
    /// Whether the frame has to be drawn again.
    pub redraw: bool,
}

/// The angle after a key event: a key acts when it is released; `A` adds one
/// degree and `D` takes one away, saturating.
pub open spec fn turned(angle: int, key: Key, pressed: bool) -> int {
    if pressed {
        angle
    } else {
        match key {
            Key::A => saturate(angle + DELTA_ANGLE),
            Key::D => saturate(angle - DELTA_ANGLE),
            Key::Other => angle,
        }
    }
}

/// Handles one key event for a model at `angle` degrees: the frame is drawn
/// again exactly if `A` or `D` was released.
pub fn handle_keyboard_input(angle: i32, key: Key, pressed: bool) -> (r: Turn)
    ensures
        r.angle == turned(angle as int, key, pressed),
        r.redraw == (!pressed && key != Key::Other),
{
    if pressed {
        return Turn { angle, redraw: false };
    }
    match key {
        Key::A => Turn {
            angle: if angle > i32::MAX - DELTA_ANGLE {
                i32::MAX
            } else {
                angle + DELTA_ANGLE
            },
            redraw: true,
        },
        Key::D => Turn {
            angle: if angle < i32::MIN + DELTA_ANGLE {
                i32::MIN
            } else {
                angle - DELTA_ANGLE
            },
            redraw: true,
        },
        Key::Other => Turn { angle, redraw: false },
    }
}

} // verus!
