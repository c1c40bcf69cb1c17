//! Analog inputs: two-dimensional readings from the mouse or from gestures.

use crate::gesture::Gesture;
use vstd::prelude::*;

verus! {

/// A source of two-dimensional readings.
///
/// A reading is a whole number of units on each axis. What a unit is worth
/// (the mouse sensitivity, the step of a gesture) is the caller's to apply.
#[derive(Debug, PartialEq, Eq)]
pub enum Analog2d {
    /// Always at rest.
    NoAnalog2d,
    /// The mouse motion of the current tick, with the vertical axis pointing
    /// up.
    Mouse,
    /// One unit along each axis, in the direction whose gesture holds. The
    /// gestures are, in order: positive x, negative x, positive y,
    /// negative y. Where both gestures of an axis hold, the positive one
    /// wins.
    Gestures(Gesture, Gesture, Gesture, Gesture),
}

/// A reading on two axes.
#[derive(Clone, Copy, Debug, PartialEq, Eq)]
pub struct Vec2i {
    pub x: i64,
    pub y: i64,
}

impl View for Vec2i {
    type V = (int, int);

    open spec fn view(&self) -> (int, int) {
        (self.x as int, self.y as int)
    }
}

} // verus!
