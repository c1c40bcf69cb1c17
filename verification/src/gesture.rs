//! Gestures: boolean expressions over keys, mouse buttons and the quit signal.

use crate::codes::{InputCodeError, MouseButton, ScanCode, NUM_MOUSE_BUTTONS, NUM_SCAN_CODES};
use vstd::prelude::*;

verus! {

/// A boolean expression over the discrete inputs, evaluated anew on each tick.
#[derive(Debug, PartialEq, Eq)]
pub enum Gesture {
    /// Never holds.
    NoGesture,
    /// Holds on every tick on which the key is down.
    KeyHold(ScanCode),
    /// Holds on the tick on which the key went down, and on no other.
    KeyTrigger(ScanCode),
    /// Holds on every tick on which the mouse button is down.
    ButtonHold(MouseButton),
    /// Holds on the tick on which the mouse button went down, and on no other.
    ButtonTrigger(MouseButton),
    /// Holds if at least one of the gestures holds.
    AnyOf(Vec<Gesture>),
    /// Holds if every one of the gestures holds.
    AllOf(Vec<Gesture>),
    /// Holds on the tick on which a quit event arrived, and on no other.
    QuitTrigger,
}

impl Gesture {
    /// `KeyHold` for the key with scan code `code`, if there is such a key.
    pub fn key_hold(code: u32) -> (r: Result<Gesture, InputCodeError>)
        ensures
            code < NUM_SCAN_CODES ==> (r matches Ok(Gesture::KeyHold(k)) && k@ == code),
            code >= NUM_SCAN_CODES ==> r == Err::<Gesture, InputCodeError>(
                InputCodeError::InvalidScanCode(code),
            ),
    {
        match ScanCode::new(code) {
            Ok(k) => Ok(Gesture::KeyHold(k)),
            Err(e) => Err(e),
        }
    }

    /// `KeyTrigger` for the key with scan code `code`, if there is such a key.
    pub fn key_trigger(code: u32) -> (r: Result<Gesture, InputCodeError>)
        ensures
            code < NUM_SCAN_CODES ==> (r matches Ok(Gesture::KeyTrigger(k)) && k@ == code),
            code >= NUM_SCAN_CODES ==> r == Err::<Gesture, InputCodeError>(
                InputCodeError::InvalidScanCode(code),
            ),
    {
        match ScanCode::new(code) {
            Ok(k) => Ok(Gesture::KeyTrigger(k)),
            Err(e) => Err(e),
        }
    }

    /// `ButtonHold` for the mouse button with code `code`, if there is such a
    /// button.
    pub fn button_hold(code: u32) -> (r: Result<Gesture, InputCodeError>)
        ensures
            code < NUM_MOUSE_BUTTONS ==> (r matches Ok(Gesture::ButtonHold(b)) && b@ == code),
            code >= NUM_MOUSE_BUTTONS ==> r == Err::<Gesture, InputCodeError>(
                InputCodeError::InvalidMouseButton(code),
            ),
    {
        match MouseButton::new(code) {
            Ok(b) => Ok(Gesture::ButtonHold(b)),
            Err(e) => Err(e),
        }
    }

    /// `ButtonTrigger` for the mouse button with code `code`, if there is such
    /// a button.
    pub fn button_trigger(code: u32) -> (r: Result<Gesture, InputCodeError>)
        ensures
            code < NUM_MOUSE_BUTTONS ==> (r matches Ok(Gesture::ButtonTrigger(b)) && b@ == code),
            code >= NUM_MOUSE_BUTTONS ==> r == Err::<Gesture, InputCodeError>(
                InputCodeError::InvalidMouseButton(code),
            ),
    {
        match MouseButton::new(code) {
            Ok(b) => Ok(Gesture::ButtonTrigger(b)),
            Err(e) => Err(e),
        }
    }
}

} // verus!
