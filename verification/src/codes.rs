//! Validated input codes.
//!
//! Keys and mouse buttons are identified by small non-negative integers. The
//! controller keeps one slot per code in a fixed-size table, so a code is
//! checked against the table size once, when it is created, and every later
//! lookup is in bounds by construction.

use vstd::prelude::*;

verus! {

/// Number of keyboard scan codes that the controller tracks.
pub const NUM_SCAN_CODES: usize = 512;

/// Number of mouse button codes that the controller tracks.
pub const NUM_MOUSE_BUTTONS: usize = 256;

/// A key or a mouse button, by its code: what a snapshot keeps a position
/// for.
pub enum Input {
    /// The key with the given scan code.
    Key(nat),
    /// The mouse button with the given button code.
    Button(nat),
}

impl Input {
    /// Whether the controller keeps a position for this key or button.
    pub open spec fn wf(self) -> bool {
        match self {
            Input::Key(code) => code < NUM_SCAN_CODES,
            Input::Button(code) => code < NUM_MOUSE_BUTTONS,
        }
    }
}

/// Why an input code was refused.
#[derive(Clone, Copy, Debug, PartialEq, Eq)]
pub enum InputCodeError {
    /// The scan code is not below `NUM_SCAN_CODES`.
    InvalidScanCode(u32),
    /// The mouse button code is not below `NUM_MOUSE_BUTTONS`.
    InvalidMouseButton(u32),
}

/// A keyboard scan code that is known to be below `NUM_SCAN_CODES`.
#[derive(Clone, Copy, Debug, PartialEq, Eq, Hash)]
pub struct ScanCode {
    code: u16,
}

impl View for ScanCode {
    type V = nat;

    closed spec fn view(&self) -> nat {
        self.code as nat
    }
}

impl ScanCode {
    #[verifier::type_invariant]
    spec fn in_range(self) -> bool {
        self.code < NUM_SCAN_CODES
    }

    /// Checks `code` against the table size.
    pub fn new(code: u32) -> (r: Result<ScanCode, InputCodeError>)
        ensures
            code < NUM_SCAN_CODES ==> r is Ok && r->Ok_0@ == code,
            code >= NUM_SCAN_CODES ==> r == Err::<ScanCode, InputCodeError>(
                InputCodeError::InvalidScanCode(code),
            ),
    {
        if (code as usize) < NUM_SCAN_CODES {
            Ok(ScanCode { code: code as u16 })
        } else {
            Err(InputCodeError::InvalidScanCode(code))
        }
    }

    /// The code as a table index.
    pub fn index(&self) -> (i: usize)
        ensures
            i == self@,
            i < NUM_SCAN_CODES,
    {
        proof {
            use_type_invariant(self);
        }
        self.code as usize
    }
}

/// A mouse button code that is known to be below `NUM_MOUSE_BUTTONS`.
#[derive(Clone, Copy, Debug, PartialEq, Eq, Hash)]
pub struct MouseButton {
    code: u8,
}

impl View for MouseButton {
    type V = nat;

    closed spec fn view(&self) -> nat {
        self.code as nat
    }
}

impl MouseButton {
    /// Checks `code` against the table size.
    pub fn new(code: u32) -> (r: Result<MouseButton, InputCodeError>)
        ensures
            code < NUM_MOUSE_BUTTONS ==> r is Ok && r->Ok_0@ == code,
            code >= NUM_MOUSE_BUTTONS ==> r == Err::<MouseButton, InputCodeError>(
                InputCodeError::InvalidMouseButton(code),
            ),
    {
        if (code as usize) < NUM_MOUSE_BUTTONS {
            Ok(MouseButton { code: code as u8 })
        } else {
            Err(InputCodeError::InvalidMouseButton(code))
        }
    }

    /// The code as a table index.
    pub fn index(&self) -> (i: usize)
        ensures
            i == self@,
            i < NUM_MOUSE_BUTTONS,
    {
        self.code as usize
    }
}

} // verus!
