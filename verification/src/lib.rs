//! Per-tick input abstraction for an interactive loop.
//!
//! Once per tick the controller takes in the raw input events that the
//! platform has queued (key and mouse button transitions, mouse motion, a
//! quit request) and folds them into a snapshot. Until the next tick, the
//! snapshot answers two kinds of query: gestures, which are boolean
//! expressions over held and just-triggered keys and buttons, and analog
//! inputs, which read as a whole number of units on two axes.
//!
//! `state` holds the mathematical model that the contracts are stated over,
//! and `laws` what follows from it.

pub mod analog;
pub mod codes;
pub mod ctrl;
pub mod event;
pub mod gesture;
pub mod laws;
pub mod state;

pub use analog::{Analog2d, Vec2i};
pub use codes::{InputCodeError, MouseButton, ScanCode, NUM_MOUSE_BUTTONS, NUM_SCAN_CODES};
pub use ctrl::GameController;
pub use event::InputEvent;
pub use gesture::Gesture;
