//! Raw input events, as an event source hands them over.

use crate::codes::{Input, MouseButton, ScanCode, NUM_MOUSE_BUTTONS, NUM_SCAN_CODES};
use vstd::prelude::*;

verus! {

/// One raw event from the platform's event queue.
#[derive(Clone, Copy, Debug, PartialEq, Eq)]
pub enum InputEvent {
    /// The user asked the program to quit.
    Quit,
    /// A key went down.
    KeyDown(ScanCode),
    /// A key went up.
    KeyUp(ScanCode),
    /// A mouse button went down.
    MouseButtonDown(MouseButton),
    /// A mouse button went up.
    MouseButtonUp(MouseButton),
    /// The mouse moved by `xrel` to the right and `yrel` down the screen.
    MouseMotion { xrel: i32, yrel: i32 },
    /// An event of a kind that the controller does not track.
    Unrecognized,
    /// The queue is empty: nothing after this belongs to the current drain.
    NoMoreEvents,
}

impl InputEvent {
    /// Whether the event sets the position of `input`.
    pub open spec fn moves(self, input: Input) -> bool {
        match self {
            InputEvent::KeyDown(key) => input == Input::Key(key@),
            InputEvent::KeyUp(key) => input == Input::Key(key@),
            InputEvent::MouseButtonDown(button) => input == Input::Button(button@),
            InputEvent::MouseButtonUp(button) => input == Input::Button(button@),
            _ => false,
        }
    }

    /// Whether the event is a key or a button going down.
    pub open spec fn is_press(self) -> bool {
        self is KeyDown || self is MouseButtonDown
    }

    /// Whether the event names a key or button that the controller keeps
    /// a position for, or none at all. Every event that a program can
    /// build does.
    pub open spec fn wf(self) -> bool {
        match self {
            InputEvent::KeyDown(key) => key@ < NUM_SCAN_CODES,
            InputEvent::KeyUp(key) => key@ < NUM_SCAN_CODES,
            InputEvent::MouseButtonDown(button) => button@ < NUM_MOUSE_BUTTONS,
            InputEvent::MouseButtonUp(button) => button@ < NUM_MOUSE_BUTTONS,
            _ => true,
        }
    }
}

/// Number of events in `events` before the first `NoMoreEvents` marker, or
/// the length of `events` if it holds no marker.
pub open spec fn drain_len(events: Seq<InputEvent>) -> nat
    decreases events.len(),
{
    if events.len() == 0 || events.first() is NoMoreEvents {
        0
    } else {
        1 + drain_len(events.drop_first())
    }
}

/// The events of one drain cycle: those in front of the first
/// `NoMoreEvents` marker.
pub open spec fn drained(events: Seq<InputEvent>) -> Seq<InputEvent> {
    events.take(drain_len(events) as int)
}

/// `drain_len` is the position of the first marker.
pub proof fn lemma_drain_len(events: Seq<InputEvent>)
    ensures
        drain_len(events) <= events.len(),
        forall|j: int| 0 <= j < drain_len(events) ==> !(#[trigger] events[j] is NoMoreEvents),
        drain_len(events) < events.len() ==> events[drain_len(events) as int] is NoMoreEvents,
    decreases events.len(),
{
    if events.len() == 0 || events.first() is NoMoreEvents {
    } else {
        let rest = events.drop_first();
        lemma_drain_len(rest);
        assert forall|j: int| 0 <= j < drain_len(events) implies !(#[trigger] events[j]
            is NoMoreEvents) by {
            if j > 0 {
                assert(events[j] == rest[j - 1]);
            }
        }
        if drain_len(events) < events.len() {
            assert(events[drain_len(events) as int] == rest[drain_len(rest) as int]);
        }
    }
}

} // verus!
