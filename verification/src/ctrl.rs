//! The controller: per-tick state, its update from raw events, and the
//! queries on it.

use crate::analog::{Analog2d, Vec2i};
use crate::codes::{Input, NUM_MOUSE_BUTTONS, NUM_SCAN_CODES};
use crate::event::{drain_len, lemma_drain_len, InputEvent};
use crate::gesture::Gesture;
use crate::state::{ButtonModel, InputState};
use vstd::prelude::*;

verus! {

type UpdateIndex = u32;

#[derive(Clone, Copy)]
enum ButtonState {
    Up(UpdateIndex),
    Down(UpdateIndex),
}

impl View for ButtonState {
    type V = ButtonModel;

    closed spec fn view(&self) -> ButtonModel {
        match self {
            ButtonState::Up(index) => ButtonModel::Up(*index as nat),
            ButtonState::Down(index) => ButtonModel::Down(*index as nat),
        }
    }
}

impl ButtonState {
    spec fn since(self) -> UpdateIndex {
        match self {
            ButtonState::Up(index) => index,
            ButtonState::Down(index) => index,
        }
    }
}

/// Turns the raw input events of each tick into a snapshot, and answers
/// gesture and analog queries on it.
pub struct GameController {
    current_update_index: UpdateIndex,
    keyboard_state: [ButtonState; NUM_SCAN_CODES],
    mouse_button_state: [ButtonState; NUM_MOUSE_BUTTONS],
    quit_requested_index: UpdateIndex,
    mouse_enabled: bool,
    mouse_rel: Vec2i,
}

impl View for GameController {
    type V = InputState;

    closed spec fn view(&self) -> InputState {
        InputState {
            tick: self.current_update_index as nat,
            positions: Map::new(
                |input: Input| input.wf(),
                |input: Input|
                    match input {
                        Input::Key(code) => self.keyboard_state@[code as int]@,
                        Input::Button(code) => self.mouse_button_state@[code as int]@,
                    },
            ),
            quit_tick: self.quit_requested_index as nat,
            mouse_enabled: self.mouse_enabled,
            mouse_delta: self.mouse_rel@,
        }
    }
}

impl GameController {
    #[verifier::type_invariant]
    spec fn inv(self) -> bool {
        &&& self.current_update_index >= 1
        &&& self.quit_requested_index <= self.current_update_index
        &&& forall|i: int|
            0 <= i < NUM_SCAN_CODES ==> (#[trigger] self.keyboard_state@[i]).since()
                <= self.current_update_index
        &&& forall|i: int|
            0 <= i < NUM_MOUSE_BUTTONS ==> (#[trigger] self.mouse_button_state@[i]).since()
                <= self.current_update_index
    }

    proof fn lemma_inv_wf(self)
        requires
            self.inv(),
        ensures
            self@.wf(),
    {
        assert forall|input: Input| input.wf() implies (#[trigger] self@.positions[input]).since()
            <= self@.tick by {
            match input {
                Input::Key(code) => {
                    assert(self.keyboard_state@[code as int].since() <= self.current_update_index);
                },
                Input::Button(code) => {
                    assert(self.mouse_button_state@[code as int].since()
                        <= self.current_update_index);
                },
            }
        }
    }

    /// A controller at its first tick: every key and button up, no quit
    /// requested, the mouse enabled and at rest.
    pub fn new() -> (controller: GameController)
        ensures
            controller@ == InputState::initial(),
            controller@.wf(),
    {
        let controller = GameController {
            current_update_index: 1,
            keyboard_state: [ButtonState::Up(0); NUM_SCAN_CODES],
            mouse_button_state: [ButtonState::Up(0); NUM_MOUSE_BUTTONS],
            quit_requested_index: 0,
            mouse_enabled: true,
            mouse_rel: Vec2i { x: 0, y: 0 },
        };
        assert(controller@.positions =~= InputState::initial().positions);
        controller
    }

    /// The current tick.
    pub fn current_tick(&self) -> (tick: u32)
        ensures
            tick == self@.tick,
            self@.wf(),
    {
        proof {
            use_type_invariant(self);
            self.lemma_inv_wf();
        }
        self.current_update_index
    }

    /// Says whether mouse motion is to be taken into account from now on.
    /// Button tracking goes on either way.
    pub fn set_mouse_enabled(&mut self, enable: bool)
        ensures
            final(self)@ == (InputState { mouse_enabled: enable, ..old(self)@ }),
            final(self)@.wf(),
    {
        proof {
            use_type_invariant(&*self);
        }
        self.mouse_enabled = enable;
        proof {
            self.lemma_inv_wf();
        }
    }

    fn apply_event(&mut self, event: InputEvent)
        ensures
            final(self)@ == old(self)@.apply(event),
    {
        proof {
            use_type_invariant(&*self);
        }
        match event {
            InputEvent::Quit => {
                self.quit_requested_index = self.current_update_index;
            },
            InputEvent::KeyDown(code) => {
                self.keyboard_state[code.index()] = ButtonState::Down(self.current_update_index);
                assert(self@.positions =~= old(self)@.positions.insert(
                    Input::Key(code@),
                    ButtonModel::Down(old(self)@.tick),
                ));
            },
            InputEvent::KeyUp(code) => {
                self.keyboard_state[code.index()] = ButtonState::Up(self.current_update_index);
                assert(self@.positions =~= old(self)@.positions.insert(
                    Input::Key(code@),
                    ButtonModel::Up(old(self)@.tick),
                ));
            },
            InputEvent::MouseButtonDown(button) => {
                self.mouse_button_state[button.index()] = ButtonState::Down(
                    self.current_update_index,
                );
                assert(self@.positions =~= old(self)@.positions.insert(
                    Input::Button(button@),
                    ButtonModel::Down(old(self)@.tick),
                ));
            },
            InputEvent::MouseButtonUp(button) => {
                self.mouse_button_state[button.index()] = ButtonState::Up(
                    self.current_update_index,
                );
                assert(self@.positions =~= old(self)@.positions.insert(
                    Input::Button(button@),
                    ButtonModel::Up(old(self)@.tick),
                ));
            },
            InputEvent::MouseMotion { xrel, yrel } => {
                if self.mouse_enabled {
                    self.mouse_rel = Vec2i { x: xrel as i64, y: -(yrel as i64) };
                } else {
                    self.mouse_rel = Vec2i { x: 0, y: 0 };
                }
            },
            InputEvent::Unrecognized => {},
            InputEvent::NoMoreEvents => {},
        }
    }

    /// Moves on to the next tick and takes in its events: those that
    /// `events` holds in front of its first `NoMoreEvents` marker, in order.
    pub fn update(&mut self, events: &[InputEvent])
        requires
            old(self)@.tick < u32::MAX,
        ensures
            final(self)@ == old(self)@.update(events@),
            final(self)@.wf(),
    {
        proof {
            use_type_invariant(&*self);
        }
        self.current_update_index = self.current_update_index + 1;
        self.mouse_rel = Vec2i { x: 0, y: 0 };
        assert(self@ == old(self)@.begin_tick());
        let ghost start = self@;
        let mut i: usize = 0;
        proof {
            lemma_drain_len(events@);
            assert(events@.take(0) =~= Seq::<InputEvent>::empty());
        }
        while i < events.len()
            invariant
                i <= drain_len(events@) <= events.len(),
                self@ == start.apply_all(events@.take(i as int)),
            ensures
                i == drain_len(events@),
            decreases events.len() - i,
        {
            proof {
                lemma_drain_len(events@);
            }
            let event = events[i];
            if let InputEvent::NoMoreEvents = event {
                break;
            }
            self.apply_event(event);
            proof {
                let next = events@.take(i + 1);
                assert(next.drop_last() =~= events@.take(i as int));
                assert(next.last() == event);
            }
            i += 1;
        }
        proof {
            use_type_invariant(&*self);
            self.lemma_inv_wf();
        }
    }

    /// Whether `gesture` holds on the current tick. Polling leaves the
    /// snapshot as it is: until the next update, the same gesture gets the
    /// same answer.
    pub fn poll_gesture(&self, gesture: &Gesture) -> (held: bool)
        ensures
            held == self@.holds(*gesture),
        decreases gesture,
    {
        proof {
            use_type_invariant(self);
        }
        match gesture {
            Gesture::QuitTrigger => self.quit_requested_index == self.current_update_index,
            Gesture::KeyHold(code) => match self.keyboard_state[code.index()] {
                ButtonState::Down(_) => true,
                _ => false,
            },
            Gesture::KeyTrigger(code) => match self.keyboard_state[code.index()] {
                ButtonState::Down(index) => self.current_update_index == index,
                _ => false,
            },
            Gesture::ButtonHold(button) => match self.mouse_button_state[button.index()] {
                ButtonState::Down(_) => true,
                _ => false,
            },
            Gesture::ButtonTrigger(button) => match self.mouse_button_state[button.index()] {
                ButtonState::Down(index) => self.current_update_index == index,
                _ => false,
            },
            Gesture::AnyOf(subs) => {
                proof {
                    self@.lemma_holds_any_of(*subs);
                }
                let mut i: usize = 0;
                while i < subs.len()
                    invariant
                        i <= subs.len(),
                        forall|j: int| 0 <= j < i ==> !self@.holds(#[trigger] subs[j]),
                        self@.holds(*gesture) <==> exists|j: int|
                            0 <= j < subs.len() && self@.holds(#[trigger] subs[j]),
                        forall|j: int|
                            0 <= j < subs.len() ==> decreases_to!(*gesture => #[trigger] subs[j]),
                    decreases subs.len() - i,
                {
                    if self.poll_gesture(&subs[i]) {
                        return true;
                    }
                    i += 1;
                }
                false
            },
            Gesture::AllOf(subs) => {
                proof {
                    self@.lemma_holds_all_of(*subs);
                }
                let mut i: usize = 0;
                while i < subs.len()
                    invariant
                        i <= subs.len(),
                        forall|j: int| 0 <= j < i ==> self@.holds(#[trigger] subs[j]),
                        self@.holds(*gesture) <==> forall|j: int|
                            0 <= j < subs.len() ==> self@.holds(#[trigger] subs[j]),
                        forall|j: int|
                            0 <= j < subs.len() ==> decreases_to!(*gesture => #[trigger] subs[j]),
                    decreases subs.len() - i,
                {
                    if !self.poll_gesture(&subs[i]) {
                        return false;
                    }
                    i += 1;
                }
                true
            },
            Gesture::NoGesture => false,
        }
    }

    fn poll_axis(&self, positive: &Gesture, negative: &Gesture) -> (units: i64)
        ensures
            units == self@.axis(*positive, *negative),
    {
        if self.poll_gesture(positive) {
            1
        } else if self.poll_gesture(negative) {
            -1
        } else {
            0
        }
    }

    /// The reading of `motion` on the current tick, in units. Polling
    /// leaves the snapshot as it is: until the next update, the same input
    /// reads the same.
    pub fn poll_analog2d(&self, motion: &Analog2d) -> (reading: Vec2i)
        ensures
            reading@ == self@.reading(*motion),
    {
        match motion {
            Analog2d::Mouse => self.mouse_rel,
            Analog2d::Gestures(xpos, xneg, ypos, yneg) => Vec2i {
                x: self.poll_axis(xpos, xneg),
                y: self.poll_axis(ypos, yneg),
            },
            Analog2d::NoAnalog2d => Vec2i { x: 0, y: 0 },
        }
    }
}

} // verus!
