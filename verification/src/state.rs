//! The mathematical model of the controller: what a snapshot holds, how a
//! tick's events change it, and what the queries answer on it.

use crate::analog::Analog2d;
use crate::codes::Input;
use crate::event::{drained, InputEvent};
use crate::gesture::Gesture;
use vstd::prelude::*;

verus! {

/// The position of one key or button, with the tick of its last transition.
pub enum ButtonModel {
    /// Up since the given tick.
    Up(nat),
    /// Down since the given tick.
    Down(nat),
}

impl ButtonModel {
    /// The tick on which the button came into its present position.
    pub open spec fn since(self) -> nat {
        match self {
            ButtonModel::Up(t) => t,
            ButtonModel::Down(t) => t,
        }
    }
}

/// A snapshot of the inputs.
pub struct InputState {
    /// The current tick.
    pub tick: nat,
    /// The position of each key and mouse button.
    pub positions: Map<Input, ButtonModel>,
    /// The tick of the last quit event; 0 if there was none.
    pub quit_tick: nat,
    /// Whether mouse motion is taken into account.
    pub mouse_enabled: bool,
    /// The mouse motion of the current tick, with the vertical axis
    /// pointing up.
    pub mouse_delta: (int, int),
}

impl InputState {
    /// The snapshot of a new controller: the first tick, everything up and
    /// at rest, the mouse enabled.
    pub open spec fn initial() -> InputState {
        InputState {
            tick: 1,
            positions: Map::new(|input: Input| input.wf(), |input: Input| ButtonModel::Up(0)),
            quit_tick: 0,
            mouse_enabled: true,
            mouse_delta: (0, 0),
        }
    }

    /// What holds of every snapshot that a controller can be in: every key
    /// and button has a position, and nothing has happened after the
    /// current tick, which is never the tick 0 that stands for "never".
    pub open spec fn wf(self) -> bool {
        &&& self.tick >= 1
        &&& self.quit_tick <= self.tick
        &&& forall|input: Input| #[trigger] self.positions.dom().contains(input) <==> input.wf()
        &&& forall|input: Input|
            input.wf() ==> (#[trigger] self.positions[input]).since() <= self.tick
    }

    /// The snapshot at the start of the next tick, before any event: the
    /// tick has advanced and the mouse is at rest.
    pub open spec fn begin_tick(self) -> InputState {
        InputState { tick: self.tick + 1, mouse_delta: (0, 0), ..self }
    }

    /// The snapshot with `input` in the given position.
    pub open spec fn put(self, input: Input, position: ButtonModel) -> InputState {
        InputState { positions: self.positions.insert(input, position), ..self }
    }

    /// Whether `input` is down.
    pub open spec fn is_held(self, input: Input) -> bool {
        self.positions[input] is Down
    }

    /// Whether `input` went down on the current tick.
    pub open spec fn is_triggered(self, input: Input) -> bool {
        self.positions[input] == ButtonModel::Down(self.tick)
    }

    /// Whether a quit event arrived on the current tick.
    pub open spec fn is_quit_requested(self) -> bool {
        self.quit_tick == self.tick
    }

    /// The snapshot after one event of the current tick.
    pub open spec fn apply(self, event: InputEvent) -> InputState {
        match event {
            InputEvent::Quit => InputState { quit_tick: self.tick, ..self },
            InputEvent::KeyDown(key) => self.put(Input::Key(key@), ButtonModel::Down(self.tick)),
            InputEvent::KeyUp(key) => self.put(Input::Key(key@), ButtonModel::Up(self.tick)),
            InputEvent::MouseButtonDown(button) => self.put(
                Input::Button(button@),
                ButtonModel::Down(self.tick),
            ),
            InputEvent::MouseButtonUp(button) => self.put(
                Input::Button(button@),
                ButtonModel::Up(self.tick),
            ),
            InputEvent::MouseMotion { xrel, yrel } => InputState {
                mouse_delta: if self.mouse_enabled {
                    (xrel as int, -(yrel as int))
                } else {
                    (0, 0)
                },
                ..self
            },
            InputEvent::Unrecognized => self,
            InputEvent::NoMoreEvents => self,
        }
    }

    /// The snapshot after the given events of the current tick, in order.
    pub open spec fn apply_all(self, events: Seq<InputEvent>) -> InputState
        decreases events.len(),
    {
        if events.len() == 0 {
            self
        } else {
            self.apply_all(events.drop_last()).apply(events.last())
        }
    }

    /// The snapshot one tick later, when the event source handed over
    /// `events`: the tick advances, the mouse comes to rest, and the events
    /// in front of the first `NoMoreEvents` marker are applied in order.
    pub open spec fn update(self, events: Seq<InputEvent>) -> InputState {
        self.begin_tick().apply_all(drained(events))
    }

    /// The snapshot after one update for each batch of events, in order.
    pub open spec fn run(self, batches: Seq<Seq<InputEvent>>) -> InputState
        decreases batches.len(),
    {
        if batches.len() == 0 {
            self
        } else {
            self.run(batches.drop_last()).update(batches.last())
        }
    }

    /// Whether `gesture` holds on this snapshot.
    pub open spec fn holds(self, gesture: Gesture) -> bool
        decreases gesture,
    {
        match gesture {
            Gesture::NoGesture => false,
            Gesture::KeyHold(key) => self.is_held(Input::Key(key@)),
            Gesture::KeyTrigger(key) => self.is_triggered(Input::Key(key@)),
            Gesture::ButtonHold(button) => self.is_held(Input::Button(button@)),
            Gesture::ButtonTrigger(button) => self.is_triggered(Input::Button(button@)),
            Gesture::AnyOf(subs) => exists|i: int|
                0 <= i < subs.len() && self.holds(#[trigger] subs[i]),
            Gesture::AllOf(subs) => forall|i: int|
                0 <= i < subs.len() ==> self.holds(#[trigger] subs[i]),
            Gesture::QuitTrigger => self.is_quit_requested(),
        }
    }

    /// `AnyOf` holds exactly if one of its gestures does, and each of them
    /// is a smaller gesture than the whole.
    pub proof fn lemma_holds_any_of(self, subs: Vec<Gesture>)
        ensures
            self.holds(Gesture::AnyOf(subs)) <==> exists|i: int|
                0 <= i < subs.len() && self.holds(#[trigger] subs[i]),
            forall|i: int|
                0 <= i < subs.len() ==> decreases_to!(Gesture::AnyOf(subs) => #[trigger] subs[i]),
    {
        let gesture = Gesture::AnyOf(subs);
        assert(gesture->AnyOf_0 == subs);
    }

    /// `AllOf` holds exactly if each of its gestures does, and each of them
    /// is a smaller gesture than the whole.
    pub proof fn lemma_holds_all_of(self, subs: Vec<Gesture>)
        ensures
            self.holds(Gesture::AllOf(subs)) <==> forall|i: int|
                0 <= i < subs.len() ==> self.holds(#[trigger] subs[i]),
            forall|i: int|
                0 <= i < subs.len() ==> decreases_to!(Gesture::AllOf(subs) => #[trigger] subs[i]),
    {
        let gesture = Gesture::AllOf(subs);
        assert(gesture->AllOf_0 == subs);
    }

    /// The reading on one axis: one unit up if `positive` holds, else one
    /// unit down if `negative` holds, else none.
    pub open spec fn axis(self, positive: Gesture, negative: Gesture) -> int {
        if self.holds(positive) {
            1
        } else if self.holds(negative) {
            -1
        } else {
            0
        }
    }

    /// The reading of `motion` on this snapshot.
    pub open spec fn reading(self, motion: Analog2d) -> (int, int) {
        match motion {
            Analog2d::NoAnalog2d => (0, 0),
            Analog2d::Mouse => self.mouse_delta,
            Analog2d::Gestures(xpos, xneg, ypos, yneg) => (
                self.axis(xpos, xneg),
                self.axis(ypos, yneg),
            ),
        }
    }
}

} // verus!
