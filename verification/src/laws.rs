//! Laws of the model: what an update keeps, what queries answer from one
//! tick to the next, and how gestures and analog inputs combine.

use crate::analog::Analog2d;
use crate::codes::{Input, MouseButton, ScanCode};
use crate::event::{drained, InputEvent};
use crate::gesture::Gesture;
use crate::state::{ButtonModel, InputState};
use vstd::prelude::*;

verus! {

/// Whether none of `events` moves `input`.
pub open spec fn none_moves(events: Seq<InputEvent>, input: Input) -> bool {
    forall|j: int| 0 <= j < events.len() ==> !(#[trigger] events[j]).moves(input)
}

/// Whether `events[last]` is the last of `events` that moves `input`.
pub open spec fn last_moves(events: Seq<InputEvent>, input: Input, last: int) -> bool {
    &&& 0 <= last < events.len()
    &&& events[last].moves(input)
    &&& forall|l: int| last < l < events.len() ==> !(#[trigger] events[l]).moves(input)
}

/// Whether a tick that drains `events` leaves `input` alone: no event in
/// front of the first marker moves it.
pub open spec fn leaves(events: Seq<InputEvent>, input: Input) -> bool {
    none_moves(drained(events), input)
}

/// Whether a tick that drains `events` presses `input`: of the events in
/// front of the first marker, the last one that moves `input` takes it
/// down.
pub open spec fn presses(events: Seq<InputEvent>, input: Input) -> bool {
    exists|last: int| #[trigger]
        last_moves(drained(events), input, last) && drained(events)[last].is_press()
}

/// Whether a tick that drains `events` releases `input`: of the events in
/// front of the first marker, the last one that moves `input` takes it
/// up.
pub open spec fn releases(events: Seq<InputEvent>, input: Input) -> bool {
    exists|last: int| #[trigger]
        last_moves(drained(events), input, last) && !drained(events)[last].is_press()
}

/// Whether a quit event stands in front of the first marker in `events`.
pub open spec fn requests_quit(events: Seq<InputEvent>) -> bool {
    exists|j: int| 0 <= j < drained(events).len() && (#[trigger] drained(events)[j]) is Quit
}

/// Whether a mouse motion event stands in front of the first marker in
/// `events`.
pub open spec fn moves_mouse(events: Seq<InputEvent>) -> bool {
    exists|j: int|
        0 <= j < drained(events).len() && (#[trigger] drained(events)[j]) is MouseMotion
}

/// A new controller starts from a well-formed snapshot.
pub proof fn law_initial_wf()
    ensures
        InputState::initial().wf(),
{
}

/// Events change neither the tick nor whether the mouse is enabled.
pub proof fn lemma_apply_all_frame(state: InputState, events: Seq<InputEvent>)
    ensures
        state.apply_all(events).tick == state.tick,
        state.apply_all(events).mouse_enabled == state.mouse_enabled,
    decreases events.len(),
{
    if events.len() > 0 {
        lemma_apply_all_frame(state, events.drop_last());
    }
}

/// Events that name keys and buttons with a position keep a snapshot
/// well-formed.
pub proof fn lemma_apply_all_wf(state: InputState, events: Seq<InputEvent>)
    requires
        state.wf(),
        forall|j: int| 0 <= j < events.len() ==> (#[trigger] events[j]).wf(),
    ensures
        state.apply_all(events).wf(),
    decreases events.len(),
{
    if events.len() > 0 {
        let front = events.drop_last();
        assert forall|j: int| 0 <= j < front.len() implies (#[trigger] front[j]).wf() by {
            assert(front[j] == events[j]);
        }
        lemma_apply_all_wf(state, front);
        assert(events.last().wf());
        assert(state.apply_all(front).apply(events.last()).wf());
    }
}

/// The snapshot stays well-formed from tick to tick, and each update
/// advances the tick by one.
pub proof fn law_update_keeps_wf(state: InputState, events: Seq<InputEvent>)
    requires
        state.wf(),
        forall|j: int| 0 <= j < drained(events).len() ==> (#[trigger] drained(events)[j]).wf(),
    ensures
        state.update(events).wf(),
        state.update(events).tick == state.tick + 1,
{
    lemma_apply_all_wf(state.begin_tick(), drained(events));
    lemma_apply_all_frame(state.begin_tick(), drained(events));
}

/// A key or button that no event moves keeps its position.
pub proof fn lemma_untouched(state: InputState, events: Seq<InputEvent>, input: Input)
    requires
        none_moves(events, input),
    ensures
        state.apply_all(events).positions[input] == state.positions[input],
    decreases events.len(),
{
    if events.len() > 0 {
        let front = events.drop_last();
        assert forall|j: int| 0 <= j < front.len() implies !(#[trigger] front[j]).moves(
            input,
        ) by {
            assert(front[j] == events[j]);
        }
        lemma_untouched(state, front, input);
        assert(!events.last().moves(input));
    }
}

/// The last event that moves a key or button decides its position.
pub proof fn lemma_last_moved(
    state: InputState,
    events: Seq<InputEvent>,
    input: Input,
    last: int,
)
    requires
        last_moves(events, input, last),
    ensures
        state.apply_all(events).positions[input] == if events[last].is_press() {
            ButtonModel::Down(state.tick)
        } else {
            ButtonModel::Up(state.tick)
        },
    decreases events.len(),
{
    let front = events.drop_last();
    lemma_apply_all_frame(state, front);
    if last < events.len() - 1 {
        assert(front[last] == events[last]);
        assert forall|l: int| last < l < front.len() implies !(#[trigger] front[l]).moves(
            input,
        ) by {
            assert(front[l] == events[l]);
        }
        lemma_last_moved(state, front, input, last);
        assert(!events.last().moves(input));
    }
}

/// A tick either leaves a key or button alone, or presses it, or releases
/// it, and does one of the three only.
pub proof fn lemma_leaves_presses_or_releases(events: Seq<InputEvent>, input: Input)
    ensures
        leaves(events, input) || presses(events, input) || releases(events, input),
        !(leaves(events, input) && presses(events, input)),
        !(leaves(events, input) && releases(events, input)),
        !(presses(events, input) && releases(events, input)),
{
    let d = drained(events);
    if !leaves(events, input) {
        let j = choose|j: int| 0 <= j < d.len() && (#[trigger] d[j]).moves(input);
        let last = lemma_find_last(d, input, j);
        assert(last_moves(d, input, last));
    }
    if presses(events, input) && releases(events, input) {
        let p = choose|last: int| #[trigger] last_moves(d, input, last) && d[last].is_press();
        let r = choose|last: int| #[trigger] last_moves(d, input, last) && !d[last].is_press();
        assert(p == r);
    }
}

proof fn lemma_find_last(events: Seq<InputEvent>, input: Input, j: int) -> (last: int)
    requires
        0 <= j < events.len(),
        events[j].moves(input),
    ensures
        last_moves(events, input, last),
    decreases events.len() - j,
{
    if exists|l: int| j < l < events.len() && (#[trigger] events[l]).moves(input) {
        let l = choose|l: int| j < l < events.len() && (#[trigger] events[l]).moves(input);
        lemma_find_last(events, input, l)
    } else {
        j
    }
}

/// What a tick does to the position of a key or button: left alone, it
/// stays as it was; pressed, it is down since the new tick; released, it
/// is up since the new tick.
pub proof fn lemma_update_position(state: InputState, events: Seq<InputEvent>, input: Input)
    ensures
        leaves(events, input) ==> state.update(events).positions[input]
            == state.positions[input],
        presses(events, input) ==> state.update(events).positions[input] == ButtonModel::Down(
            state.tick + 1,
        ),
        releases(events, input) ==> state.update(events).positions[input] == ButtonModel::Up(
            state.tick + 1,
        ),
        state.update(events).tick == state.tick + 1,
{
    let d = drained(events);
    let start = state.begin_tick();
    lemma_apply_all_frame(start, d);
    if leaves(events, input) {
        lemma_untouched(start, d, input);
    }
    if presses(events, input) {
        let last = choose|last: int| #[trigger] last_moves(d, input, last) && d[last].is_press();
        lemma_last_moved(start, d, input, last);
    }
    if releases(events, input) {
        let last = choose|last: int| #[trigger]
            last_moves(d, input, last) && !d[last].is_press();
        lemma_last_moved(start, d, input, last);
    }
}

/// A key or button is triggered on the ticks that press it, and on no
/// others.
pub proof fn law_triggered_iff_pressed(state: InputState, events: Seq<InputEvent>, input: Input)
    requires
        state.wf(),
        input.wf(),
    ensures
        state.update(events).is_triggered(input) <==> presses(events, input),
{
    lemma_leaves_presses_or_releases(events, input);
    lemma_update_position(state, events, input);
    assert(state.positions[input].since() <= state.tick);
}

/// A key or button is held after a tick that presses it, and after a tick
/// that leaves it alone while it is held, and after no other.
pub proof fn law_held_iff_pressed_or_kept(
    state: InputState,
    events: Seq<InputEvent>,
    input: Input,
)
    ensures
        state.update(events).is_held(input) <==> presses(events, input) || (leaves(events, input)
            && state.is_held(input)),
{
    lemma_leaves_presses_or_releases(events, input);
    lemma_update_position(state, events, input);
}

/// Where the first of some ticks presses a key or button and the others
/// leave it alone, it is down since the first of them after each.
pub proof fn lemma_run_pressed(
    state: InputState,
    batches: Seq<Seq<InputEvent>>,
    input: Input,
    n: int,
)
    requires
        0 <= n < batches.len(),
        presses(batches[0], input),
        forall|i: int| 1 <= i < batches.len() ==> leaves(#[trigger] batches[i], input),
    ensures
        state.run(batches.take(n + 1)).tick == state.tick + n + 1,
        state.run(batches.take(n + 1)).positions[input] == ButtonModel::Down(state.tick + 1),
    decreases n,
{
    let now = batches.take(n + 1);
    assert(now.drop_last() =~= batches.take(n));
    assert(now.last() == batches[n]);
    if n == 0 {
        assert(state.run(batches.take(0)) == state);
        lemma_update_position(state, batches[0], input);
    } else {
        lemma_run_pressed(state, batches, input, n - 1);
        lemma_update_position(state.run(batches.take(n)), batches[n], input);
    }
}

/// A key that is pressed and then kept down for three ticks in all is
/// triggered on the first of them only, and held on all three.
pub proof fn law_trigger_is_tick_local(
    state: InputState,
    first: Seq<InputEvent>,
    second: Seq<InputEvent>,
    third: Seq<InputEvent>,
    key: ScanCode,
)
    requires
        presses(first, Input::Key(key@)),
        leaves(second, Input::Key(key@)),
        leaves(third, Input::Key(key@)),
    ensures
        state.update(first).holds(Gesture::KeyTrigger(key)),
        !state.update(first).update(second).holds(Gesture::KeyTrigger(key)),
        !state.update(first).update(second).update(third).holds(Gesture::KeyTrigger(key)),
        state.update(first).holds(Gesture::KeyHold(key)),
        state.update(first).update(second).holds(Gesture::KeyHold(key)),
        state.update(first).update(second).update(third).holds(Gesture::KeyHold(key)),
{
    let input = Input::Key(key@);
    let one = state.update(first);
    let two = one.update(second);
    lemma_update_position(state, first, input);
    lemma_update_position(one, second, input);
    lemma_update_position(two, third, input);
}

/// A key that is pressed and then kept down, for any number of ticks in
/// all, is held on each of them and triggered on the first only: over the
/// ticks, `KeyHold` holds as many times as there are ticks, and
/// `KeyTrigger` once.
pub proof fn law_hold_persists_trigger_fires_once(
    state: InputState,
    batches: Seq<Seq<InputEvent>>,
    key: ScanCode,
    n: int,
)
    requires
        0 <= n < batches.len(),
        presses(batches[0], Input::Key(key@)),
        forall|i: int| 1 <= i < batches.len() ==> leaves(#[trigger] batches[i], Input::Key(key@)),
    ensures
        state.run(batches.take(n + 1)).holds(Gesture::KeyHold(key)),
        state.run(batches.take(n + 1)).holds(Gesture::KeyTrigger(key)) <==> n == 0,
{
    lemma_run_pressed(state, batches, Input::Key(key@), n);
}

/// The same of a mouse button: pressed and then kept down, it is held on
/// each tick and triggered on the first only.
pub proof fn law_button_hold_persists_trigger_fires_once(
    state: InputState,
    batches: Seq<Seq<InputEvent>>,
    button: MouseButton,
    n: int,
)
    requires
        0 <= n < batches.len(),
        presses(batches[0], Input::Button(button@)),
        forall|i: int|
            1 <= i < batches.len() ==> leaves(#[trigger] batches[i], Input::Button(button@)),
    ensures
        state.run(batches.take(n + 1)).holds(Gesture::ButtonHold(button)),
        state.run(batches.take(n + 1)).holds(Gesture::ButtonTrigger(button)) <==> n == 0,
{
    lemma_run_pressed(state, batches, Input::Button(button@), n);
}

/// A tick that releases a key ends both its hold and its trigger.
pub proof fn law_release_ends_hold(state: InputState, events: Seq<InputEvent>, key: ScanCode)
    requires
        releases(events, Input::Key(key@)),
    ensures
        !state.update(events).holds(Gesture::KeyHold(key)),
        !state.update(events).holds(Gesture::KeyTrigger(key)),
{
    lemma_update_position(state, events, Input::Key(key@));
}

/// Events set the tick of the last quit request to the current tick if one
/// of them is a quit event, and leave it as it is if none is.
pub proof fn lemma_apply_all_quit(state: InputState, events: Seq<InputEvent>)
    ensures
        state.apply_all(events).quit_tick == if exists|j: int|
            0 <= j < events.len() && (#[trigger] events[j]) is Quit {
            state.tick
        } else {
            state.quit_tick
        },
    decreases events.len(),
{
    if events.len() > 0 {
        let front = events.drop_last();
        lemma_apply_all_quit(state, front);
        lemma_apply_all_frame(state, front);
        if events.last() is Quit {
            assert(events[events.len() - 1] is Quit);
        } else if exists|j: int| 0 <= j < events.len() && (#[trigger] events[j]) is Quit {
            let j = choose|j: int| 0 <= j < events.len() && (#[trigger] events[j]) is Quit;
            assert(front[j] is Quit);
        } else {
            assert forall|j: int| 0 <= j < front.len() implies !(#[trigger] front[j] is Quit) by {
                assert(front[j] == events[j]);
            }
        }
    }
}

/// `QuitTrigger` holds on the ticks that drain a quit event, and on no
/// others.
pub proof fn law_quit_edge(state: InputState, events: Seq<InputEvent>)
    requires
        state.wf(),
    ensures
        state.update(events).holds(Gesture::QuitTrigger) <==> requests_quit(events),
{
    lemma_apply_all_quit(state.begin_tick(), drained(events));
    lemma_apply_all_frame(state.begin_tick(), drained(events));
}

/// Events other than mouse motion leave the mouse where it is.
pub proof fn lemma_apply_all_no_motion(state: InputState, events: Seq<InputEvent>)
    requires
        forall|j: int| 0 <= j < events.len() ==> !(#[trigger] events[j] is MouseMotion),
    ensures
        state.apply_all(events).mouse_delta == state.mouse_delta,
    decreases events.len(),
{
    if events.len() > 0 {
        let front = events.drop_last();
        assert forall|j: int| 0 <= j < front.len() implies !(#[trigger] front[j]
            is MouseMotion) by {
            assert(front[j] == events[j]);
        }
        lemma_apply_all_no_motion(state, front);
        assert(!(events[events.len() - 1] is MouseMotion));
    }
}

/// While the mouse is disabled, no event moves it from rest.
pub proof fn lemma_apply_all_mouse_disabled(state: InputState, events: Seq<InputEvent>)
    requires
        !state.mouse_enabled,
        state.mouse_delta == (0int, 0int),
    ensures
        state.apply_all(events).mouse_delta == (0int, 0int),
    decreases events.len(),
{
    if events.len() > 0 {
        lemma_apply_all_mouse_disabled(state, events.drop_last());
        lemma_apply_all_frame(state, events.drop_last());
    }
}

/// After a tick without a mouse motion event, the mouse reads as at rest.
pub proof fn law_mouse_delta_reset(state: InputState, events: Seq<InputEvent>)
    requires
        !moves_mouse(events),
    ensures
        state.update(events).reading(Analog2d::Mouse) == (0int, 0int),
{
    lemma_apply_all_no_motion(state.begin_tick(), drained(events));
}

/// While the mouse is disabled, it reads as at rest after every tick,
/// whatever motion events the tick drains.
pub proof fn law_disabled_mouse(state: InputState, events: Seq<InputEvent>)
    requires
        !state.mouse_enabled,
    ensures
        state.update(events).reading(Analog2d::Mouse) == (0int, 0int),
{
    lemma_apply_all_mouse_disabled(state.begin_tick(), drained(events));
}

/// While the mouse is enabled, it reads as the last motion event of the
/// tick says, with the vertical axis turned over; earlier motion events
/// of the tick do not add to it.
pub proof fn law_last_motion_decides(
    state: InputState,
    events: Seq<InputEvent>,
    last: int,
    xrel: i32,
    yrel: i32,
)
    requires
        state.mouse_enabled,
        0 <= last < drained(events).len(),
        drained(events)[last] == (InputEvent::MouseMotion { xrel, yrel }),
        forall|l: int|
            last < l < drained(events).len() ==> !(#[trigger] drained(events)[l] is MouseMotion),
    ensures
        state.update(events).reading(Analog2d::Mouse) == (xrel as int, -(yrel as int)),
{
    let d = drained(events);
    let head = d.take(last + 1);
    let tail = d.skip(last + 1);
    lemma_apply_all_append(state.begin_tick(), head, tail);
    assert(head + tail =~= d);
    assert(head.drop_last() =~= d.take(last));
    lemma_apply_all_frame(state.begin_tick(), d.take(last));
    lemma_apply_all_no_motion(state.begin_tick().apply_all(head), tail);
}

/// Applying two runs of events one after the other is applying them all.
pub proof fn lemma_apply_all_append(
    state: InputState,
    head: Seq<InputEvent>,
    tail: Seq<InputEvent>,
)
    ensures
        state.apply_all(head + tail) == state.apply_all(head).apply_all(tail),
    decreases tail.len(),
{
    if tail.len() == 0 {
        assert(head + tail =~= head);
    } else {
        lemma_apply_all_append(state, head, tail.drop_last());
        assert((head + tail).drop_last() =~= head + tail.drop_last());
        assert((head + tail).last() == tail.last());
    }
}

/// Where the positive gesture of an axis holds, the reading on that axis
/// is one unit up, whether or not the negative gesture holds too.
pub proof fn law_positive_wins(
    state: InputState,
    xpos: Gesture,
    xneg: Gesture,
    ypos: Gesture,
    yneg: Gesture,
)
    ensures
        state.holds(xpos) ==> state.reading(Analog2d::Gestures(xpos, xneg, ypos, yneg)).0 == 1,
        state.holds(ypos) ==> state.reading(Analog2d::Gestures(xpos, xneg, ypos, yneg)).1 == 1,
{
}

/// `AnyOf` of no gesture never holds.
pub proof fn law_any_of_none(state: InputState, subs: Vec<Gesture>)
    requires
        subs.len() == 0,
    ensures
        !state.holds(Gesture::AnyOf(subs)),
{
    state.lemma_holds_any_of(subs);
}

/// `AllOf` of no gesture always holds.
pub proof fn law_all_of_none(state: InputState, subs: Vec<Gesture>)
    requires
        subs.len() == 0,
    ensures
        state.holds(Gesture::AllOf(subs)),
{
    state.lemma_holds_all_of(subs);
}

/// `AnyOf` of one gesture holds exactly when that gesture does.
pub proof fn law_any_of_one(state: InputState, subs: Vec<Gesture>)
    requires
        subs.len() == 1,
    ensures
        state.holds(Gesture::AnyOf(subs)) == state.holds(subs[0]),
{
    state.lemma_holds_any_of(subs);
}

/// `AllOf` of one gesture holds exactly when that gesture does.
pub proof fn law_all_of_one(state: InputState, subs: Vec<Gesture>)
    requires
        subs.len() == 1,
    ensures
        state.holds(Gesture::AllOf(subs)) == state.holds(subs[0]),
{
    state.lemma_holds_all_of(subs);
}

} // verus!
