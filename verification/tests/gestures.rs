use game_input::{Analog2d, GameController, Gesture, InputEvent, ScanCode, Vec2i};

fn key(code: u32) -> ScanCode {
    ScanCode::new(code).unwrap()
}

fn hold(code: u32) -> Gesture {
    Gesture::KeyHold(key(code))
}

fn with_keys_down(codes: &[u32]) -> GameController {
    let mut controller = GameController::new();
    let mut events: Vec<InputEvent> = Vec::new();
    for code in codes {
        events.push(InputEvent::KeyDown(key(*code)));
    }
    controller.update(&events);
    controller
}

fn stick(xpos: u32, xneg: u32, ypos: u32, yneg: u32) -> Analog2d {
    Analog2d::Gestures(hold(xpos), hold(xneg), hold(ypos), hold(yneg))
}

#[test]
fn no_gesture_never_holds() {
    let controller = with_keys_down(&[1, 2, 3]);
    assert!(!controller.poll_gesture(&Gesture::NoGesture));
}

#[test]
fn any_of_nothing_is_false() {
    assert!(!GameController::new().poll_gesture(&Gesture::AnyOf(vec![])));
    assert!(!with_keys_down(&[1, 2, 3]).poll_gesture(&Gesture::AnyOf(vec![])));
}

#[test]
fn all_of_nothing_is_true() {
    assert!(GameController::new().poll_gesture(&Gesture::AllOf(vec![])));
    assert!(with_keys_down(&[1, 2, 3]).poll_gesture(&Gesture::AllOf(vec![])));
}

#[test]
fn any_of_one_is_that_one() {
    let controller = with_keys_down(&[1]);
    assert!(controller.poll_gesture(&Gesture::AnyOf(vec![hold(1)])));
    assert!(!controller.poll_gesture(&Gesture::AnyOf(vec![hold(2)])));
    assert!(!controller.poll_gesture(&Gesture::AnyOf(vec![Gesture::NoGesture])));
    assert!(!controller.poll_gesture(&Gesture::AnyOf(vec![Gesture::QuitTrigger])));
}

#[test]
fn all_of_one_is_that_one() {
    let controller = with_keys_down(&[1]);
    assert!(controller.poll_gesture(&Gesture::AllOf(vec![hold(1)])));
    assert!(!controller.poll_gesture(&Gesture::AllOf(vec![hold(2)])));
    assert!(!controller.poll_gesture(&Gesture::AllOf(vec![Gesture::NoGesture])));
    assert!(!controller.poll_gesture(&Gesture::AllOf(vec![Gesture::QuitTrigger])));
}

#[test]
fn any_of_holds_if_one_holds_wherever_it_stands() {
    let controller = with_keys_down(&[2]);
    assert!(controller.poll_gesture(&Gesture::AnyOf(vec![hold(2), hold(1), hold(3)])));
    assert!(controller.poll_gesture(&Gesture::AnyOf(vec![hold(1), hold(2), hold(3)])));
    assert!(controller.poll_gesture(&Gesture::AnyOf(vec![hold(1), hold(3), hold(2)])));
    assert!(!controller.poll_gesture(&Gesture::AnyOf(vec![hold(1), hold(3), hold(4)])));
}

#[test]
fn all_of_fails_if_one_fails_wherever_it_stands() {
    let controller = with_keys_down(&[1, 2, 3]);
    assert!(controller.poll_gesture(&Gesture::AllOf(vec![hold(1), hold(2), hold(3)])));
    assert!(!controller.poll_gesture(&Gesture::AllOf(vec![hold(4), hold(2), hold(3)])));
    assert!(!controller.poll_gesture(&Gesture::AllOf(vec![hold(1), hold(4), hold(3)])));
    assert!(!controller.poll_gesture(&Gesture::AllOf(vec![hold(1), hold(2), hold(4)])));
}

#[test]
fn gestures_nest() {
    let controller = with_keys_down(&[1, 2]);
    let chord = |a: u32, b: u32| Gesture::AllOf(vec![hold(a), hold(b)]);
    assert!(controller.poll_gesture(&Gesture::AnyOf(vec![chord(3, 4), chord(1, 2)])));
    assert!(!controller.poll_gesture(&Gesture::AnyOf(vec![chord(3, 4), chord(1, 3)])));
    let either = |a: u32, b: u32| Gesture::AnyOf(vec![hold(a), hold(b)]);
    assert!(controller.poll_gesture(&Gesture::AllOf(vec![either(1, 9), either(8, 2)])));
    assert!(!controller.poll_gesture(&Gesture::AllOf(vec![either(1, 9), either(8, 7)])));
    assert!(controller.poll_gesture(&Gesture::AllOf(vec![
        Gesture::AllOf(vec![]),
        Gesture::AnyOf(vec![Gesture::AllOf(vec![Gesture::AnyOf(vec![hold(2)])])]),
    ])));
    assert!(!controller.poll_gesture(&Gesture::AnyOf(vec![
        Gesture::AnyOf(vec![]),
        Gesture::AllOf(vec![Gesture::AnyOf(vec![])]),
    ])));
}

#[test]
fn chord_of_a_hold_and_a_trigger() {
    let shift = key(225);
    let s = key(22);
    let chord = Gesture::AllOf(vec![Gesture::KeyHold(shift), Gesture::KeyTrigger(s)]);
    let mut controller = GameController::new();
    controller.update(&[InputEvent::KeyDown(shift)]);
    assert!(!controller.poll_gesture(&chord));
    controller.update(&[InputEvent::KeyDown(s)]);
    assert!(controller.poll_gesture(&chord));
    controller.update(&[]);
    assert!(!controller.poll_gesture(&chord));
}

#[test]
fn gestures_read_one_unit_in_the_direction_held() {
    assert_eq!(with_keys_down(&[]).poll_analog2d(&stick(1, 2, 3, 4)), Vec2i { x: 0, y: 0 });
    assert_eq!(with_keys_down(&[1]).poll_analog2d(&stick(1, 2, 3, 4)), Vec2i { x: 1, y: 0 });
    assert_eq!(with_keys_down(&[2]).poll_analog2d(&stick(1, 2, 3, 4)), Vec2i { x: -1, y: 0 });
    assert_eq!(with_keys_down(&[3]).poll_analog2d(&stick(1, 2, 3, 4)), Vec2i { x: 0, y: 1 });
    assert_eq!(with_keys_down(&[4]).poll_analog2d(&stick(1, 2, 3, 4)), Vec2i { x: 0, y: -1 });
    assert_eq!(with_keys_down(&[2, 3]).poll_analog2d(&stick(1, 2, 3, 4)), Vec2i { x: -1, y: 1 });
    assert_eq!(with_keys_down(&[1, 4]).poll_analog2d(&stick(1, 2, 3, 4)), Vec2i { x: 1, y: -1 });
}

#[test]
fn positive_direction_wins_a_tie() {
    assert_eq!(with_keys_down(&[1, 2]).poll_analog2d(&stick(1, 2, 3, 4)), Vec2i { x: 1, y: 0 });
    assert_eq!(with_keys_down(&[3, 4]).poll_analog2d(&stick(1, 2, 3, 4)), Vec2i { x: 0, y: 1 });
    assert_eq!(
        with_keys_down(&[1, 2, 3, 4]).poll_analog2d(&stick(1, 2, 3, 4)),
        Vec2i { x: 1, y: 1 }
    );
    assert_eq!(with_keys_down(&[5]).poll_analog2d(&stick(5, 5, 5, 5)), Vec2i { x: 1, y: 1 });
}

#[test]
fn gestures_read_the_same_with_the_mouse_disabled() {
    let mut controller = with_keys_down(&[2, 3]);
    controller.set_mouse_enabled(false);
    assert_eq!(controller.poll_analog2d(&stick(1, 2, 3, 4)), Vec2i { x: -1, y: 1 });
}
