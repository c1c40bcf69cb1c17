use game_input::{Gesture, InputCodeError, MouseButton, ScanCode, NUM_MOUSE_BUTTONS, NUM_SCAN_CODES};

#[test]
fn table_sizes() {
    assert_eq!(NUM_SCAN_CODES, 512);
    assert_eq!(NUM_MOUSE_BUTTONS, 256);
}

#[test]
fn scan_code_accepts_the_whole_table() {
    assert_eq!(ScanCode::new(0).unwrap().index(), 0);
    assert_eq!(ScanCode::new(4).unwrap().index(), 4);
    assert_eq!(ScanCode::new(511).unwrap().index(), 511);
}

#[test]
fn scan_code_rejects_what_lies_beyond_the_table() {
    assert_eq!(ScanCode::new(512), Err(InputCodeError::InvalidScanCode(512)));
    assert_eq!(ScanCode::new(513), Err(InputCodeError::InvalidScanCode(513)));
    assert_eq!(ScanCode::new(70_000), Err(InputCodeError::InvalidScanCode(70_000)));
    assert_eq!(ScanCode::new(u32::MAX), Err(InputCodeError::InvalidScanCode(u32::MAX)));
}

#[test]
fn mouse_button_accepts_the_whole_table() {
    assert_eq!(MouseButton::new(0).unwrap().index(), 0);
    assert_eq!(MouseButton::new(1).unwrap().index(), 1);
    assert_eq!(MouseButton::new(255).unwrap().index(), 255);
}

#[test]
fn mouse_button_rejects_what_lies_beyond_the_table() {
    assert_eq!(MouseButton::new(256), Err(InputCodeError::InvalidMouseButton(256)));
    assert_eq!(MouseButton::new(1_000), Err(InputCodeError::InvalidMouseButton(1_000)));
    assert_eq!(MouseButton::new(u32::MAX), Err(InputCodeError::InvalidMouseButton(u32::MAX)));
}

#[test]
fn key_gestures_are_checked_when_built() {
    let a = ScanCode::new(4).unwrap();
    assert_eq!(Gesture::key_hold(4), Ok(Gesture::KeyHold(a)));
    assert_eq!(Gesture::key_trigger(4), Ok(Gesture::KeyTrigger(a)));
    assert_eq!(Gesture::key_hold(511), Ok(Gesture::KeyHold(ScanCode::new(511).unwrap())));
    assert_eq!(Gesture::key_hold(512), Err(InputCodeError::InvalidScanCode(512)));
    assert_eq!(Gesture::key_trigger(512), Err(InputCodeError::InvalidScanCode(512)));
    assert_eq!(Gesture::key_trigger(9_999), Err(InputCodeError::InvalidScanCode(9_999)));
}

#[test]
fn button_gestures_are_checked_when_built() {
    let left = MouseButton::new(1).unwrap();
    assert_eq!(Gesture::button_hold(1), Ok(Gesture::ButtonHold(left)));
    assert_eq!(Gesture::button_trigger(1), Ok(Gesture::ButtonTrigger(left)));
    assert_eq!(Gesture::button_hold(255), Ok(Gesture::ButtonHold(MouseButton::new(255).unwrap())));
    assert_eq!(Gesture::button_hold(256), Err(InputCodeError::InvalidMouseButton(256)));
    assert_eq!(Gesture::button_trigger(256), Err(InputCodeError::InvalidMouseButton(256)));
}

#[test]
fn a_key_and_a_button_with_one_code_are_different_gestures() {
    assert_ne!(Gesture::key_hold(1), Gesture::button_hold(1));
    assert_ne!(Gesture::key_hold(1), Gesture::key_trigger(1));
}
