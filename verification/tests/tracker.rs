use input_tracker::input::InputState;
use input_tracker::keyboard::keyboard_input_system;
use input_tracker::keyboard::ElementState;
use input_tracker::keyboard::KeyCode;
use input_tracker::keyboard::KeyboardInput;

fn press_event(key: KeyCode) -> KeyboardInput {
    KeyboardInput { scan_code: 0, key_code: Some(key), state: ElementState::Pressed }
}

fn release_event(key: KeyCode) -> KeyboardInput {
    KeyboardInput { scan_code: 0, key_code: Some(key), state: ElementState::Released }
}

#[test]
fn fresh_state_reports_nothing() {
    let state = InputState::<KeyCode>::new();
    assert!(!state.is_pressed(KeyCode::A));
    assert!(!state.just_pressed(KeyCode::A));
    assert!(!state.just_released(KeyCode::A));
    assert_eq!(state.iter_pressed().len(), 0);
}

#[test]
fn press_records_both_memberships() {
    let mut state = InputState::<KeyCode>::new();
    state.press(KeyCode::Space);
    assert!(state.is_pressed(KeyCode::Space));
    assert!(state.just_pressed(KeyCode::Space));
    assert!(!state.just_released(KeyCode::Space));
    assert!(!state.is_pressed(KeyCode::Return));
}

#[test]
fn press_twice_same_cycle_is_idempotent() {
    let mut once = InputState::<KeyCode>::new();
    once.press(KeyCode::A);
    let mut twice = InputState::<KeyCode>::new();
    twice.press(KeyCode::A);
    twice.press(KeyCode::A);
    assert_eq!(once.is_pressed(KeyCode::A), twice.is_pressed(KeyCode::A));
    assert_eq!(once.just_pressed(KeyCode::A), twice.just_pressed(KeyCode::A));
    assert_eq!(once.iter_pressed(), twice.iter_pressed());
    assert_eq!(twice.iter_pressed(), vec![KeyCode::A]);
}

#[test]
fn release_is_an_unconditional_edge() {
    let mut state = InputState::<KeyCode>::new();
    state.release(KeyCode::Q);
    assert!(state.just_released(KeyCode::Q));
    assert!(!state.is_pressed(KeyCode::Q));

    let mut held = InputState::<KeyCode>::new();
    held.press(KeyCode::Q);
    held.advance();
    held.release(KeyCode::Q);
    assert!(held.just_released(KeyCode::Q));
    assert!(!held.is_pressed(KeyCode::Q));
}

#[test]
fn advance_clears_transients_and_keeps_holds() {
    let mut state = InputState::<KeyCode>::new();
    state.press(KeyCode::A);
    state.press(KeyCode::B);
    state.release(KeyCode::C);
    state.advance();
    assert!(state.is_pressed(KeyCode::A));
    assert!(state.is_pressed(KeyCode::B));
    assert!(!state.just_pressed(KeyCode::A));
    assert!(!state.just_pressed(KeyCode::B));
    assert!(!state.just_released(KeyCode::C));
}

#[test]
fn consistency_holds_after_a_cycle() {
    let mut state = InputState::<KeyCode>::new();
    keyboard_input_system(&mut state, &vec![press_event(KeyCode::A)]);
    keyboard_input_system(
        &mut state,
        &vec![press_event(KeyCode::B), release_event(KeyCode::A)],
    );
    // Every just-pressed key is held; no just-released key is held.
    for key in [KeyCode::A, KeyCode::B] {
        if state.just_pressed(key) {
            assert!(state.is_pressed(key));
        }
        if state.just_released(key) {
            assert!(!state.is_pressed(key));
        }
    }
    assert!(state.is_pressed(KeyCode::B));
    assert!(state.just_released(KeyCode::A));
}

#[test]
fn cycle_with_one_press_sets_all_views() {
    let mut state = InputState::<KeyCode>::new();
    keyboard_input_system(&mut state, &vec![press_event(KeyCode::A)]);
    assert!(state.is_pressed(KeyCode::A));
    assert!(state.just_pressed(KeyCode::A));
    assert!(!state.just_released(KeyCode::A));
}

#[test]
fn empty_cycle_keeps_hold_and_clears_edge() {
    let mut state = InputState::<KeyCode>::new();
    keyboard_input_system(&mut state, &vec![press_event(KeyCode::A)]);
    keyboard_input_system(&mut state, &vec![]);
    assert!(state.is_pressed(KeyCode::A));
    assert!(!state.just_pressed(KeyCode::A));
}

#[test]
fn release_cycle_after_hold() {
    let mut state = InputState::<KeyCode>::new();
    keyboard_input_system(&mut state, &vec![press_event(KeyCode::A)]);
    keyboard_input_system(&mut state, &vec![]);
    keyboard_input_system(&mut state, &vec![release_event(KeyCode::A)]);
    assert!(!state.is_pressed(KeyCode::A));
    assert!(state.just_released(KeyCode::A));
}

#[test]
fn duplicate_press_events_give_one_membership() {
    let mut state = InputState::<KeyCode>::new();
    keyboard_input_system(
        &mut state,
        &vec![press_event(KeyCode::A), press_event(KeyCode::A)],
    );
    assert!(state.just_pressed(KeyCode::A));
    assert_eq!(state.iter_pressed(), vec![KeyCode::A]);
}

#[test]
fn event_without_key_code_changes_nothing_beyond_advance() {
    let mut state = InputState::<KeyCode>::new();
    keyboard_input_system(&mut state, &vec![press_event(KeyCode::A)]);
    let unresolved = KeyboardInput { scan_code: 7, key_code: None, state: ElementState::Pressed };
    keyboard_input_system(&mut state, &vec![unresolved]);
    assert!(state.is_pressed(KeyCode::A));
    assert!(!state.just_pressed(KeyCode::A));
    assert!(!state.just_released(KeyCode::A));
    assert_eq!(state.iter_pressed(), vec![KeyCode::A]);
}

#[test]
fn iter_pressed_lists_each_held_key_once() {
    let mut state = InputState::<KeyCode>::new();
    state.press(KeyCode::A);
    state.press(KeyCode::B);
    state.press(KeyCode::C);
    state.press(KeyCode::B);
    state.release(KeyCode::C);
    let mut held = state.iter_pressed();
    held.sort();
    assert_eq!(held, vec![KeyCode::A, KeyCode::B]);
}

#[test]
fn scan_code_alone_does_not_identify_a_key() {
    let mut state = InputState::<KeyCode>::new();
    let a_from_odd_scan = KeyboardInput {
        scan_code: 30,
        key_code: Some(KeyCode::A),
        state: ElementState::Pressed,
    };
    keyboard_input_system(&mut state, &vec![a_from_odd_scan]);
    assert!(state.is_pressed(KeyCode::A));
}
