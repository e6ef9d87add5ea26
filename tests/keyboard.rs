use chip8::{Input, KeyWait, Keyboard};

#[test]
fn keys_start_released() {
    let keyboard = Keyboard::new();
    for k in 0..16u8 {
        assert!(!keyboard.is_pressed(k));
    }
}

#[test]
fn set_state_and_query() {
    let mut keyboard = Keyboard::new();
    keyboard.set_state(0xA, true);
    assert!(keyboard.is_pressed(0xA));
    assert!(!keyboard.is_pressed(0xB));
    keyboard.set_state(0xA, false);
    assert!(!keyboard.is_pressed(0xA));
    assert!(!keyboard.is_pressed(16));
}

#[test]
fn layout_maps_the_block_of_keys() {
    assert_eq!(Keyboard::map_key('1'), Some(0x1));
    assert_eq!(Keyboard::map_key('4'), Some(0xC));
    assert_eq!(Keyboard::map_key('x'), Some(0x0));
    assert_eq!(Keyboard::map_key('v'), Some(0xF));
    assert_eq!(Keyboard::map_key('p'), None);
}

#[test]
fn press_goes_through_the_layout() {
    let mut keyboard = Keyboard::new();
    keyboard.press('f', true);
    assert!(keyboard.is_pressed(0xE));
    keyboard.press('f', false);
    assert!(!keyboard.is_pressed(0xE));
    keyboard.press('p', true);
    for k in 0..16u8 {
        assert!(!keyboard.is_pressed(k));
    }
}

#[test]
fn polled_events_update_the_keys() {
    let mut keyboard = Keyboard::new();
    assert!(!keyboard.register_key_press(Input::Key('w')));
    assert!(keyboard.is_pressed(0x5));
    assert!(!keyboard.register_key_press(Input::Other));
    assert!(keyboard.is_pressed(0x5));
    assert!(!keyboard.register_key_press(Input::Key('p')));
    assert!(!keyboard.is_pressed(0x5));
    keyboard.register_key_press(Input::Key('z'));
    assert!(!keyboard.register_key_press(Input::OtherKey));
    assert!(!keyboard.is_pressed(0xA));
    keyboard.register_key_press(Input::Key('z'));
    assert!(keyboard.register_key_press(Input::Interrupt));
    assert!(keyboard.is_pressed(0xA));
}

#[test]
fn waiting_ends_on_a_keypad_key() {
    let keyboard = Keyboard::new();
    assert_eq!(keyboard.wait_for_key(Input::Key('c')), KeyWait::Pressed(0xB));
    assert_eq!(keyboard.wait_for_key(Input::Key('p')), KeyWait::Waiting);
    assert_eq!(keyboard.wait_for_key(Input::OtherKey), KeyWait::Waiting);
    assert_eq!(keyboard.wait_for_key(Input::Other), KeyWait::Waiting);
    assert_eq!(keyboard.wait_for_key(Input::Interrupt), KeyWait::Interrupted);
}
