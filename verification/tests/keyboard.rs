use chip8::Keyboard;

#[test]
fn new_keyboard_has_no_key_pressed() {
    let keyboard = Keyboard::new();
    assert_eq!(keyboard.get_key_pressed(), None);
    for key in 0..=255u8 {
        assert!(!keyboard.is_key_pressed(key));
    }
}

#[test]
fn set_then_get_gives_the_key_back() {
    let mut keyboard = Keyboard::new();
    keyboard.set_key_pressed(Some(0xA));
    assert_eq!(keyboard.get_key_pressed(), Some(0xA));
    keyboard.set_key_pressed(Some(0));
    assert_eq!(keyboard.get_key_pressed(), Some(0));
    keyboard.set_key_pressed(Some(15));
    assert_eq!(keyboard.get_key_pressed(), Some(15));
    keyboard.set_key_pressed(None);
    assert_eq!(keyboard.get_key_pressed(), None);
}

#[test]
fn is_pressed_compares_the_key_asked_about() {
    let mut keyboard = Keyboard::new();
    keyboard.set_key_pressed(Some(3));
    assert!(!keyboard.is_key_pressed(5));
    assert!(keyboard.is_key_pressed(3));
    keyboard.set_key_pressed(Some(5));
    assert!(keyboard.is_key_pressed(5));
    assert!(!keyboard.is_key_pressed(3));
}

#[test]
fn is_pressed_is_true_for_exactly_one_key() {
    let mut keyboard = Keyboard::new();
    for held in 0..16u8 {
        keyboard.set_key_pressed(Some(held));
        for asked in 0..=255u8 {
            assert_eq!(keyboard.is_key_pressed(asked), asked == held);
        }
    }
}

#[test]
fn releasing_the_key_makes_every_query_false() {
    let mut keyboard = Keyboard::new();
    keyboard.set_key_pressed(Some(7));
    keyboard.set_key_pressed(None);
    assert!(!keyboard.is_key_pressed(7));
}
