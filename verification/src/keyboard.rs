//! The keypad, reduced to the one key that is currently held down.

use vstd::prelude::*;

verus! {

/// Number of keys on the keypad; keys are numbered `0 .. KEY_COUNT`.
pub const KEY_COUNT: u8 = 16;

/// `key` names no key, or a key of the keypad.
pub open spec fn valid_key(key: Option<u8>) -> bool {
    key matches Some(k) ==> k < KEY_COUNT
}

/// The key that is held down, if any. The input source overwrites it as a
/// whole; the processor only reads it.
pub struct Keyboard {
    key_pressed: Option<u8>,
}

impl Keyboard {
    /// The key held down, if any, is a key of the keypad.
    #[verifier::type_invariant]
    spec fn key_is_on_keypad(self) -> bool {
        valid_key(self.key_pressed)
    }

    /// The key that is held down, if any.
    pub closed spec fn view(&self) -> Option<u8> {
        self.key_pressed
    }

    /// A keyboard with no key held down.
    pub fn new() -> (keyboard: Keyboard)
        ensures
            keyboard@ == None::<u8>,
    {
        Keyboard { key_pressed: None }
    }

    /// Whether `key` is the key held down. It is false when no key is held
    /// and when another key is held.
    pub fn is_key_pressed(&self, key: u8) -> (pressed: bool)
        ensures
            pressed == (self@ == Some(key)),
    {
        match self.key_pressed {
            Some(held) => held == key,
            None => false,
        }
    }

    /// Records `key` as the key held down, or that none is.
    pub fn set_key_pressed(&mut self, key: Option<u8>)
        requires
            valid_key(key),
        ensures
            final(self)@ == key,
    {
        self.key_pressed = key;
    }

    /// The key held down, if any.
    pub fn get_key_pressed(&self) -> (key: Option<u8>)
        ensures
            key == self@,
            valid_key(key),
    {
        proof {
            use_type_invariant(self);
        }
        self.key_pressed
    }
}

} // verus!
