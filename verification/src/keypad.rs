use vstd::prelude::*;

use crate::state::Chip8State;
use crate::Chip8;

verus! {

/// A key of the sixteen-key keypad going down or up.
#[derive(Debug, Clone, Copy, PartialEq, Eq, Structural)]
pub enum KeypadEvent {
    KeyDown(usize),
    KeyUp(usize),
}

/// The keypad after `event`: the named key is pressed or released; an event naming no key
/// of the keypad changes nothing.
pub open spec fn keypad_after(keys: Seq<bool>, event: KeypadEvent) -> Seq<bool> {
    match event {
        KeypadEvent::KeyDown(k) => if k < keys.len() {
            keys.update(k as int, true)
        } else {
            keys
        },
        KeypadEvent::KeyUp(k) => if k < keys.len() {
            keys.update(k as int, false)
        } else {
            keys
        },
    }
}

impl Chip8 {
    /// Applies a key event to the keypad; the rest of the machine is kept.
    pub fn handle_keypad_event(&mut self, event: KeypadEvent)
        ensures
            final(self)@ == (Chip8State {
                keypad: keypad_after(old(self)@.keypad, event),
                ..old(self)@
            }),
    {
        match event {
            KeypadEvent::KeyDown(i) => {
                if i < self.keypad.len() {
                    if !self.keypad[i] {
                        self.keypad[i] = true;
                    }
                }
            },
            KeypadEvent::KeyUp(i) => {
                if i < self.keypad.len() {
                    if self.keypad[i] {
                        self.keypad[i] = false;
                    }
                }
            },
        }
        assert(self@.keypad =~= keypad_after(old(self)@.keypad, event));
    }
}

} // verus!
