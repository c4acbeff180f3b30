use vstd::prelude::*;

verus! {

/// Number of keys on the hexadecimal keypad.
pub const KEY_COUNT: usize = 16;

/// The keypad latch: one state per key, 1 when pressed and 0 when not.
#[derive(Debug, Clone, Copy)]
pub struct Input {
    /// Key states, indexed by the key's hexadecimal value.
    pub input: [u8; 16],
}

impl Input {
    /// Every key released.
    pub fn new() -> (r: Self)
        ensures
            forall|k: int| 0 <= k < KEY_COUNT ==> r.input@[k] == 0,
    {
        Input { input: [0u8; 16] }
    }

    /// The state of `key`: 1 when pressed, 0 when not.
    pub fn poll(self, key: usize) -> (r: u8)
        requires
            key < KEY_COUNT,
        ensures
            r == self.input@[key as int],
    {
        self.input[key]
    }

    /// Records whether `key` is pressed.
    pub fn set(&mut self, key: usize, state: bool)
        requires
            key < KEY_COUNT,
        ensures
            final(self).input@ == old(self).input@.update(
                key as int,
                if state {
                    1u8
                } else {
                    0u8
                },
            ),
    {
        if state {
            self.input[key] = 1;
        } else {
            self.input[key] = 0;
        }
    }
}

} // verus!
