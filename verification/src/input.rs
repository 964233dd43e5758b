//! The 16-key input latch.

use vstd::prelude::*;

verus! {

/// Number of keys on the CHIP-8 keypad (0x0..0xF).
pub const NUM_KEYS: usize = 16;

/// The lowest pressed key at or after index `k`, if any.
pub open spec fn first_pressed_from(keys: Seq<bool>, k: int) -> Option<u8>
    decreases 16 - k,
{
    if k < 0 || k >= 16 {
        None
    } else if keys[k] {
        Some(k as u8)
    } else {
        first_pressed_from(keys, k + 1)
    }
}

/// The lowest pressed key, if any: the key a key-wait opcode resolves to.
pub open spec fn spec_first_pressed(keys: Seq<bool>) -> Option<u8> {
    first_pressed_from(keys, 0)
}

/// A snapshot of the 16 key states, overwritten wholesale by the input
/// collaborator before each cycle. The core never polls a device.
pub struct Keypad {
    pub keys: Vec<bool>,
}

impl View for Keypad {
    type V = Seq<bool>;

    open spec fn view(&self) -> Seq<bool> {
        self.keys@
    }
}

impl Keypad {
    /// The latch always holds exactly 16 key states.
    pub open spec fn wf(&self) -> bool {
        self@.len() == NUM_KEYS
    }

    /// Builds a latch with no key pressed.
    pub fn new() -> (kp: Keypad)
        ensures
            kp.wf(),
            kp@ == Seq::new(NUM_KEYS as nat, |k: int| false),
    {
        let mut keys: Vec<bool> = Vec::new();
        while keys.len() < NUM_KEYS
            invariant
                keys@.len() <= NUM_KEYS,
                forall|k: int| 0 <= k < keys@.len() ==> !keys@[k],
            decreases NUM_KEYS - keys@.len(),
        {
            keys.push(false);
        }
        let kp = Keypad { keys };
        proof {
            assert(kp@ =~= Seq::new(NUM_KEYS as nat, |k: int| false));
        }
        kp
    }

    /// Records that key `k` is pressed or released.
    pub fn set_key(&mut self, k: usize, pressed: bool)
        requires
            old(self).wf(),
            k < NUM_KEYS,
        ensures
            final(self).wf(),
            final(self)@ == old(self)@.update(k as int, pressed),
    {
        self.keys[k] = pressed;
    }

    /// Whether key `k` is pressed in the current snapshot.
    pub fn is_pressed(&self, k: usize) -> (p: bool)
        requires
            self.wf(),
            k < NUM_KEYS,
        ensures
            p == self@[k as int],
    {
        self.keys[k]
    }

    /// The lowest pressed key, if any.
    pub fn first_pressed(&self) -> (r: Option<u8>)
        requires
            self.wf(),
        ensures
            r == spec_first_pressed(self@),
    {
        let mut k: usize = 0;
        while k < NUM_KEYS
            invariant
                k <= NUM_KEYS,
                self@.len() == NUM_KEYS,
                spec_first_pressed(self@) == first_pressed_from(self@, k as int),
            decreases NUM_KEYS - k,
        {
            if self.keys[k] {
                return Some(k as u8);
            }
            k = k + 1;
        }
        None
    }
}

} // verus!
