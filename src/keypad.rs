//! The sixteen key latches, indexed 0x0 to 0xF.

use vstd::prelude::*;

verus! {

/// Every key released.
pub open spec fn released() -> Seq<bool> {
    Seq::new(16, |k: int| false)
}

#[derive(Debug)]
pub struct Keypad {
    keys: [bool; 16],
}

impl View for Keypad {
    type V = Seq<bool>;

    closed spec fn view(&self) -> Seq<bool> {
        self.keys@
    }
}

impl Keypad {
    /// The view holds one entry per key.
    pub proof fn lemma_view_len(&self)
        ensures
            self@.len() == 16,
    {
    }

    pub fn new() -> (r: Self)
        ensures
            r@ == released(),
    {
        let r = Keypad { keys: [false; 16] };
        assert(r@ =~= released());
        r
    }

    pub fn clear(&mut self)
        ensures
            final(self)@ == released(),
    {
        self.keys = [false; 16];
        assert(self@ =~= released());
    }

    pub fn get_key(&self, key: u8) -> (r: bool)
        requires
            key < 16,
        ensures
            r == self@[key as int],
    {
        self.keys[key as usize]
    }

    pub fn key_down(&mut self, key: u8)
        requires
            key < 16,
        ensures
            final(self)@ == old(self)@.update(key as int, true),
    {
        self.keys[key as usize] = true;
    }

    pub fn key_up(&mut self, key: u8)
        requires
            key < 16,
        ensures
            final(self)@ == old(self)@.update(key as int, false),
    {
        self.keys[key as usize] = false;
    }
}

} // verus!
