//! The flat 32K-word memory of the target machine.

use vstd::prelude::*;

verus! {

/// A flat random-access memory of 32768 16-bit words.
pub struct Ram {
    memory: Vec<u16>,
}

impl View for Ram {
    type V = Seq<u16>;

    closed spec fn view(&self) -> Seq<u16> {
        self.memory@
    }
}

impl Ram {
    /// A fresh memory: 32768 words, all zero.
    pub fn new() -> (r: Ram)
        ensures
            r@.len() == 32768,
            forall|i: int| 0 <= i < 32768 ==> r@[i] == 0,
    {
        Ram { memory: vec![0u16; 32768] }
    }

    /// The word at `address`.
    pub fn read(&self, address: usize) -> (r: u16)
        requires
            address < self@.len(),
        ensures
            r == self@[address as int],
    {
        self.memory[address]
    }

    /// Stores `value` at `address`.
    pub fn write(&mut self, address: usize, value: u16)
        requires
            address < old(self)@.len(),
        ensures
            final(self)@ == old(self)@.update(address as int, value),
    {
        self.memory[address] = value;
    }
}

} // verus!
