//! The 65536 memory cells and the two keyboard registers among them.

use crate::machine::{Machine, KEY_READY, MR_KBDR, MR_KBSR};
use std::collections::VecDeque;
use vstd::prelude::*;

verus! {

/// The memory of a machine.
pub struct Memory {
    mem: [u16; 65536],
}

/// Takes the oldest byte that the keyboard has waiting, if there is one.
pub fn get_key(keyboard: &mut VecDeque<u8>) -> (key: Option<u16>)
    ensures
        old(keyboard)@.len() == 0 ==> key.is_none() && final(keyboard)@ == old(keyboard)@,
        old(keyboard)@.len() > 0 ==> key == Some(old(keyboard)@[0] as u16) && final(keyboard)@
            == old(keyboard)@.skip(1),
{
    match keyboard.pop_front() {
        None => None,
        Some(c) => Some(c as u16),
    }
}

impl View for Memory {
    type V = Seq<u16>;

    closed spec fn view(&self) -> Seq<u16> {
        self.mem@
    }
}

impl Memory {
    /// Every memory has 65536 cells.
    pub proof fn lemma_len(&self)
        ensures
            self@.len() == 0x1_0000,
    {
    }

    /// A memory of zeros.
    pub fn new() -> (memory: Memory)
        ensures
            memory@ == Machine::initial().memory,
    {
        Memory { mem: [0u16; 65536] }
    }

    /// Reads a cell. A read of the keyboard status register first polls the
    /// keyboard: with a byte waiting, the status register gets its ready bit,
    /// the data register gets the byte and the byte is consumed; with none,
    /// the status register is cleared. Any other read changes nothing.
    pub fn read(&mut self, address: u16, keyboard: &mut VecDeque<u8>) -> (value: u16)
        ensures
            value == final(self)@[address as int],
            address != MR_KBSR ==> final(self)@ == old(self)@ && final(keyboard)@ == old(
                keyboard,
            )@,
            address == MR_KBSR && old(keyboard)@.len() == 0 ==> final(self)@ == old(self)@.update(
                MR_KBSR as int,
                0,
            ) && final(keyboard)@ == old(keyboard)@,
            address == MR_KBSR && old(keyboard)@.len() > 0 ==> final(self)@ == old(self)@.update(
                MR_KBSR as int,
                KEY_READY,
            ).update(MR_KBDR as int, old(keyboard)@[0] as u16) && final(keyboard)@ == old(
                keyboard,
            )@.skip(1),
    {
        if address == MR_KBSR {
            let key = get_key(keyboard);
            match key {
                Some(c) => {
                    self.write(MR_KBSR, KEY_READY);
                    self.write(MR_KBDR, c);
                },
                None => self.write(MR_KBSR, 0x0),
            }
        }
        self.mem[address as usize]
    }

    /// Reads a cell as plain storage, without polling the keyboard.
    pub fn peek(&self, address: u16) -> (value: u16)
        ensures
            value == self@[address as int],
    {
        self.mem[address as usize]
    }

    /// Writes a cell. Every cell is plain storage to a write.
    pub fn write(&mut self, address: u16, val: u16)
        ensures
            final(self)@ == old(self)@.update(address as int, val),
    {
        self.mem[address as usize] = val;
    }
}

} // verus!
