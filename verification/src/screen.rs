//! The screen: 8192 words of memory, one bit for each pixel of 512 by 256.

use crate::chip::mem::{address_value, Ram8k};
use crate::signal::Word;
use vstd::prelude::*;

pub mod wgpu;

verus! {

/// What the memory map asks of a screen: it is a RAM of 8192 words behind an
/// address of thirteen wires.
pub trait Screen: Sized {
    /// The 8192 words, by address.
    spec fn cells(&self) -> Seq<Word>;

    /// The address that the last tick latched.
    spec fn addr(&self) -> int;

    /// There are 8192 words.
    proof fn lemma_size(&self)
        ensures
            self.cells().len() == 8192,
    ;

    /// A dark screen, addressed at word 0.
    fn new() -> (r: Self)
        ensures
            r.addr() == 0,
            r.cells() == Seq::new(8192, |i: int| Word(0)),
    ;

    /// The word at the latched address.
    fn get_output(&self) -> (r: Word)
        ensures
            0 <= self.addr() < 8192,
            r == self.cells()[self.addr()],
    ;

    /// Latches the address and, if `load` is high, writes the input there.
    fn tick(&mut self, address: &[bool; 13], load: bool, input: Word)
        ensures
            0 <= address_value(address@) < 8192,
            final(self).addr() == address_value(address@),
            final(self).cells() == if load {
                old(self).cells().update(address_value(address@), input)
            } else {
                old(self).cells()
            },
    ;
}

/// A screen that nobody looks at.
pub struct DummyScreen {
    ram: Ram8k<Word>,
}

impl Screen for DummyScreen {
    closed spec fn cells(&self) -> Seq<Word> {
        self.ram.cells()
    }

    closed spec fn addr(&self) -> int {
        self.ram.addr()
    }

    proof fn lemma_size(&self) {
        self.ram.lemma_size();
    }

    fn new() -> (r: Self) {
        Self { ram: Ram8k::new() }
    }

    fn get_output(&self) -> (r: Word) {
        self.ram.get_output()
    }

    fn tick(&mut self, address: &[bool; 13], load: bool, input: Word) {
        proof {
            self.ram.lemma_size();
        }
        self.ram.tick(address, load, input);
    }
}

} // verus!
