//! The data memory: one address space of fifteen wires over the RAM, the
//! screen and the keyboard.
//!
//! | addresses       | what answers              |
//! |-----------------|---------------------------|
//! | 0x0000 - 0x3fff | the RAM, 16384 words      |
//! | 0x4000 - 0x5fff | the screen, 8192 words    |
//! | 0x6000          | the keyboard, one word    |
//!
//! Nothing is mapped above 0x6000: a write there is not accepted.

use crate::chip::basic::{and, mux, not};
use crate::chip::mem::{
    address_value, lemma_address_value_bound, lemma_address_value_split, lemma_weights, low_wires,
    Ram16k,
};
use crate::keyboard::Keyboard;
use crate::screen::Screen;
use crate::signal::Word;
use vstd::prelude::*;

verus! {

/// The first address of the screen.
pub const SCREEN_BASE: usize = 0x4000;

/// The address of the keyboard, and the last that is mapped.
pub const KEYBOARD_ADDRESS: usize = 0x6000;

pub struct Memory<S: Screen, K: Keyboard> {
    address: [bool; 15],
    ram: Ram16k<Word>,
    screen: S,
    keyboard: K,
}

impl<S: Screen, K: Keyboard> Memory<S, K> {
    /// The address that the last tick latched.
    pub closed spec fn addr(&self) -> int {
        address_value(self.address@)
    }

    /// The 16384 words of the RAM.
    pub closed spec fn ram_cells(&self) -> Seq<Word> {
        self.ram.cells()
    }

    /// The 8192 words of the screen.
    pub closed spec fn screen_cells(&self) -> Seq<Word> {
        self.screen.cells()
    }

    /// The screen.
    pub closed spec fn display(&self) -> S {
        self.screen
    }

    /// The keyboard.
    pub closed spec fn keys(&self) -> K {
        self.keyboard
    }

    /// The word that the keyboard shows.
    pub open spec fn key_code(&self) -> Word {
        self.keys().code()
    }

    /// The RAM and the screen stand at the address that the memory stands at.
    pub closed spec fn wf(&self) -> bool {
        &&& self.ram.addr() == self.addr() % 0x4000
        &&& self.screen.addr() == self.addr() % 0x2000
    }

    /// The word at address `at`. From the keyboard's address on, the keyboard answers.
    pub open spec fn read_at(&self, at: int) -> Word {
        if at < SCREEN_BASE {
            self.ram_cells()[at]
        } else if at < KEYBOARD_ADDRESS {
            self.screen_cells()[at - SCREEN_BASE]
        } else {
            self.key_code()
        }
    }

    /// The RAM has 16384 words and the screen 8192; an address is below 32768.
    pub proof fn lemma_size(&self)
        ensures
            self.ram_cells().len() == 0x4000,
            self.screen_cells().len() == 0x2000,
            0 <= self.addr() < 0x8000,
    {
        self.ram.lemma_size();
        self.screen.lemma_size();
        lemma_address_value_bound(self.address@);
        lemma_weights();
    }

    /// A memory of zeros, addressed at word 0.
    pub fn new() -> (r: Self)
        ensures
            r.wf(),
            r.addr() == 0,
            r.ram_cells() == Seq::new(0x4000, |i: int| Word(0)),
            r.screen_cells() == Seq::new(0x2000, |i: int| Word(0)),
            r.key_code() == Word(0),
    {
        let r = Self {
            address: [false; 15],
            ram: Ram16k::new(),
            screen: S::new(),
            keyboard: K::new(),
        };
        proof {
            crate::chip::mem::lemma_address_value_zero(r.address@);
            assert(r.ram.cells() =~= Seq::new(0x4000, |i: int| Word(0)));
        }
        r
    }

    /// The word at the latched address.
    pub fn get_output(&self) -> (r: Word)
        requires
            self.wf(),
        ensures
            r == self.read_at(self.addr()),
    {
        proof {
            self.lemma_size();
            lemma_address_value_split(self.address@, 1);
            lemma_address_value_split(self.address@.skip(1), 1);
            lemma_weights();
            lemma_address_value_bound(self.address@.skip(1).skip(1));
            lemma_single_wire(self.address@.take(1));
            lemma_single_wire(self.address@.skip(1).take(1));
        }
        mux(
            self.ram.get_output(),
            mux(self.screen.get_output(), self.keyboard.get_output(), self.address[1]),
            self.address[0],
        )
    }

    /// Latches the address and, if `load` is high, writes the input there:
    /// to the RAM or to the screen. The keyboard takes no writes.
    pub fn tick(&mut self, address: &[bool; 15], load: bool, input: Word)
        requires
            old(self).wf(),
            load ==> address_value(address@) <= KEYBOARD_ADDRESS,
        ensures
            final(self).wf(),
            final(self).addr() == address_value(address@),
            final(self).ram_cells() == if load && address_value(address@) < SCREEN_BASE {
                old(self).ram_cells().update(address_value(address@), input)
            } else {
                old(self).ram_cells()
            },
            final(self).screen_cells() == if load && SCREEN_BASE <= address_value(address@)
                < KEYBOARD_ADDRESS {
                old(self).screen_cells().update(address_value(address@) - SCREEN_BASE, input)
            } else {
                old(self).screen_cells()
            },
            final(self).key_code() == old(self).key_code(),
    {
        proof {
            lemma_address_value_split(address@, 1);
            lemma_address_value_split(address@.skip(1), 1);
            lemma_weights();
            lemma_address_value_bound(address@.skip(1));
            lemma_address_value_bound(address@.skip(1).skip(1));
            lemma_single_wire(address@.take(1));
            lemma_single_wire(address@.skip(1).take(1));
            assert(address@.skip(1).skip(1) =~= address@.skip(2));
        }
        self.address = *address;
        let ram_address: [bool; 14] = low_wires(address);
        let screen_address: [bool; 13] = low_wires(address);
        self.ram.tick(&ram_address, and(not(address[0]), load), input);
        self.screen.tick(&screen_address, and(and(address[0], not(address[1])), load), input);
    }

    /// Hands an event to the keyboard: the keyboard takes it, and nothing
    /// else changes.
    pub fn set_keystate(&mut self, state: K::State)
        requires
            old(self).wf(),
        ensures
            final(self).wf(),
            old(self).keys().takes(state, &final(self).keys()),
            final(self).addr() == old(self).addr(),
            final(self).ram_cells() == old(self).ram_cells(),
            final(self).screen_cells() == old(self).screen_cells(),
            final(self).display() == old(self).display(),
    {
        self.keyboard.set_state(state);
    }

    /// The screen.
    pub fn screen(&self) -> (r: &S)
        ensures
            *r == self.display(),
    {
        &self.screen
    }
}

/// One wire carries 0 or 1.
proof fn lemma_single_wire(a: Seq<bool>)
    requires
        a.len() == 1,
    ensures
        address_value(a) == if a[0] { 1int } else { 0int },
{
    reveal_with_fuel(address_value, 2);
    assert(a.drop_last().len() == 0);
}

} // verus!
