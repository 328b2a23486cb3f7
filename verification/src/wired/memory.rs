//! The data memory, wire by wire: the RAM, the two halves of the screen and
//! the keyboard register behind one address of fifteen wires.
//!
//! Every chip of the memory is clocked together, so between two ticks each
//! register is settled: its clock is low and nothing is pending in it but
//! what it holds.

use crate::chip::mem::{
    address_value, lemma_address_value_bound, lemma_address_value_split,
    lemma_address_value_zero, lemma_weights, low_wires,
};
use crate::memory::{KEYBOARD_ADDRESS, SCREEN_BASE};
use crate::wired::chip::mem::{zeros, Cell, Ram16k, Ram4k, Register};
use crate::wired::chip::{and, mux16, not};
use vstd::prelude::*;

verus! {

/// What the registers hold.
pub open spec fn stored_of(regs: Seq<Cell<Seq<bool>>>) -> Seq<Seq<bool>> {
    Seq::new(regs.len(), |i: int| regs[i].stored)
}

/// Whether every register is settled.
pub open spec fn all_settled(regs: Seq<Cell<Seq<bool>>>) -> bool {
    forall|i: int| 0 <= i < regs.len() ==> (#[trigger] regs[i]).settled()
}

pub struct Memory {
    address: [bool; 15],
    load: bool,
    input: [bool; 16],
    ram: Ram16k,
    screen: [Ram4k; 2],
    keyboard: Register,
}

impl Memory {
    /// The address that the last tick latched.
    pub closed spec fn addr(&self) -> int {
        address_value(self.address@)
    }

    /// The 16384 words of the RAM.
    pub closed spec fn ram_cells(&self) -> Seq<Seq<bool>> {
        stored_of(self.ram.regs())
    }

    /// The 8192 words of the screen.
    pub closed spec fn screen_cells(&self) -> Seq<Seq<bool>> {
        stored_of(self.screen[0].regs()) + stored_of(self.screen[1].regs())
    }

    /// The word that the keyboard register holds.
    pub closed spec fn key_code(&self) -> Seq<bool> {
        self.keyboard@.stored
    }

    /// Every register is settled, and the RAM and the screen stand at the
    /// address that the memory stands at.
    pub closed spec fn wf(&self) -> bool {
        &&& all_settled(self.ram.regs())
        &&& all_settled(self.screen[0].regs())
        &&& all_settled(self.screen[1].regs())
        &&& self.keyboard@.settled()
        &&& self.ram.addr() == self.addr() % 0x4000
        &&& self.screen[0].addr() == self.addr() % 0x1000
        &&& self.screen[1].addr() == self.addr() % 0x1000
    }

    /// The word at address `at`. From the keyboard's address on, the keyboard answers.
    pub open spec fn read_at(&self, at: int) -> Seq<bool> {
        if at < SCREEN_BASE {
            self.ram_cells()[at]
        } else if at < KEYBOARD_ADDRESS {
            self.screen_cells()[at - SCREEN_BASE]
        } else {
            self.key_code()
        }
    }

    /// The RAM has 16384 words and the screen 8192; an address is below 32768.
    pub proof fn lemma_size(&self)
        ensures
            self.ram_cells().len() == 0x4000,
            self.screen_cells().len() == 0x2000,
            0 <= self.addr() < 0x8000,
    {
        self.ram.lemma_size();
        self.screen[0].lemma_size();
        self.screen[1].lemma_size();
        lemma_address_value_bound(self.address@);
        lemma_weights();
    }

    /// A memory of zeros, addressed at word 0.
    pub fn new() -> (r: Self)
        ensures
            r.wf(),
            r.addr() == 0,
            r.ram_cells() == Seq::new(0x4000, |i: int| zeros()),
            r.screen_cells() == Seq::new(0x2000, |i: int| zeros()),
            r.key_code() == zeros(),
    {
        let r = Self {
            address: [false; 15],
            load: false,
            input: [false; 16],
            ram: Ram16k::new(),
            screen: [Ram4k::new(), Ram4k::new()],
            keyboard: Register::new(),
        };
        proof {
            lemma_address_value_zero(r.address@);
            assert(r.ram_cells() =~= Seq::new(0x4000, |i: int| zeros()));
            assert(r.screen_cells() =~= Seq::new(0x2000, |i: int| zeros()));
        }
        r
    }

    /// The word at the latched address.
    pub fn get_output(&self) -> (r: [bool; 16])
        requires
            self.wf(),
        ensures
            r@ == self.read_at(self.addr()),
    {
        proof {
            self.lemma_size();
            lemma_weights();
            lemma_address_value_split(self.address@, 1);
            lemma_address_value_split(self.address@.skip(1), 1);
            lemma_address_value_split(self.address@.skip(1).skip(1), 1);
            lemma_address_value_bound(self.address@.skip(1).skip(1).skip(1));
            lemma_single_wire(self.address@.take(1));
            lemma_single_wire(self.address@.skip(1).take(1));
            lemma_single_wire(self.address@.skip(1).skip(1).take(1));
            self.screen[0].lemma_size();
            self.screen[1].lemma_size();
        }
        mux16(
            &self.ram.get_output(),
            &mux16(
                &mux16(
                    &self.screen[0].get_output(),
                    &self.screen[1].get_output(),
                    self.address[2],
                ),
                &self.keyboard.get_output(),
                self.address[1],
            ),
            self.address[0],
        )
    }

    /// Latches the address and, if `load` is high, writes the input there:
    /// to the RAM or to the screen. The keyboard register takes no writes:
    /// its load line is kept low. An address above that of the keyboard is
    /// not accepted.
    pub fn tick(&mut self, address: &[bool; 15], load: bool, input: &[bool; 16])
        requires
            old(self).wf(),
            address_value(address@) <= KEYBOARD_ADDRESS,
        ensures
            final(self).wf(),
            final(self).addr() == address_value(address@),
            final(self).ram_cells() == if load && address_value(address@) < SCREEN_BASE {
                old(self).ram_cells().update(address_value(address@), input@)
            } else {
                old(self).ram_cells()
            },
            final(self).screen_cells() == if load && SCREEN_BASE <= address_value(address@)
                < KEYBOARD_ADDRESS {
                old(self).screen_cells().update(address_value(address@) - SCREEN_BASE, input@)
            } else {
                old(self).screen_cells()
            },
            final(self).key_code() == old(self).key_code(),
    {
        proof {
            old(self).lemma_size();
            lemma_weights();
            lemma_address_value_split(address@, 1);
            lemma_address_value_split(address@.skip(1), 1);
            lemma_address_value_split(address@.skip(1).skip(1), 1);
            lemma_address_value_bound(address@.skip(1));
            lemma_address_value_bound(address@.skip(1).skip(1));
            lemma_address_value_bound(address@.skip(1).skip(1).skip(1));
            lemma_single_wire(address@.take(1));
            lemma_single_wire(address@.skip(1).take(1));
            lemma_single_wire(address@.skip(1).skip(1).take(1));
            assert(address@.skip(1).skip(1) =~= address@.skip(2));
            assert(address@.skip(1).skip(1).skip(1) =~= address@.skip(3));
            old(self).screen[0].lemma_size();
            old(self).screen[1].lemma_size();
        }
        self.address = *address;
        self.load = load;
        self.input = *input;
        let ram_address: [bool; 14] = low_wires(address);
        let screen_address: [bool; 12] = low_wires(address);
        self.ram.set_load(and(not(address[0]), load));
        self.ram.set_input(input, &ram_address);
        self.ram.tick();
        self.screen[0].set_load(and(and(and(address[0], not(address[1])), not(address[2])), load));
        self.screen[0].set_input(input, &screen_address);
        self.screen[0].tick();
        self.screen[1].set_load(and(and(and(address[0], not(address[1])), address[2]), load));
        self.screen[1].set_input(input, &screen_address);
        self.screen[1].tick();
        self.keyboard.set_load(false);
        self.keyboard.set_input(input);
        self.keyboard.tick();
        proof {
            let at = address_value(address@);
            if load && at < SCREEN_BASE {
                assert(final(self).ram_cells() =~= old(self).ram_cells().update(at, input@));
            } else {
                assert(final(self).ram_cells() =~= old(self).ram_cells());
            }
            if load && SCREEN_BASE <= at < KEYBOARD_ADDRESS {
                assert(final(self).screen_cells() =~= old(self).screen_cells().update(
                    at - SCREEN_BASE,
                    input@,
                ));
            } else {
                assert(final(self).screen_cells() =~= old(self).screen_cells());
            }
        }
    }
}

/// One wire carries 0 or 1.
proof fn lemma_single_wire(a: Seq<bool>)
    requires
        a.len() == 1,
    ensures
        address_value(a) == if a[0] { 1int } else { 0int },
{
    reveal_with_fuel(address_value, 2);
    assert(a.drop_last().len() == 0);
}

} // verus!
