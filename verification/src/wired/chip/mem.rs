//! Sequential chips with an explicit clock line.
//!
//! A flip-flop stores what is pending on its input when its clock goes from
//! low to high. A register is a flip-flop behind a multiplexer: what it
//! takes as pending is its input where `load` is high, and what it holds
//! where `load` is low. A RAM is a bank of registers: `set_load` and
//! `set_clock` reach every register, `set_input` the addressed one.

use crate::chip::arith::wrapping_sum;
use crate::chip::mem::{
    address_value, high_wires, lemma_address_value_bound, lemma_address_value_split,
    lemma_address_value_zero, lemma_weights, low_wires,
};
use crate::signal::{lemma_wires_of_pack, pack, wires_of};
use crate::wired::chip::arith::inc16;
use crate::wired::chip::{mux, mux16};
use vstd::prelude::*;

verus! {

/// What a flip-flop holds: the value pending on its input, the value stored,
/// and the level of its clock.
pub struct Latch<T> {
    pub pending: T,
    pub stored: T,
    pub clock: bool,
}

impl<T> Latch<T> {
    /// The latch after its clock was set: a rising edge stores what is pending.
    pub open spec fn clocked(self, clock: bool) -> Self {
        Latch {
            pending: self.pending,
            stored: if !self.clock && clock {
                self.pending
            } else {
                self.stored
            },
            clock,
        }
    }

    /// The latch after one pulse of the clock.
    pub open spec fn ticked(self) -> Self {
        self.clocked(true).clocked(false)
    }
}

/// What a register holds: its load line and its flip-flop.
pub struct Cell<T> {
    pub load: bool,
    pub pending: T,
    pub stored: T,
    pub clock: bool,
}

impl<T> Cell<T> {
    /// The cell after its load line was set.
    pub open spec fn loaded(self, load: bool) -> Self {
        Cell { load, pending: self.pending, stored: self.stored, clock: self.clock }
    }

    /// The cell after `input` was put on its input: it is taken as pending
    /// where `load` is high; else what is stored is.
    pub open spec fn fed(self, input: T) -> Self {
        Cell {
            load: self.load,
            pending: if self.load {
                input
            } else {
                self.stored
            },
            stored: self.stored,
            clock: self.clock,
        }
    }

    /// The cell after its clock was set: a rising edge stores what is pending.
    pub open spec fn clocked(self, clock: bool) -> Self {
        Cell {
            load: self.load,
            pending: self.pending,
            stored: if !self.clock && clock {
                self.pending
            } else {
                self.stored
            },
            clock,
        }
    }

    /// The cell after one pulse of the clock.
    pub open spec fn ticked(self) -> Self {
        self.clocked(true).clocked(false)
    }

    /// The clock is low and nothing else is pending than what is stored: a
    /// pulse of the clock changes nothing.
    pub open spec fn settled(self) -> bool {
        !self.clock && self.pending == self.stored
    }
}

/// Sixteen wires, all low.
pub open spec fn zeros() -> Seq<bool> {
    Seq::new(16, |i: int| false)
}

/// A flip-flop of one bit.
pub struct Dff {
    input: bool,
    output: bool,
    clock: bool,
}

impl View for Dff {
    type V = Latch<bool>;

    closed spec fn view(&self) -> Latch<bool> {
        Latch { pending: self.input, stored: self.output, clock: self.clock }
    }
}

impl Dff {
    pub fn new() -> (r: Self)
        ensures
            r@ == (Latch { pending: false, stored: false, clock: false }),
    {
        Self { input: false, output: false, clock: false }
    }

    pub fn set_input(&mut self, input: bool)
        ensures
            final(self)@ == (Latch { pending: input, ..old(self)@ }),
    {
        self.input = input;
    }

    pub fn get_output(&self) -> (r: bool)
        ensures
            r == self@.stored,
    {
        self.output
    }

    pub fn tick(&mut self)
        ensures
            final(self)@ == old(self)@.ticked(),
    {
        self.set_clock(true);
        self.set_clock(false);
    }

    pub fn set_clock(&mut self, clock: bool)
        ensures
            final(self)@ == old(self)@.clocked(clock),
    {
        if !self.clock && clock {
            self.output = self.input;
        }
        self.clock = clock;
    }
}

/// A flip-flop of sixteen bits.
pub struct Dff16 {
    input: [bool; 16],
    output: [bool; 16],
    clock: bool,
}

impl View for Dff16 {
    type V = Latch<Seq<bool>>;

    closed spec fn view(&self) -> Latch<Seq<bool>> {
        Latch { pending: self.input@, stored: self.output@, clock: self.clock }
    }
}

impl Dff16 {
    pub fn new() -> (r: Self)
        ensures
            r@ == (Latch { pending: zeros(), stored: zeros(), clock: false }),
    {
        let r = Self { input: [false; 16], output: [false; 16], clock: false };
        assert(r.input@ =~= zeros());
        assert(r.output@ =~= zeros());
        r
    }

    pub fn set_input(&mut self, input: &[bool; 16])
        ensures
            final(self)@ == (Latch { pending: input@, ..old(self)@ }),
    {
        self.input = *input;
    }

    pub fn get_output(&self) -> (r: [bool; 16])
        ensures
            r@ == self@.stored,
    {
        self.output
    }

    pub fn tick(&mut self)
        ensures
            final(self)@ == old(self)@.ticked(),
    {
        self.set_clock(true);
        self.set_clock(false);
    }

    pub fn set_clock(&mut self, clock: bool)
        ensures
            final(self)@ == old(self)@.clocked(clock),
    {
        if !self.clock && clock {
            self.output = self.input;
        }
        self.clock = clock;
    }
}

/// A register of one bit.
pub struct Bit {
    load: bool,
    dff: Dff,
}

impl View for Bit {
    type V = Cell<bool>;

    closed spec fn view(&self) -> Cell<bool> {
        Cell {
            load: self.load,
            pending: self.dff@.pending,
            stored: self.dff@.stored,
            clock: self.dff@.clock,
        }
    }
}

impl Bit {
    pub fn new() -> (r: Self)
        ensures
            r@ == (Cell { load: false, pending: false, stored: false, clock: false }),
    {
        Self { load: false, dff: Dff::new() }
    }

    pub fn set_load(&mut self, load: bool)
        ensures
            final(self)@ == old(self)@.loaded(load),
    {
        self.load = load;
    }

    pub fn set_input(&mut self, input: bool)
        ensures
            final(self)@ == old(self)@.fed(input),
    {
        self.dff.set_input(mux(self.get_output(), input, self.load));
    }

    pub fn get_output(&self) -> (r: bool)
        ensures
            r == self@.stored,
    {
        self.dff.get_output()
    }

    pub fn tick(&mut self)
        ensures
            final(self)@ == old(self)@.ticked(),
    {
        self.set_clock(true);
        self.set_clock(false);
    }

    pub fn set_clock(&mut self, clock: bool)
        ensures
            final(self)@ == old(self)@.clocked(clock),
    {
        self.dff.set_clock(clock);
    }
}

/// A register of sixteen bits.
pub struct Register {
    load: bool,
    dff: Dff16,
}

impl View for Register {
    type V = Cell<Seq<bool>>;

    closed spec fn view(&self) -> Cell<Seq<bool>> {
        Cell {
            load: self.load,
            pending: self.dff@.pending,
            stored: self.dff@.stored,
            clock: self.dff@.clock,
        }
    }
}

impl Register {
    pub fn new() -> (r: Self)
        ensures
            r@ == (Cell { load: false, pending: zeros(), stored: zeros(), clock: false }),
    {
        Self { load: false, dff: Dff16::new() }
    }

    pub fn set_load(&mut self, load: bool)
        ensures
            final(self)@ == old(self)@.loaded(load),
    {
        self.load = load;
    }

    pub fn set_input(&mut self, input: &[bool; 16])
        ensures
            final(self)@ == old(self)@.fed(input@),
    {
        self.dff.set_input(&mux16(&self.get_output(), input, self.load));
    }

    pub fn get_output(&self) -> (r: [bool; 16])
        ensures
            r@ == self@.stored,
    {
        self.dff.get_output()
    }

    pub fn tick(&mut self)
        ensures
            final(self)@ == old(self)@.ticked(),
    {
        self.set_clock(true);
        self.set_clock(false);
    }

    pub fn set_clock(&mut self, clock: bool)
        ensures
            final(self)@ == old(self)@.clocked(clock),
    {
        self.dff.set_clock(clock);
    }
}

/// A fresh register.
pub open spec fn blank() -> Cell<Seq<bool>> {
    Cell { load: false, pending: zeros(), stored: zeros(), clock: false }
}

/// Eight registers behind an address of three wires.
pub struct Ram8 {
    registers: [Register; 8],
    address: [bool; 3],
}

impl Ram8 {
    /// The 8 registers, by address.
    pub closed spec fn regs(&self) -> Seq<Cell<Seq<bool>>> {
        Seq::new(8, |i: int| self.registers[i]@)
    }

    /// The address that was set last.
    pub closed spec fn addr(&self) -> int {
        address_value(self.address@)
    }

    /// There are 8 registers.
    pub proof fn lemma_size(&self)
        ensures
            self.regs().len() == 8,
    {
    }

    /// A RAM of fresh registers, addressed at register 0.
    pub fn new() -> (r: Self)
        ensures
            r.addr() == 0,
            r.regs() == Seq::new(8, |i: int| blank()),
    {
        let r = Self {
            registers: [
                Register::new(),
                Register::new(),
                Register::new(),
                Register::new(),
                Register::new(),
                Register::new(),
                Register::new(),
                Register::new(),
            ],
            address: [false; 3],
        };
        proof {
            lemma_address_value_zero(r.address@);
            assert(r.regs() =~= Seq::new(8, |i: int| blank()));
        }
        r
    }

    /// Sets the load line of every register.
    pub fn set_load(&mut self, load: bool)
        ensures
            final(self).addr() == old(self).addr(),
            final(self).regs() == Seq::new(8, |i: int| old(self).regs()[i].loaded(load)),
    {
        let mut i: usize = 0;
        while i < 8
            invariant
                i <= 8,
                self.address == old(self).address,
                forall|j: int|
                    0 <= j < i ==> (#[trigger] self.registers[j])@ == old(
                        self,
                    ).registers[j]@.loaded(load),
                forall|j: int|
                    i <= j < 8 ==> #[trigger] self.registers[j] == old(self).registers[j],
            decreases 8 - i,
        {
            self.registers[i].set_load(load);
            i += 1;
        }
        assert(final(self).regs() =~= Seq::new(8, |i: int| old(self).regs()[i].loaded(load)));
    }

    /// Sets the address, and puts `input` on the input of the register there.
    pub fn set_input(&mut self, input: &[bool; 16], address: &[bool; 3])
        ensures
            0 <= address_value(address@) < 8,
            final(self).addr() == address_value(address@),
            final(self).regs() == old(self).regs().update(
                address_value(address@),
                old(self).regs()[address_value(address@)].fed(input@),
            ),
    {
        proof {
            lemma_weights();
            lemma_address_value_bound(address@);
            assert(address@.take(3) =~= address@);
        }
        self.address = *address;
        self.registers[high_wires(address, 3)].set_input(input);
        assert(final(self).regs() =~= old(self).regs().update(
            address_value(address@),
            old(self).regs()[address_value(address@)].fed(input@),
        ));
    }

    /// What the register at the address holds.
    pub fn get_output(&self) -> (r: [bool; 16])
        ensures
            0 <= self.addr() < 8,
            r@ == self.regs()[self.addr()].stored,
    {
        proof {
            lemma_weights();
            lemma_address_value_bound(self.address@);
            assert(self.address@.take(3) =~= self.address@);
        }
        self.registers[high_wires(&self.address, 3)].get_output()
    }

    /// One pulse of the clock, for every register.
    pub fn tick(&mut self)
        ensures
            final(self).addr() == old(self).addr(),
            final(self).regs() == Seq::new(8, |i: int| old(self).regs()[i].ticked()),
    {
        self.set_clock(true);
        self.set_clock(false);
        assert(final(self).regs() =~= Seq::new(8, |i: int| old(self).regs()[i].ticked()));
    }

    /// Sets the clock line of every register.
    pub fn set_clock(&mut self, clock: bool)
        ensures
            final(self).addr() == old(self).addr(),
            final(self).regs() == Seq::new(8, |i: int| old(self).regs()[i].clocked(clock)),
    {
        let mut i: usize = 0;
        while i < 8
            invariant
                i <= 8,
                self.address == old(self).address,
                forall|j: int|
                    0 <= j < i ==> (#[trigger] self.registers[j])@ == old(
                        self,
                    ).registers[j]@.clocked(clock),
                forall|j: int|
                    i <= j < 8 ==> #[trigger] self.registers[j] == old(self).registers[j],
            decreases 8 - i,
        {
            self.registers[i].set_clock(clock);
            i += 1;
        }
        assert(final(self).regs() =~= Seq::new(8, |i: int| old(self).regs()[i].clocked(clock)));
    }
}

/// Eight `Ram8` behind an address of six wires: the first three pick the `Ram8`.
pub struct Ram64 {
    rams: [Ram8; 8],
    address: [bool; 6],
}

impl Ram64 {
    /// The 64 registers, by address.
    pub closed spec fn regs(&self) -> Seq<Cell<Seq<bool>>> {
        Seq::new(64, |i: int| self.rams[i / 8].regs()[i % 8])
    }

    /// The address that was set last.
    pub closed spec fn addr(&self) -> int {
        let high = address_value(self.address@.take(3));
        high * 8 + self.rams[high].addr()
    }

    /// There are 64 registers.
    pub proof fn lemma_size(&self)
        ensures
            self.regs().len() == 64,
    {
    }

    /// A RAM of fresh registers, addressed at register 0.
    pub fn new() -> (r: Self)
        ensures
            r.addr() == 0,
            r.regs() == Seq::new(64, |i: int| blank()),
    {
        let r = Self {
            rams: [
                Ram8::new(),
                Ram8::new(),
                Ram8::new(),
                Ram8::new(),
                Ram8::new(),
                Ram8::new(),
                Ram8::new(),
                Ram8::new(),
            ],
            address: [false; 6],
        };
        proof {
            lemma_address_value_zero(r.address@);
            lemma_address_value_zero(r.address@.take(3));
            assert(r.regs() =~= Seq::new(64, |i: int| blank()));
        }
        r
    }

    /// Sets the load line of every register.
    pub fn set_load(&mut self, load: bool)
        ensures
            final(self).addr() == old(self).addr(),
            final(self).regs() == Seq::new(64, |i: int| old(self).regs()[i].loaded(load)),
    {
        let mut i: usize = 0;
        while i < 8
            invariant
                i <= 8,
                self.address == old(self).address,
                forall|j: int|
                    0 <= j < i ==> (#[trigger] self.rams[j]).regs() == Seq::new(
                        8,
                        |k: int| old(self).rams[j].regs()[k].loaded(load),
                    ) && self.rams[j].addr() == old(self).rams[j].addr(),
                forall|j: int| i <= j < 8 ==> #[trigger] self.rams[j] == old(self).rams[j],
            decreases 8 - i,
        {
            self.rams[i].set_load(load);
            i += 1;
        }
        proof {
            assert forall|j: int| 0 <= j < 8 implies (#[trigger] old(self).rams[j]).regs().len()
                == 8 by {
                old(self).rams[j].lemma_size();
            }
            lemma_weights();
            lemma_address_value_bound(self.address@.take(3));
            let at = address_value(self.address@.take(3));
            assert(self.rams[at].addr() == old(self).rams[at].addr());
        }
        assert(final(self).regs() =~= Seq::new(64, |i: int| old(self).regs()[i].loaded(load)));
    }

    /// Sets the address, and puts `input` on the input of the register there.
    pub fn set_input(&mut self, input: &[bool; 16], address: &[bool; 6])
        ensures
            0 <= address_value(address@) < 64,
            final(self).addr() == address_value(address@),
            final(self).regs() == old(self).regs().update(
                address_value(address@),
                old(self).regs()[address_value(address@)].fed(input@),
            ),
    {
        let ad: [bool; 3] = low_wires(address);
        proof {
            lemma_weights();
            lemma_address_value_bound(address@);
            lemma_address_value_split(address@, 3);
            lemma_address_value_bound(ad@);
            lemma_address_value_bound(address@.take(3));
            old(self).rams[address_value(address@.take(3))].lemma_size();
        }
        self.address = *address;
        self.rams[high_wires(address, 3)].set_input(input, &ad);
        assert(final(self).regs() =~= old(self).regs().update(
            address_value(address@),
            old(self).regs()[address_value(address@)].fed(input@),
        ));
    }

    /// What the register at the address holds.
    pub fn get_output(&self) -> (r: [bool; 16])
        ensures
            0 <= self.addr() < 64,
            r@ == self.regs()[self.addr()].stored,
    {
        proof {
            lemma_weights();
            lemma_address_value_bound(self.address@.take(3));
        }
        self.rams[high_wires(&self.address, 3)].get_output()
    }

    /// One pulse of the clock, for every register.
    pub fn tick(&mut self)
        ensures
            final(self).addr() == old(self).addr(),
            final(self).regs() == Seq::new(64, |i: int| old(self).regs()[i].ticked()),
    {
        self.set_clock(true);
        self.set_clock(false);
        assert(final(self).regs() =~= Seq::new(64, |i: int| old(self).regs()[i].ticked()));
    }

    /// Sets the clock line of every register.
    pub fn set_clock(&mut self, clock: bool)
        ensures
            final(self).addr() == old(self).addr(),
            final(self).regs() == Seq::new(64, |i: int| old(self).regs()[i].clocked(clock)),
    {
        let mut i: usize = 0;
        while i < 8
            invariant
                i <= 8,
                self.address == old(self).address,
                forall|j: int|
                    0 <= j < i ==> (#[trigger] self.rams[j]).regs() == Seq::new(
                        8,
                        |k: int| old(self).rams[j].regs()[k].clocked(clock),
                    ) && self.rams[j].addr() == old(self).rams[j].addr(),
                forall|j: int| i <= j < 8 ==> #[trigger] self.rams[j] == old(self).rams[j],
            decreases 8 - i,
        {
            self.rams[i].set_clock(clock);
            i += 1;
        }
        proof {
            assert forall|j: int| 0 <= j < 8 implies (#[trigger] old(self).rams[j]).regs().len()
                == 8 by {
                old(self).rams[j].lemma_size();
            }
            lemma_weights();
            lemma_address_value_bound(self.address@.take(3));
            let at = address_value(self.address@.take(3));
            assert(self.rams[at].addr() == old(self).rams[at].addr());
        }
        assert(final(self).regs() =~= Seq::new(64, |i: int| old(self).regs()[i].clocked(clock)));
    }
}

/// Eight `Ram64` behind an address of nine wires.
pub struct Ram512 {
    rams: [Ram64; 8],
    address: [bool; 9],
}

impl Ram512 {
    /// The 512 registers, by address.
    pub closed spec fn regs(&self) -> Seq<Cell<Seq<bool>>> {
        Seq::new(512, |i: int| self.rams[i / 64].regs()[i % 64])
    }

    /// The address that was set last.
    pub closed spec fn addr(&self) -> int {
        let high = address_value(self.address@.take(3));
        high * 64 + self.rams[high].addr()
    }

    /// There are 512 registers.
    pub proof fn lemma_size(&self)
        ensures
            self.regs().len() == 512,
    {
    }

    /// A RAM of fresh registers, addressed at register 0.
    pub fn new() -> (r: Self)
        ensures
            r.addr() == 0,
            r.regs() == Seq::new(512, |i: int| blank()),
    {
        let r = Self {
            rams: [
                Ram64::new(),
                Ram64::new(),
                Ram64::new(),
                Ram64::new(),
                Ram64::new(),
                Ram64::new(),
                Ram64::new(),
                Ram64::new(),
            ],
            address: [false; 9],
        };
        proof {
            lemma_address_value_zero(r.address@);
            lemma_address_value_zero(r.address@.take(3));
            assert(r.regs() =~= Seq::new(512, |i: int| blank()));
        }
        r
    }

    /// Sets the load line of every register.
    pub fn set_load(&mut self, load: bool)
        ensures
            final(self).addr() == old(self).addr(),
            final(self).regs() == Seq::new(512, |i: int| old(self).regs()[i].loaded(load)),
    {
        let mut i: usize = 0;
        while i < 8
            invariant
                i <= 8,
                self.address == old(self).address,
                forall|j: int|
                    0 <= j < i ==> (#[trigger] self.rams[j]).regs() == Seq::new(
                        64,
                        |k: int| old(self).rams[j].regs()[k].loaded(load),
                    ) && self.rams[j].addr() == old(self).rams[j].addr(),
                forall|j: int| i <= j < 8 ==> #[trigger] self.rams[j] == old(self).rams[j],
            decreases 8 - i,
        {
            self.rams[i].set_load(load);
            i += 1;
        }
        proof {
            assert forall|j: int| 0 <= j < 8 implies (#[trigger] old(self).rams[j]).regs().len()
                == 64 by {
                old(self).rams[j].lemma_size();
            }
            lemma_weights();
            lemma_address_value_bound(self.address@.take(3));
            let at = address_value(self.address@.take(3));
            assert(self.rams[at].addr() == old(self).rams[at].addr());
        }
        assert(final(self).regs() =~= Seq::new(512, |i: int| old(self).regs()[i].loaded(load)));
    }

    /// Sets the address, and puts `input` on the input of the register there.
    pub fn set_input(&mut self, input: &[bool; 16], address: &[bool; 9])
        ensures
            0 <= address_value(address@) < 512,
            final(self).addr() == address_value(address@),
            final(self).regs() == old(self).regs().update(
                address_value(address@),
                old(self).regs()[address_value(address@)].fed(input@),
            ),
    {
        let ad: [bool; 6] = low_wires(address);
        proof {
            lemma_weights();
            lemma_address_value_bound(address@);
            lemma_address_value_split(address@, 3);
            lemma_address_value_bound(ad@);
            lemma_address_value_bound(address@.take(3));
            old(self).rams[address_value(address@.take(3))].lemma_size();
        }
        self.address = *address;
        self.rams[high_wires(address, 3)].set_input(input, &ad);
        assert(final(self).regs() =~= old(self).regs().update(
            address_value(address@),
            old(self).regs()[address_value(address@)].fed(input@),
        ));
    }

    /// What the register at the address holds.
    pub fn get_output(&self) -> (r: [bool; 16])
        ensures
            0 <= self.addr() < 512,
            r@ == self.regs()[self.addr()].stored,
    {
        proof {
            lemma_weights();
            lemma_address_value_bound(self.address@.take(3));
        }
        self.rams[high_wires(&self.address, 3)].get_output()
    }

    /// One pulse of the clock, for every register.
    pub fn tick(&mut self)
        ensures
            final(self).addr() == old(self).addr(),
            final(self).regs() == Seq::new(512, |i: int| old(self).regs()[i].ticked()),
    {
        self.set_clock(true);
        self.set_clock(false);
        assert(final(self).regs() =~= Seq::new(512, |i: int| old(self).regs()[i].ticked()));
    }

    /// Sets the clock line of every register.
    pub fn set_clock(&mut self, clock: bool)
        ensures
            final(self).addr() == old(self).addr(),
            final(self).regs() == Seq::new(512, |i: int| old(self).regs()[i].clocked(clock)),
    {
        let mut i: usize = 0;
        while i < 8
            invariant
                i <= 8,
                self.address == old(self).address,
                forall|j: int|
                    0 <= j < i ==> (#[trigger] self.rams[j]).regs() == Seq::new(
                        64,
                        |k: int| old(self).rams[j].regs()[k].clocked(clock),
                    ) && self.rams[j].addr() == old(self).rams[j].addr(),
                forall|j: int| i <= j < 8 ==> #[trigger] self.rams[j] == old(self).rams[j],
            decreases 8 - i,
        {
            self.rams[i].set_clock(clock);
            i += 1;
        }
        proof {
            assert forall|j: int| 0 <= j < 8 implies (#[trigger] old(self).rams[j]).regs().len()
                == 64 by {
                old(self).rams[j].lemma_size();
            }
            lemma_weights();
            lemma_address_value_bound(self.address@.take(3));
            let at = address_value(self.address@.take(3));
            assert(self.rams[at].addr() == old(self).rams[at].addr());
        }
        assert(final(self).regs() =~= Seq::new(512, |i: int| old(self).regs()[i].clocked(clock)));
    }
}

/// Eight `Ram512` behind an address of twelve wires. The eight are kept on
/// the heap: the RAMs above this one stay small enough to be moved about.
pub struct Ram4k {
    rams: Box<[Ram512; 8]>,
    address: [bool; 12],
}

impl Ram4k {
    /// The 4096 registers, by address.
    pub closed spec fn regs(&self) -> Seq<Cell<Seq<bool>>> {
        Seq::new(4096, |i: int| self.rams[i / 512].regs()[i % 512])
    }

    /// The address that was set last.
    pub closed spec fn addr(&self) -> int {
        let high = address_value(self.address@.take(3));
        high * 512 + self.rams[high].addr()
    }

    /// There are 4096 registers.
    pub proof fn lemma_size(&self)
        ensures
            self.regs().len() == 4096,
    {
    }

    /// A RAM of fresh registers, addressed at register 0.
    pub fn new() -> (r: Self)
        ensures
            r.addr() == 0,
            r.regs() == Seq::new(4096, |i: int| blank()),
    {
        let r = Self {
            rams: Box::new(
                [
                    Ram512::new(),
                    Ram512::new(),
                    Ram512::new(),
                    Ram512::new(),
                    Ram512::new(),
                    Ram512::new(),
                    Ram512::new(),
                    Ram512::new(),
                ],
            ),
            address: [false; 12],
        };
        proof {
            lemma_address_value_zero(r.address@);
            lemma_address_value_zero(r.address@.take(3));
            assert(r.regs() =~= Seq::new(4096, |i: int| blank()));
        }
        r
    }

    /// Sets the load line of every register.
    pub fn set_load(&mut self, load: bool)
        ensures
            final(self).addr() == old(self).addr(),
            final(self).regs() == Seq::new(4096, |i: int| old(self).regs()[i].loaded(load)),
    {
        let mut i: usize = 0;
        while i < 8
            invariant
                i <= 8,
                self.address == old(self).address,
                forall|j: int|
                    0 <= j < i ==> (#[trigger] self.rams[j]).regs() == Seq::new(
                        512,
                        |k: int| old(self).rams[j].regs()[k].loaded(load),
                    ) && self.rams[j].addr() == old(self).rams[j].addr(),
                forall|j: int| i <= j < 8 ==> #[trigger] self.rams[j] == old(self).rams[j],
            decreases 8 - i,
        {
            self.rams[i].set_load(load);
            i += 1;
        }
        proof {
            assert forall|j: int| 0 <= j < 8 implies (#[trigger] old(self).rams[j]).regs().len()
                == 512 by {
                old(self).rams[j].lemma_size();
            }
            lemma_weights();
            lemma_address_value_bound(self.address@.take(3));
            let at = address_value(self.address@.take(3));
            assert(self.rams[at].addr() == old(self).rams[at].addr());
        }
        assert(final(self).regs() =~= Seq::new(4096, |i: int| old(self).regs()[i].loaded(load)));
    }

    /// Sets the address, and puts `input` on the input of the register there.
    pub fn set_input(&mut self, input: &[bool; 16], address: &[bool; 12])
        ensures
            0 <= address_value(address@) < 4096,
            final(self).addr() == address_value(address@),
            final(self).regs() == old(self).regs().update(
                address_value(address@),
                old(self).regs()[address_value(address@)].fed(input@),
            ),
    {
        let ad: [bool; 9] = low_wires(address);
        proof {
            lemma_weights();
            lemma_address_value_bound(address@);
            lemma_address_value_split(address@, 3);
            lemma_address_value_bound(ad@);
            lemma_address_value_bound(address@.take(3));
            old(self).rams[address_value(address@.take(3))].lemma_size();
        }
        self.address = *address;
        self.rams[high_wires(address, 3)].set_input(input, &ad);
        assert(final(self).regs() =~= old(self).regs().update(
            address_value(address@),
            old(self).regs()[address_value(address@)].fed(input@),
        ));
    }

    /// What the register at the address holds.
    pub fn get_output(&self) -> (r: [bool; 16])
        ensures
            0 <= self.addr() < 4096,
            r@ == self.regs()[self.addr()].stored,
    {
        proof {
            lemma_weights();
            lemma_address_value_bound(self.address@.take(3));
        }
        self.rams[high_wires(&self.address, 3)].get_output()
    }

    /// One pulse of the clock, for every register.
    pub fn tick(&mut self)
        ensures
            final(self).addr() == old(self).addr(),
            final(self).regs() == Seq::new(4096, |i: int| old(self).regs()[i].ticked()),
    {
        self.set_clock(true);
        self.set_clock(false);
        assert(final(self).regs() =~= Seq::new(4096, |i: int| old(self).regs()[i].ticked()));
    }

    /// Sets the clock line of every register.
    pub fn set_clock(&mut self, clock: bool)
        ensures
            final(self).addr() == old(self).addr(),
            final(self).regs() == Seq::new(4096, |i: int| old(self).regs()[i].clocked(clock)),
    {
        let mut i: usize = 0;
        while i < 8
            invariant
                i <= 8,
                self.address == old(self).address,
                forall|j: int|
                    0 <= j < i ==> (#[trigger] self.rams[j]).regs() == Seq::new(
                        512,
                        |k: int| old(self).rams[j].regs()[k].clocked(clock),
                    ) && self.rams[j].addr() == old(self).rams[j].addr(),
                forall|j: int| i <= j < 8 ==> #[trigger] self.rams[j] == old(self).rams[j],
            decreases 8 - i,
        {
            self.rams[i].set_clock(clock);
            i += 1;
        }
        proof {
            assert forall|j: int| 0 <= j < 8 implies (#[trigger] old(self).rams[j]).regs().len()
                == 512 by {
                old(self).rams[j].lemma_size();
            }
            lemma_weights();
            lemma_address_value_bound(self.address@.take(3));
            let at = address_value(self.address@.take(3));
            assert(self.rams[at].addr() == old(self).rams[at].addr());
        }
        assert(final(self).regs() =~= Seq::new(4096, |i: int| old(self).regs()[i].clocked(clock)));
    }
}

/// Four `Ram4k` behind an address of fourteen wires: the first two pick the `Ram4k`.
pub struct Ram16k {
    rams: [Ram4k; 4],
    address: [bool; 14],
}

impl Ram16k {
    /// The 16384 registers, by address.
    pub closed spec fn regs(&self) -> Seq<Cell<Seq<bool>>> {
        Seq::new(16384, |i: int| self.rams[i / 4096].regs()[i % 4096])
    }

    /// The address that was set last.
    pub closed spec fn addr(&self) -> int {
        let high = address_value(self.address@.take(2));
        high * 4096 + self.rams[high].addr()
    }

    /// There are 16384 registers.
    pub proof fn lemma_size(&self)
        ensures
            self.regs().len() == 16384,
    {
    }

    /// A RAM of fresh registers, addressed at register 0.
    pub fn new() -> (r: Self)
        ensures
            r.addr() == 0,
            r.regs() == Seq::new(16384, |i: int| blank()),
    {
        let r = Self {
            rams: [
                Ram4k::new(),
                Ram4k::new(),
                Ram4k::new(),
                Ram4k::new(),
            ],
            address: [false; 14],
        };
        proof {
            lemma_address_value_zero(r.address@);
            lemma_address_value_zero(r.address@.take(2));
            assert(r.regs() =~= Seq::new(16384, |i: int| blank()));
        }
        r
    }

    /// Sets the load line of every register.
    pub fn set_load(&mut self, load: bool)
        ensures
            final(self).addr() == old(self).addr(),
            final(self).regs() == Seq::new(16384, |i: int| old(self).regs()[i].loaded(load)),
    {
        let mut i: usize = 0;
        while i < 4
            invariant
                i <= 4,
                self.address == old(self).address,
                forall|j: int|
                    0 <= j < i ==> (#[trigger] self.rams[j]).regs() == Seq::new(
                        4096,
                        |k: int| old(self).rams[j].regs()[k].loaded(load),
                    ) && self.rams[j].addr() == old(self).rams[j].addr(),
                forall|j: int| i <= j < 4 ==> #[trigger] self.rams[j] == old(self).rams[j],
            decreases 4 - i,
        {
            self.rams[i].set_load(load);
            i += 1;
        }
        proof {
            assert forall|j: int| 0 <= j < 4 implies (#[trigger] old(self).rams[j]).regs().len()
                == 4096 by {
                old(self).rams[j].lemma_size();
            }
            lemma_weights();
            lemma_address_value_bound(self.address@.take(2));
            let at = address_value(self.address@.take(2));
            assert(self.rams[at].addr() == old(self).rams[at].addr());
        }
        assert(final(self).regs() =~= Seq::new(16384, |i: int| old(self).regs()[i].loaded(load)));
    }

    /// Sets the address, and puts `input` on the input of the register there.
    pub fn set_input(&mut self, input: &[bool; 16], address: &[bool; 14])
        ensures
            0 <= address_value(address@) < 16384,
            final(self).addr() == address_value(address@),
            final(self).regs() == old(self).regs().update(
                address_value(address@),
                old(self).regs()[address_value(address@)].fed(input@),
            ),
    {
        let ad: [bool; 12] = low_wires(address);
        proof {
            lemma_weights();
            lemma_address_value_bound(address@);
            lemma_address_value_split(address@, 2);
            lemma_address_value_bound(ad@);
            lemma_address_value_bound(address@.take(2));
            old(self).rams[address_value(address@.take(2))].lemma_size();
        }
        self.address = *address;
        self.rams[high_wires(address, 2)].set_input(input, &ad);
        assert(final(self).regs() =~= old(self).regs().update(
            address_value(address@),
            old(self).regs()[address_value(address@)].fed(input@),
        ));
    }

    /// What the register at the address holds.
    pub fn get_output(&self) -> (r: [bool; 16])
        ensures
            0 <= self.addr() < 16384,
            r@ == self.regs()[self.addr()].stored,
    {
        proof {
            lemma_weights();
            lemma_address_value_bound(self.address@.take(2));
        }
        self.rams[high_wires(&self.address, 2)].get_output()
    }

    /// One pulse of the clock, for every register.
    pub fn tick(&mut self)
        ensures
            final(self).addr() == old(self).addr(),
            final(self).regs() == Seq::new(16384, |i: int| old(self).regs()[i].ticked()),
    {
        self.set_clock(true);
        self.set_clock(false);
        assert(final(self).regs() =~= Seq::new(16384, |i: int| old(self).regs()[i].ticked()));
    }

    /// Sets the clock line of every register.
    pub fn set_clock(&mut self, clock: bool)
        ensures
            final(self).addr() == old(self).addr(),
            final(self).regs() == Seq::new(16384, |i: int| old(self).regs()[i].clocked(clock)),
    {
        let mut i: usize = 0;
        while i < 4
            invariant
                i <= 4,
                self.address == old(self).address,
                forall|j: int|
                    0 <= j < i ==> (#[trigger] self.rams[j]).regs() == Seq::new(
                        4096,
                        |k: int| old(self).rams[j].regs()[k].clocked(clock),
                    ) && self.rams[j].addr() == old(self).rams[j].addr(),
                forall|j: int| i <= j < 4 ==> #[trigger] self.rams[j] == old(self).rams[j],
            decreases 4 - i,
        {
            self.rams[i].set_clock(clock);
            i += 1;
        }
        proof {
            assert forall|j: int| 0 <= j < 4 implies (#[trigger] old(self).rams[j]).regs().len()
                == 4096 by {
                old(self).rams[j].lemma_size();
            }
            lemma_weights();
            lemma_address_value_bound(self.address@.take(2));
            let at = address_value(self.address@.take(2));
            assert(self.rams[at].addr() == old(self).rams[at].addr());
        }
        assert(final(self).regs() =~= Seq::new(16384, |i: int| old(self).regs()[i].clocked(clock)));
    }
}

/// What the program counter holds: its register and its three control lines.
pub struct Counter {
    pub register: Cell<Seq<bool>>,
    pub increment: bool,
    pub load: bool,
    pub reset: bool,
}

/// What the counter takes from `input`: zero on `reset`; else the input on
/// `load`; else its value and one on `increment`; else its value.
pub open spec fn next_count(s: Counter, input: Seq<bool>) -> Seq<bool> {
    if s.reset {
        zeros()
    } else if s.load {
        input
    } else if s.increment {
        wires_of(wrapping_sum(pack(s.register.stored), 1))
    } else {
        s.register.stored
    }
}

/// The program counter.
pub struct Pc {
    register: Register,
    increment: bool,
    load: bool,
    reset: bool,
}

impl View for Pc {
    type V = Counter;

    closed spec fn view(&self) -> Counter {
        Counter {
            register: self.register@,
            increment: self.increment,
            load: self.load,
            reset: self.reset,
        }
    }
}

impl Pc {
    /// A counter at zero, with its control lines low. Its register always loads.
    pub fn new() -> (r: Self)
        ensures
            r@ == (Counter {
                register: blank().loaded(true),
                increment: false,
                load: false,
                reset: false,
            }),
    {
        let mut register = Register::new();
        register.set_load(true);
        Self { register, increment: false, load: false, reset: false }
    }

    pub fn set_increment(&mut self, increment: bool)
        ensures
            final(self)@ == (Counter { increment, ..old(self)@ }),
    {
        self.increment = increment;
    }

    pub fn set_load(&mut self, load: bool)
        ensures
            final(self)@ == (Counter { load, ..old(self)@ }),
    {
        self.load = load;
    }

    pub fn set_reset(&mut self, reset: bool)
        ensures
            final(self)@ == (Counter { reset, ..old(self)@ }),
    {
        self.reset = reset;
    }

    /// Puts on the input of the register what the control lines pick.
    pub fn set_input(&mut self, input: &[bool; 16])
        ensures
            final(self)@ == (Counter {
                register: old(self)@.register.fed(next_count(old(self)@, input@)),
                ..old(self)@
            }),
    {
        let out = self.get_output();
        let up = inc16(&out);
        let zero = [false; 16];
        proof {
            lemma_wires_of_pack(up@);
            assert(zero@ =~= zeros());
        }
        self.register.set_input(
            &mux16(&mux16(&mux16(&out, &up, self.increment), input, self.load), &zero, self.reset),
        );
    }

    pub fn get_output(&self) -> (r: [bool; 16])
        ensures
            r@ == self@.register.stored,
    {
        self.register.get_output()
    }

    pub fn tick(&mut self)
        ensures
            final(self)@ == (Counter { register: old(self)@.register.ticked(), ..old(self)@ }),
    {
        self.set_clock(true);
        self.set_clock(false);
    }

    pub fn set_clock(&mut self, clock: bool)
        ensures
            final(self)@ == (Counter {
                register: old(self)@.register.clocked(clock),
                ..old(self)@
            }),
    {
        self.register.set_clock(clock);
    }
}

} // verus!
