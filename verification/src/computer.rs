//! The computer: the instruction memory, the CPU and the data memory, wired
//! together and driven by one clock.

use crate::chip::mem::{lemma_weights, low_wires, wires_value};
use crate::cpu::{cpu_step, lemma_address_of, Cpu, CpuState};
use crate::keyboard::Keyboard;
use crate::memory::{Memory, KEYBOARD_ADDRESS, SCREEN_BASE};
use crate::rom::Rom;
use crate::screen::Screen;
use crate::signal::{lemma_pack_of_wires, wires_of, Word};
use vstd::prelude::*;

verus! {

pub struct Computer<S: Screen, K: Keyboard> {
    rom: Rom,
    cpu: Cpu,
    memory: Memory<S, K>,
}

impl<S: Screen, K: Keyboard> Computer<S, K> {
    /// What the CPU holds.
    pub closed spec fn cpu(&self) -> CpuState {
        self.cpu@
    }

    /// The data memory.
    pub closed spec fn memory(&self) -> Memory<S, K> {
        self.memory
    }

    /// The program: the 32768 words of the instruction memory.
    pub closed spec fn program(&self) -> Seq<Word> {
        self.rom.cells()
    }

    /// The data memory is well formed.
    pub closed spec fn wf(&self) -> bool {
        self.memory.wf()
    }

    /// Whether the next cycle would write to an address where nothing is mapped.
    pub open spec fn faults(&self) -> bool {
        self.cpu().write_to_memory && self.cpu().address > KEYBOARD_ADDRESS
    }

    /// The instruction that the program counter points at: the counter
    /// addresses the program by its low fifteen bits.
    pub open spec fn fetched(&self) -> Word {
        self.program()[(self.cpu().pc & 0x7fff) as int]
    }

    /// A computer with an empty program and every register and memory cell at zero.
    pub fn new() -> (r: Self)
        ensures
            r.wf(),
            r.cpu() == (CpuState {
                a: 0,
                d: 0,
                pc: 0,
                address: 0,
                write_to_memory: false,
                result: 0,
            }),
            r.program() == Seq::new(32768, |i: int| Word(0)),
            r.memory().addr() == 0,
            r.memory().ram_cells() == Seq::new(0x4000, |i: int| Word(0)),
            r.memory().screen_cells() == Seq::new(0x2000, |i: int| Word(0)),
            r.memory().key_code() == Word(0),
    {
        Self { rom: Rom::new(), cpu: Cpu::new(), memory: Memory::new() }
    }

    /// Tests `faults`.
    pub fn will_fault(&self) -> (r: bool)
        ensures
            r == self.faults(),
    {
        let ((address, write_to_memory, _), _) = self.cpu.get_output();
        proof {
            lemma_weights();
        }
        write_to_memory && wires_value(&address) > KEYBOARD_ADDRESS
    }

    /// One clock cycle. The memory takes what the CPU put out in the cycle
    /// before; then the CPU runs the instruction that its program counter
    /// points at, on the word that the memory now shows.
    pub fn tick(&mut self, reset: bool)
        requires
            old(self).wf(),
            !old(self).faults(),
        ensures
            final(self).wf(),
            final(self).program() == old(self).program(),
            final(self).memory().addr() == old(self).cpu().address,
            final(self).memory().ram_cells() == if old(self).cpu().write_to_memory && old(
                self,
            ).cpu().address < SCREEN_BASE {
                old(self).memory().ram_cells().update(
                    old(self).cpu().address,
                    Word(old(self).cpu().result),
                )
            } else {
                old(self).memory().ram_cells()
            },
            final(self).memory().screen_cells() == if old(self).cpu().write_to_memory
                && SCREEN_BASE <= old(self).cpu().address < KEYBOARD_ADDRESS {
                old(self).memory().screen_cells().update(
                    old(self).cpu().address - SCREEN_BASE,
                    Word(old(self).cpu().result),
                )
            } else {
                old(self).memory().screen_cells()
            },
            final(self).memory().key_code() == old(self).memory().key_code(),
            final(self).cpu() == cpu_step(
                old(self).cpu(),
                reset,
                final(self).memory().read_at(old(self).cpu().address).0,
                old(self).fetched().0,
            ),
    {
        let ((address, write_to_memory, cpu_output), pc) = self.cpu.get_output();
        self.memory.tick(&address, write_to_memory, Word::from(cpu_output));
        let memory_data = self.memory.get_output();
        let pc: [bool; 15] = low_wires(&pc);
        self.rom.set_address(&pc);
        let instruction = self.rom.get_output();
        proof {
            let w = wires_of(old(self).cpu().pc);
            lemma_pack_of_wires(old(self).cpu().pc, w);
            lemma_address_of(w);
        }
        self.cpu.tick(reset, &memory_data.split(), &instruction.split());
    }

    /// Hands an event to the keyboard: the keyboard takes it, and nothing
    /// else changes.
    pub fn set_keystate(&mut self, state: K::State)
        requires
            old(self).wf(),
        ensures
            final(self).wf(),
            old(self).memory().keys().takes(state, &final(self).memory().keys()),
            final(self).cpu() == old(self).cpu(),
            final(self).program() == old(self).program(),
            final(self).memory().addr() == old(self).memory().addr(),
            final(self).memory().ram_cells() == old(self).memory().ram_cells(),
            final(self).memory().screen_cells() == old(self).memory().screen_cells(),
            final(self).memory().display() == old(self).memory().display(),
    {
        self.memory.set_keystate(state);
    }

    /// Replaces the program.
    pub fn set_rom(&mut self, rom: Rom)
        ensures
            final(self).program() == rom.cells(),
            final(self).cpu() == old(self).cpu(),
            final(self).memory() == old(self).memory(),
            final(self).wf() == old(self).wf(),
    {
        self.rom = rom;
    }

    /// The register A.
    pub fn a(&self) -> (r: Word)
        ensures
            r.0 == self.cpu().a,
    {
        let w = self.cpu.a();
        proof {
            lemma_pack_of_wires(self.cpu().a, w@);
        }
        Word::from(w)
    }

    /// The register D.
    pub fn d(&self) -> (r: Word)
        ensures
            r.0 == self.cpu().d,
    {
        let w = self.cpu.d();
        proof {
            lemma_pack_of_wires(self.cpu().d, w@);
        }
        Word::from(w)
    }

    /// The word of memory that the last cycle addressed.
    pub fn m(&self) -> (r: Word)
        requires
            self.wf(),
        ensures
            r == self.memory().read_at(self.memory().addr()),
    {
        self.memory.get_output()
    }

    /// The program counter.
    pub fn pc(&self) -> (r: Word)
        ensures
            r.0 == self.cpu().pc,
    {
        let w = self.cpu.pc();
        proof {
            lemma_pack_of_wires(self.cpu().pc, w@);
        }
        Word::from(w)
    }

    /// The screen.
    pub fn screen(&self) -> (r: &S)
        ensures
            *r == self.memory().display(),
    {
        self.memory.screen()
    }
}

} // verus!
