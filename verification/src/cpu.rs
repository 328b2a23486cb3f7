//! The central processing unit: the registers A and D, the program counter,
//! and the decoding of one instruction in each clock cycle.
//!
//! The wires of an instruction are numbered from the most significant one.
//! Wire 0 tells the two kinds apart. With wire 0 low the other fifteen wires
//! are a number that goes to A. With wire 0 high, wire 3 picks the second
//! operand of the ALU (A or the word read from memory), wires 4 to 9 are the
//! six control bits of the ALU, wires 10 to 12 say where the result goes (A,
//! D, memory), and wires 13 to 15 say on which results to jump (negative,
//! zero, positive).

use crate::chip::arith::{alu, alu_out, is_negative, wrapping_sum};
use crate::chip::basic::{and, mux, not, or};
use crate::chip::mem::{
    address_value, lemma_address_value_split, lemma_address_value_zero, low_wires, Pc, Register,
};
use crate::signal::{
    lemma_pack_is_prefix_value, lemma_pack_of_wires, lemma_pack_wires, lemma_zero_wires, pack,
    prefix_value, wire, wires_of, Signal, Word,
};
use vstd::prelude::*;

verus! {

/// What the CPU holds between two clock cycles.
pub struct CpuState {
    /// The register A.
    pub a: u16,
    /// The register D.
    pub d: u16,
    /// The program counter.
    pub pc: u16,
    /// The address sent to the memory: the low fifteen bits of A as the last
    /// cycle left it.
    pub address: int,
    /// Whether the memory is to take the result.
    pub write_to_memory: bool,
    /// The result of the ALU in the last cycle.
    pub result: u16,
}

/// The result of the ALU for an instruction: on D and on A or the word from memory.
pub open spec fn computed(s: CpuState, in_m: u16, instr: u16) -> u16 {
    let c = wire(instr, 0);
    alu_out(
        s.d,
        if c && wire(instr, 3) { in_m } else { s.a },
        c && wire(instr, 4),
        c && wire(instr, 5),
        c && wire(instr, 6),
        c && wire(instr, 7),
        c && wire(instr, 8),
        c && wire(instr, 9),
    )
}

/// Whether an instruction jumps: it is a computation, and its jump bits
/// name the sign of the result.
pub open spec fn jumps(instr: u16, out: u16) -> bool {
    let zr = out == 0;
    let ng = is_negative(out);
    wire(instr, 0) && ((wire(instr, 13) && ng) || (wire(instr, 14) && zr) || (wire(instr, 15)
        && !zr && !ng))
}

/// One clock cycle: the state after it, given the reset line, the word read
/// from memory and the instruction.
pub open spec fn cpu_step(s: CpuState, reset: bool, in_m: u16, instr: u16) -> CpuState {
    let c = wire(instr, 0);
    let out = computed(s, in_m, instr);
    let a = if !c {
        instr & 0x7fff
    } else if wire(instr, 10) {
        out
    } else {
        s.a
    };
    CpuState {
        a,
        d: if c && wire(instr, 11) { out } else { s.d },
        pc: if reset {
            0
        } else if jumps(instr, out) {
            s.a
        } else {
            wrapping_sum(s.pc, 1)
        },
        address: (a & 0x7fff) as int,
        write_to_memory: c && wire(instr, 12),
        result: out,
    }
}

pub struct Cpu {
    address: [bool; 15],
    write_to_memory: bool,
    result: [bool; 16],
    a: Register<Word>,
    d: Register<Word>,
    pc: Pc,
}

impl View for Cpu {
    type V = CpuState;

    closed spec fn view(&self) -> CpuState {
        CpuState {
            a: self.a.value().0,
            d: self.d.value().0,
            pc: self.pc.value().0,
            address: address_value(self.address@),
            write_to_memory: self.write_to_memory,
            result: pack(self.result@),
        }
    }
}

proof fn lemma_low_fifteen(x: u16)
    ensures
        !wire(x & 0x7fff, 0),
        forall|i: int| 1 <= i < 16 ==> #[trigger] wire(x & 0x7fff, i) == wire(x, i),
{
    assert(forall|k: u16| k < 15 ==> (((x & 0x7fff) >> k) & 1 == 1) == ((x >> k) & 1 == 1))
        by (bit_vector);
    assert((((x & 0x7fff) >> 15u16) & 1 == 1) == false) by (bit_vector);
}

/// The last fifteen of sixteen wires carry the low fifteen bits of the number.
pub proof fn lemma_address_of(w: Seq<bool>)
    requires
        w.len() == 16,
    ensures
        address_value(w.skip(1)) == (pack(w) & 0x7fff) as int,
{
    let x = pack(w);
    let low = w.update(0, false);
    lemma_pack_wires(w);
    lemma_low_fifteen(x);
    assert forall|i: int| 0 <= i < 16 implies low[i] == #[trigger] wire(x & 0x7fff, i) by {
        if i > 0 {
            assert(wire(x & 0x7fff, i) == wire(x, i));
        }
    }
    lemma_pack_of_wires(x & 0x7fff, low);
    lemma_pack_is_prefix_value(low);
    lemma_address_value_is_prefix_value(low, 16);
    assert(low.take(16) =~= low);
    lemma_address_value_split(low, 1);
    assert(low.skip(1) =~= w.skip(1));
    lemma_address_value_zero(low.take(1));
}

/// The number that the first `n` wires carry, read as an address.
proof fn lemma_address_value_is_prefix_value(w: Seq<bool>, n: int)
    requires
        0 <= n <= w.len(),
    ensures
        address_value(w.take(n)) == prefix_value(w, n),
    decreases n,
{
    if n > 0 {
        lemma_address_value_is_prefix_value(w, n - 1);
        assert(w.take(n).drop_last() =~= w.take(n - 1));
    } else {
        assert(w.take(0).len() == 0);
    }
}

impl Cpu {
    /// A CPU with every register at zero.
    pub fn new() -> (r: Self)
        ensures
            r@ == (CpuState { a: 0, d: 0, pc: 0, address: 0, write_to_memory: false, result: 0 }),
    {
        let r = Self {
            address: [false; 15],
            write_to_memory: false,
            result: [false; 16],
            a: Register::new(),
            d: Register::new(),
            pc: Pc::new(),
        };
        proof {
            lemma_address_value_zero(r.address@);
            lemma_zero_wires();
            lemma_pack_of_wires(0u16, r.result@);
        }
        r
    }

    /// The address for the memory, whether it is to write, and the word to
    /// write; and the program counter.
    pub fn get_output(&self) -> (r: (([bool; 15], bool, [bool; 16]), [bool; 16]))
        ensures
            address_value(r.0.0@) == self@.address,
            r.0.1 == self@.write_to_memory,
            pack(r.0.2@) == self@.result,
            r.1@ == wires_of(self@.pc),
    {
        ((self.address, self.write_to_memory, self.result), self.pc.get_output().split())
    }

    /// One clock cycle.
    pub fn tick(&mut self, reset: bool, m: &[bool; 16], instruction: &[bool; 16])
        ensures
            final(self)@ == cpu_step(old(self)@, reset, pack(m@), pack(instruction@)),
    {
        proof {
            lemma_pack_wires(instruction@);
        }
        let write_to_a = or(not(instruction[0]), instruction[10]);
        let use_m = and(instruction[0], instruction[3]);
        let zero_d = and(instruction[0], instruction[4]);
        let negate_d = and(instruction[0], instruction[5]);
        let zero_a = and(instruction[0], instruction[6]);
        let negate_a = and(instruction[0], instruction[7]);
        let f = and(instruction[0], instruction[8]);
        let negate_alu = and(instruction[0], instruction[9]);
        let write_to_d = and(instruction[0], instruction[11]);
        self.write_to_memory = and(instruction[0], instruction[12]);
        let (result, zero, negate) = alu(
            self.d.get_output(),
            mux(self.a.get_output(), Word::from(*m), use_m),
            zero_d,
            negate_d,
            zero_a,
            negate_a,
            f,
            negate_alu,
        );
        self.result = result.split();
        let a = self.a.get_output();
        self.pc.tick(
            reset,
            or(
                and(instruction[0], and(instruction[13], negate)),
                or(
                    and(instruction[0], and(instruction[14], zero)),
                    and(instruction[0], and(instruction[15], and(not(zero), not(negate)))),
                ),
            ),
            true,
            a,
        );
        let mut a_data = *instruction;
        a_data[0] = false;
        proof {
            let x = pack(instruction@);
            lemma_low_fifteen(x);
            assert forall|i: int| 0 <= i < 16 implies a_data@[i] == #[trigger] wire(
                x & 0x7fff,
                i,
            ) by {
                if i > 0 {
                    assert(wire(x & 0x7fff, i) == wire(x, i));
                }
            }
            lemma_pack_of_wires(x & 0x7fff, a_data@);
        }
        self.a.tick(write_to_a, mux(Word::from(a_data), result, instruction[0]));
        self.d.tick(write_to_d, result);
        let a = self.a.get_output().split();
        self.address = low_wires(&a);
        proof {
            lemma_address_of(a@);
        }
    }

    /// The wires of the register A.
    pub fn a(&self) -> (r: [bool; 16])
        ensures
            r@ == wires_of(self@.a),
    {
        self.a.get_output().split()
    }

    /// The wires of the register D.
    pub fn d(&self) -> (r: [bool; 16])
        ensures
            r@ == wires_of(self@.d),
    {
        self.d.get_output().split()
    }

    /// The wires of the program counter.
    pub fn pc(&self) -> (r: [bool; 16])
        ensures
            r@ == wires_of(self@.pc),
    {
        self.pc.get_output().split()
    }
}

} // verus!
