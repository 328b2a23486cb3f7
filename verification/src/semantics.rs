//! What the instructions mean, and that the CPU runs them so.
//!
//! The assembler writes an instruction as a word; the CPU takes the word
//! apart again. Here the meaning of an instruction is said without any
//! encoding, on numbers of sixteen bits, and it is proved that one clock
//! cycle of the CPU on the word of an instruction does what the instruction
//! means.

use crate::assembler::instruction::{
    comp_code, dest_code, jump_code, word_of, Comp, Dest, Instruction, Jump,
};
use crate::chip::arith::{alu_out, is_negative, wrapping_sum};
use crate::cpu::{computed, cpu_step, jumps, CpuState};
use crate::signal::wire;
use vstd::prelude::*;

verus! {

/// The difference of two sixteen-bit numbers, cut to sixteen bits.
pub open spec fn wrapping_difference(x: u16, y: u16) -> u16 {
    ((x - y) % 0x10000) as u16
}

/// What a computation yields on the registers D and A and the word M of memory.
pub open spec fn comp_value(comp: Comp, d: u16, a: u16, m: u16) -> u16 {
    match comp {
        Comp::Zero => 0,
        Comp::One => 1,
        Comp::MinusOne => 0xffff,
        Comp::D => d,
        Comp::A => a,
        Comp::M => m,
        Comp::NotD => !d,
        Comp::NotA => !a,
        Comp::NotM => !m,
        Comp::MinusD => wrapping_difference(0, d),
        Comp::MinusA => wrapping_difference(0, a),
        Comp::MinusM => wrapping_difference(0, m),
        Comp::DPlusOne => wrapping_sum(d, 1),
        Comp::APlusOne => wrapping_sum(a, 1),
        Comp::MPlusOne => wrapping_sum(m, 1),
        Comp::DMinusOne => wrapping_difference(d, 1),
        Comp::AMinusOne => wrapping_difference(a, 1),
        Comp::MMinusOne => wrapping_difference(m, 1),
        Comp::DPlusA => wrapping_sum(d, a),
        Comp::DPlusM => wrapping_sum(d, m),
        Comp::DMinusA => wrapping_difference(d, a),
        Comp::AMinusD => wrapping_difference(a, d),
        Comp::DMinusM => wrapping_difference(d, m),
        Comp::MMinusD => wrapping_difference(m, d),
        Comp::DAndA => d & a,
        Comp::DAndM => d & m,
        Comp::DOrA => d | a,
        Comp::DOrM => d | m,
    }
}

/// Whether the destinations include the register A.
pub open spec fn stores_a(dest: Option<Dest>) -> bool {
    dest matches Some(d) && (d == Dest::A || d == Dest::AM || d == Dest::AD || d == Dest::ADM)
}

/// Whether the destinations include the register D.
pub open spec fn stores_d(dest: Option<Dest>) -> bool {
    dest matches Some(d) && (d == Dest::D || d == Dest::DM || d == Dest::AD || d == Dest::ADM)
}

/// Whether the destinations include the memory.
pub open spec fn stores_m(dest: Option<Dest>) -> bool {
    dest matches Some(d) && (d == Dest::M || d == Dest::DM || d == Dest::AM || d == Dest::ADM)
}

/// Whether a jump is taken on the result `out`, read as a two's-complement number.
pub open spec fn jump_taken(jump: Option<Jump>, out: u16) -> bool {
    match jump {
        None => false,
        Some(Jump::JGT) => out != 0 && !is_negative(out),
        Some(Jump::JEQ) => out == 0,
        Some(Jump::JGE) => !is_negative(out),
        Some(Jump::JLT) => is_negative(out),
        Some(Jump::JNE) => out != 0,
        Some(Jump::JLE) => out == 0 || is_negative(out),
        Some(Jump::JMP) => true,
    }
}

/// The state after an instruction was run. An A-instruction loads its
/// number into A. A C-instruction computes on the registers as they were,
/// stores the result where its destinations say, and jumps to the address
/// that A held if its jump is taken on the result. Without a jump the
/// program counter goes on by one; `reset` sets it to zero.
pub open spec fn run(s: CpuState, reset: bool, in_m: u16, instruction: Instruction) -> CpuState {
    match instruction {
        Instruction::A { value } => CpuState {
            a: value & 0x7fff,
            d: s.d,
            pc: if reset {
                0
            } else {
                wrapping_sum(s.pc, 1)
            },
            address: (value & 0x7fff) as int,
            write_to_memory: false,
            result: s.d & s.a,
        },
        Instruction::C { comp, dest, jump } => {
            let out = comp_value(comp, s.d, s.a, in_m);
            let a = if stores_a(dest) {
                out
            } else {
                s.a
            };
            CpuState {
                a,
                d: if stores_d(dest) {
                    out
                } else {
                    s.d
                },
                pc: if reset {
                    0
                } else if jump_taken(jump, out) {
                    s.a
                } else {
                    wrapping_sum(s.pc, 1)
                },
                address: (a & 0x7fff) as int,
                write_to_memory: stores_m(dest),
                result: out,
            }
        },
    }
}

/// The wires of the word of a C-instruction are the bits of its three fields.
proof fn lemma_fields(w: u16, c: u16, d: u16, j: u16)
    by (bit_vector)
    requires
        c < 128,
        d < 8,
        j < 8,
        w == 0xe000 + c * 64 + d * 8 + j,
    ensures
        (w >> 15u16) & 1 == 1,
        ((w >> 12u16) & 1 == 1) == (c / 64 % 2 == 1),
        ((w >> 11u16) & 1 == 1) == (c / 32 % 2 == 1),
        ((w >> 10u16) & 1 == 1) == (c / 16 % 2 == 1),
        ((w >> 9u16) & 1 == 1) == (c / 8 % 2 == 1),
        ((w >> 8u16) & 1 == 1) == (c / 4 % 2 == 1),
        ((w >> 7u16) & 1 == 1) == (c / 2 % 2 == 1),
        ((w >> 6u16) & 1 == 1) == (c % 2 == 1),
        ((w >> 5u16) & 1 == 1) == (d / 4 % 2 == 1),
        ((w >> 4u16) & 1 == 1) == (d / 2 % 2 == 1),
        ((w >> 3u16) & 1 == 1) == (d % 2 == 1),
        ((w >> 2u16) & 1 == 1) == (j / 4 % 2 == 1),
        ((w >> 1u16) & 1 == 1) == (j / 2 % 2 == 1),
        ((w >> 0u16) & 1 == 1) == (j % 2 == 1),
{
}

/// The eighteen functions of the ALU that the instructions use.
proof fn lemma_alu_functions(x: u16, y: u16)
    by (bit_vector)
    ensures
        alu_out(x, y, true, false, true, false, true, false) == 0,
        alu_out(x, y, true, true, true, true, true, true) == 1,
        alu_out(x, y, true, true, true, false, true, false) == 0xffff,
        alu_out(x, y, false, false, true, true, false, false) == x,
        alu_out(x, y, true, true, false, false, false, false) == y,
        alu_out(x, y, false, false, true, true, false, true) == !x,
        alu_out(x, y, true, true, false, false, false, true) == !y,
        alu_out(x, y, false, false, true, true, true, true) == ((0 - x) % 0x10000) as u16,
        alu_out(x, y, true, true, false, false, true, true) == ((0 - y) % 0x10000) as u16,
        alu_out(x, y, false, true, true, true, true, true) == ((x + 1) % 0x10000) as u16,
        alu_out(x, y, true, true, false, true, true, true) == ((y + 1) % 0x10000) as u16,
        alu_out(x, y, false, false, true, true, true, false) == ((x - 1) % 0x10000) as u16,
        alu_out(x, y, true, true, false, false, true, false) == ((y - 1) % 0x10000) as u16,
        alu_out(x, y, false, false, false, false, true, false) == ((x + y) % 0x10000) as u16,
        alu_out(x, y, false, true, false, false, true, true) == ((x - y) % 0x10000) as u16,
        alu_out(x, y, false, false, false, true, true, true) == ((y - x) % 0x10000) as u16,
        alu_out(x, y, false, false, false, false, false, false) == x & y,
        alu_out(x, y, false, true, false, true, false, true) == x | y,
{
}

/// The control bits of a computation: whether it reads M in place of A,
/// and then the six bits for the ALU: zero D, invert D, zero the other
/// operand, invert it, add, invert the output.
pub open spec fn controls(comp: Comp) -> (bool, bool, bool, bool, bool, bool, bool) {
    match comp {
        Comp::Zero => (false, true, false, true, false, true, false),
        Comp::One => (false, true, true, true, true, true, true),
        Comp::MinusOne => (false, true, true, true, false, true, false),
        Comp::D => (false, false, false, true, true, false, false),
        Comp::A => (false, true, true, false, false, false, false),
        Comp::M => (true, true, true, false, false, false, false),
        Comp::NotD => (false, false, false, true, true, false, true),
        Comp::NotA => (false, true, true, false, false, false, true),
        Comp::NotM => (true, true, true, false, false, false, true),
        Comp::MinusD => (false, false, false, true, true, true, true),
        Comp::MinusA => (false, true, true, false, false, true, true),
        Comp::MinusM => (true, true, true, false, false, true, true),
        Comp::DPlusOne => (false, false, true, true, true, true, true),
        Comp::APlusOne => (false, true, true, false, true, true, true),
        Comp::MPlusOne => (true, true, true, false, true, true, true),
        Comp::DMinusOne => (false, false, false, true, true, true, false),
        Comp::AMinusOne => (false, true, true, false, false, true, false),
        Comp::MMinusOne => (true, true, true, false, false, true, false),
        Comp::DPlusA => (false, false, false, false, false, true, false),
        Comp::DPlusM => (true, false, false, false, false, true, false),
        Comp::DMinusA => (false, false, true, false, false, true, true),
        Comp::AMinusD => (false, false, false, false, true, true, true),
        Comp::DMinusM => (true, false, true, false, false, true, true),
        Comp::MMinusD => (true, false, false, false, true, true, true),
        Comp::DAndA => (false, false, false, false, false, false, false),
        Comp::DAndM => (true, false, false, false, false, false, false),
        Comp::DOrA => (false, false, true, false, true, false, true),
        Comp::DOrM => (true, false, true, false, true, false, true),
    }
}

/// The wires 3 to 9 of the word of a C-instruction carry the control bits of
/// its computation.
proof fn lemma_control_wires(comp: Comp, dest: Option<Dest>, jump: Option<Jump>)
    ensures
        ({
            let w = word_of(Instruction::C { comp, dest, jump });
            &&& wire(w, 0)
            &&& (wire(w, 3), wire(w, 4), wire(w, 5), wire(w, 6), wire(w, 7), wire(w, 8), wire(w, 9))
                == controls(comp)
        }),
{
    let w = word_of(Instruction::C { comp, dest, jump });
    lemma_fields(w, comp_code(comp), dest_code(dest), jump_code(jump));
}

/// The ALU, driven by the control bits of a computation, yields what the
/// computation means.
proof fn lemma_controls_compute(comp: Comp, d: u16, a: u16, m: u16)
    ensures
        ({
            let c = controls(comp);
            alu_out(d, if c.0 { m } else { a }, c.1, c.2, c.3, c.4, c.5, c.6) == comp_value(
                comp,
                d,
                a,
                m,
            )
        }),
{
    lemma_alu_functions(d, a);
    lemma_alu_functions(d, m);
}

/// The ALU, driven by the word of a C-instruction, yields what the
/// computation of the instruction means.
pub proof fn lemma_alu_computes(
    s: CpuState,
    in_m: u16,
    comp: Comp,
    dest: Option<Dest>,
    jump: Option<Jump>,
)
    ensures
        computed(s, in_m, word_of(Instruction::C { comp, dest, jump })) == comp_value(
            comp,
            s.d,
            s.a,
            in_m,
        ),
{
    lemma_control_wires(comp, dest, jump);
    lemma_controls_compute(comp, s.d, s.a, in_m);
}

/// One clock cycle of the CPU on the word of an instruction does what the
/// instruction means.
pub proof fn lemma_cpu_runs_instruction(
    s: CpuState,
    reset: bool,
    in_m: u16,
    instruction: Instruction,
)
    ensures
        cpu_step(s, reset, in_m, word_of(instruction)) == run(s, reset, in_m, instruction),
{
    match instruction {
        Instruction::A { value } => {
            let w = value & 0x7fff;
            assert((w >> 15u16) & 1 == 0 && w & 0x7fff == w) by (bit_vector)
                requires
                    w == value & 0x7fff,
            ;
            let x = s.d;
            let y = s.a;
            assert(alu_out(x, y, false, false, false, false, false, false) == x & y);
        },
        Instruction::C { comp, dest, jump } => {
            let w = word_of(instruction);
            lemma_fields(w, comp_code(comp), dest_code(dest), jump_code(jump));
            lemma_alu_computes(s, in_m, comp, dest, jump);
        },
    }
}

} // verus!
