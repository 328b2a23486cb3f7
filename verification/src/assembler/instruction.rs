//! The instructions of the machine and their encoding in sixteen bits.
//!
//! An A-instruction is a 0 and fifteen bits of a number. A C-instruction is
//! `111`, then seven bits for the computation (the first picks A or M, the
//! other six are the control bits of the ALU), three for the destinations
//! (A, D, M) and three for the jump (on negative, zero, positive).

use crate::signal::{wires_of, Word};
use vstd::prelude::*;

verus! {

/// What a C-instruction computes.
#[derive(Clone, Copy, Debug, PartialEq, Eq, Structural)]
pub enum Comp {
    /// `0`
    Zero,
    /// `1`
    One,
    /// `-1`
    MinusOne,
    /// `D`
    D,
    /// `A`
    A,
    /// `M`
    M,
    /// `!D`
    NotD,
    /// `!A`
    NotA,
    /// `!M`
    NotM,
    /// `-D`
    MinusD,
    /// `-A`
    MinusA,
    /// `-M`
    MinusM,
    /// `D+1`
    DPlusOne,
    /// `A+1`
    APlusOne,
    /// `M+1`
    MPlusOne,
    /// `D-1`
    DMinusOne,
    /// `A-1`
    AMinusOne,
    /// `M-1`
    MMinusOne,
    /// `D+A`
    DPlusA,
    /// `D+M`
    DPlusM,
    /// `D-A`
    DMinusA,
    /// `A-D`
    AMinusD,
    /// `D-M`
    DMinusM,
    /// `M-D`
    MMinusD,
    /// `D&A`
    DAndA,
    /// `D&M`
    DAndM,
    /// `D|A`
    DOrA,
    /// `D|M`
    DOrM,
}

/// Where a C-instruction stores its result.
#[derive(Clone, Copy, Debug, PartialEq, Eq, Structural)]
pub enum Dest {
    M,
    D,
    DM,
    A,
    AM,
    AD,
    ADM,
}

/// On which results a C-instruction jumps.
#[derive(Clone, Copy, Debug, PartialEq, Eq, Structural)]
pub enum Jump {
    JGT,
    JEQ,
    JGE,
    JLT,
    JNE,
    JLE,
    JMP,
}

/// An instruction with every symbol resolved.
#[derive(Clone, Copy, Debug, PartialEq, Eq, Structural)]
pub enum Instruction {
    A { value: u16 },
    C { comp: Comp, dest: Option<Dest>, jump: Option<Jump> },
}

/// The seven bits of a computation: `a`, then `c1` to `c6`.
pub open spec fn comp_code(comp: Comp) -> u16 {
    match comp {
        Comp::Zero => 0b0101010,
        Comp::One => 0b0111111,
        Comp::MinusOne => 0b0111010,
        Comp::D => 0b0001100,
        Comp::A => 0b0110000,
        Comp::M => 0b1110000,
        Comp::NotD => 0b0001101,
        Comp::NotA => 0b0110001,
        Comp::NotM => 0b1110001,
        Comp::MinusD => 0b0001111,
        Comp::MinusA => 0b0110011,
        Comp::MinusM => 0b1110011,
        Comp::DPlusOne => 0b0011111,
        Comp::APlusOne => 0b0110111,
        Comp::MPlusOne => 0b1110111,
        Comp::DMinusOne => 0b0001110,
        Comp::AMinusOne => 0b0110010,
        Comp::MMinusOne => 0b1110010,
        Comp::DPlusA => 0b0000010,
        Comp::DPlusM => 0b1000010,
        Comp::DMinusA => 0b0010011,
        Comp::AMinusD => 0b0000111,
        Comp::DMinusM => 0b1010011,
        Comp::MMinusD => 0b1000111,
        Comp::DAndA => 0b0000000,
        Comp::DAndM => 0b1000000,
        Comp::DOrA => 0b0010101,
        Comp::DOrM => 0b1010101,
    }
}

/// The three bits of the destinations: A, D, M.
pub open spec fn dest_code(dest: Option<Dest>) -> u16 {
    match dest {
        None => 0b000,
        Some(Dest::M) => 0b001,
        Some(Dest::D) => 0b010,
        Some(Dest::DM) => 0b011,
        Some(Dest::A) => 0b100,
        Some(Dest::AM) => 0b101,
        Some(Dest::AD) => 0b110,
        Some(Dest::ADM) => 0b111,
    }
}

/// The three bits of a jump: on a negative, a zero, a positive result.
pub open spec fn jump_code(jump: Option<Jump>) -> u16 {
    match jump {
        None => 0b000,
        Some(Jump::JGT) => 0b001,
        Some(Jump::JEQ) => 0b010,
        Some(Jump::JGE) => 0b011,
        Some(Jump::JLT) => 0b100,
        Some(Jump::JNE) => 0b101,
        Some(Jump::JLE) => 0b110,
        Some(Jump::JMP) => 0b111,
    }
}

/// The word that encodes an instruction.
pub open spec fn word_of(instruction: Instruction) -> u16 {
    match instruction {
        Instruction::A { value } => value & 0x7fff,
        Instruction::C { comp, dest, jump } => (0xe000 + comp_code(comp) * 64 + dest_code(dest)
            * 8 + jump_code(jump)) as u16,
    }
}

/// The computation that seven bits encode, if they encode one.
pub open spec fn comp_of_code(code: u16) -> Option<Comp> {
    if code == 0b0101010 {
        Some(Comp::Zero)
    } else if code == 0b0111111 {
        Some(Comp::One)
    } else if code == 0b0111010 {
        Some(Comp::MinusOne)
    } else if code == 0b0001100 {
        Some(Comp::D)
    } else if code == 0b0110000 {
        Some(Comp::A)
    } else if code == 0b1110000 {
        Some(Comp::M)
    } else if code == 0b0001101 {
        Some(Comp::NotD)
    } else if code == 0b0110001 {
        Some(Comp::NotA)
    } else if code == 0b1110001 {
        Some(Comp::NotM)
    } else if code == 0b0001111 {
        Some(Comp::MinusD)
    } else if code == 0b0110011 {
        Some(Comp::MinusA)
    } else if code == 0b1110011 {
        Some(Comp::MinusM)
    } else if code == 0b0011111 {
        Some(Comp::DPlusOne)
    } else if code == 0b0110111 {
        Some(Comp::APlusOne)
    } else if code == 0b1110111 {
        Some(Comp::MPlusOne)
    } else if code == 0b0001110 {
        Some(Comp::DMinusOne)
    } else if code == 0b0110010 {
        Some(Comp::AMinusOne)
    } else if code == 0b1110010 {
        Some(Comp::MMinusOne)
    } else if code == 0b0000010 {
        Some(Comp::DPlusA)
    } else if code == 0b1000010 {
        Some(Comp::DPlusM)
    } else if code == 0b0010011 {
        Some(Comp::DMinusA)
    } else if code == 0b0000111 {
        Some(Comp::AMinusD)
    } else if code == 0b1010011 {
        Some(Comp::DMinusM)
    } else if code == 0b1000111 {
        Some(Comp::MMinusD)
    } else if code == 0b0000000 {
        Some(Comp::DAndA)
    } else if code == 0b1000000 {
        Some(Comp::DAndM)
    } else if code == 0b0010101 {
        Some(Comp::DOrA)
    } else if code == 0b1010101 {
        Some(Comp::DOrM)
    } else {
        None
    }
}

/// The destinations that three bits encode.
pub open spec fn dest_of_code(code: u16) -> Option<Dest> {
    if code == 0b001 {
        Some(Dest::M)
    } else if code == 0b010 {
        Some(Dest::D)
    } else if code == 0b011 {
        Some(Dest::DM)
    } else if code == 0b100 {
        Some(Dest::A)
    } else if code == 0b101 {
        Some(Dest::AM)
    } else if code == 0b110 {
        Some(Dest::AD)
    } else if code == 0b111 {
        Some(Dest::ADM)
    } else {
        None
    }
}

/// The jump that three bits encode.
pub open spec fn jump_of_code(code: u16) -> Option<Jump> {
    if code == 0b001 {
        Some(Jump::JGT)
    } else if code == 0b010 {
        Some(Jump::JEQ)
    } else if code == 0b011 {
        Some(Jump::JGE)
    } else if code == 0b100 {
        Some(Jump::JLT)
    } else if code == 0b101 {
        Some(Jump::JNE)
    } else if code == 0b110 {
        Some(Jump::JLE)
    } else if code == 0b111 {
        Some(Jump::JMP)
    } else {
        None
    }
}

/// Whether an instruction can be encoded without loss: the number of an
/// A-instruction fits in fifteen bits.
pub open spec fn is_encodable(instruction: Instruction) -> bool {
    match instruction {
        Instruction::A { value } => value <= 0x7fff,
        Instruction::C { .. } => true,
    }
}

/// The instruction that a word encodes, if it encodes one. A word below
/// 0x8000 is an A-instruction; from 0xe000 on a word is a C-instruction if
/// its seven bits of computation are one of the twenty-eight.
pub open spec fn instruction_of(word: u16) -> Option<Instruction> {
    if word < 0x8000 {
        Some(Instruction::A { value: word })
    } else if word >= 0xe000 {
        let fields = (word - 0xe000) as u16;
        match comp_of_code(fields / 64) {
            Some(comp) => Some(
                Instruction::C {
                    comp,
                    dest: dest_of_code(fields / 8 % 8),
                    jump: jump_of_code(fields % 8),
                },
            ),
            None => None,
        }
    } else {
        None
    }
}

/// An instruction is read back from its word.
pub proof fn lemma_instruction_reads_back(instruction: Instruction)
    requires
        is_encodable(instruction),
    ensures
        instruction_of(word_of(instruction)) == Some(instruction),
{
    match instruction {
        Instruction::A { value } => {
            assert(value & 0x7fff == value) by (bit_vector)
                requires
                    value <= 0x7fff,
            ;
        },
        Instruction::C { comp, dest, jump } => {
            let fields = comp_code(comp) * 64 + dest_code(dest) * 8 + jump_code(jump);
            assert(fields / 64 == comp_code(comp));
            assert(fields / 8 % 8 == dest_code(dest));
            assert(fields % 8 == jump_code(jump));
        },
    }
}

impl Comp {
    /// The seven bits of the computation.
    pub fn code(&self) -> (r: u16)
        ensures
            r == comp_code(*self),
            r < 128,
    {
        match self {
            Comp::Zero => 0b0101010,
            Comp::One => 0b0111111,
            Comp::MinusOne => 0b0111010,
            Comp::D => 0b0001100,
            Comp::A => 0b0110000,
            Comp::M => 0b1110000,
            Comp::NotD => 0b0001101,
            Comp::NotA => 0b0110001,
            Comp::NotM => 0b1110001,
            Comp::MinusD => 0b0001111,
            Comp::MinusA => 0b0110011,
            Comp::MinusM => 0b1110011,
            Comp::DPlusOne => 0b0011111,
            Comp::APlusOne => 0b0110111,
            Comp::MPlusOne => 0b1110111,
            Comp::DMinusOne => 0b0001110,
            Comp::AMinusOne => 0b0110010,
            Comp::MMinusOne => 0b1110010,
            Comp::DPlusA => 0b0000010,
            Comp::DPlusM => 0b1000010,
            Comp::DMinusA => 0b0010011,
            Comp::AMinusD => 0b0000111,
            Comp::DMinusM => 0b1010011,
            Comp::MMinusD => 0b1000111,
            Comp::DAndA => 0b0000000,
            Comp::DAndM => 0b1000000,
            Comp::DOrA => 0b0010101,
            Comp::DOrM => 0b1010101,
        }
    }
}

impl Dest {
    /// The three bits of the destinations.
    pub fn code(&self) -> (r: u16)
        ensures
            r == dest_code(Some(*self)),
            r < 8,
    {
        match self {
            Dest::M => 0b001,
            Dest::D => 0b010,
            Dest::DM => 0b011,
            Dest::A => 0b100,
            Dest::AM => 0b101,
            Dest::AD => 0b110,
            Dest::ADM => 0b111,
        }
    }
}

impl Jump {
    /// The three bits of the jump.
    pub fn code(&self) -> (r: u16)
        ensures
            r == jump_code(Some(*self)),
            r < 8,
    {
        match self {
            Jump::JGT => 0b001,
            Jump::JEQ => 0b010,
            Jump::JGE => 0b011,
            Jump::JLT => 0b100,
            Jump::JNE => 0b101,
            Jump::JLE => 0b110,
            Jump::JMP => 0b111,
        }
    }
}

impl Instruction {
    /// The sixteen bits of the instruction, most significant first.
    pub fn as_binary(&self) -> (r: [bool; 16])
        ensures
            r@ == wires_of(word_of(*self)),
    {
        let word: u16 = match self {
            Self::A { value } => *value & 0x7fff,
            Self::C { comp, dest, jump } => {
                let d: u16 = match dest {
                    Some(dest) => dest.code(),
                    None => 0,
                };
                let j: u16 = match jump {
                    Some(jump) => jump.code(),
                    None => 0,
                };
                0xe000 + comp.code() * 64 + d * 8 + j
            },
        };
        Word::from(word).split()
    }
}

} // verus!
