//! The tokens of the assembly language, as they are written: a sum, a
//! conjunction or a disjunction may name its operands in either order.

use vstd::prelude::*;

verus! {

/// A computation as written.
#[derive(Clone, Copy, Debug, PartialEq, Eq, Structural)]
pub enum Comp {
    Zero,
    One,
    MinusOne,
    D,
    A,
    M,
    NotD,
    NotA,
    NotM,
    MinusD,
    MinusA,
    MinusM,
    DPlusOne,
    APlusOne,
    MPlusOne,
    DMinusOne,
    AMinusOne,
    MMinusOne,
    DPlusA,
    APlusD,
    DPlusM,
    MPlusD,
    DMinusA,
    AMinusD,
    DMinusM,
    MMinusD,
    DAndA,
    AAndD,
    DAndM,
    MAndD,
    DOrA,
    AOrD,
    DOrM,
    MOrD,
}

/// A destination as written.
#[derive(Clone, Copy, Debug, PartialEq, Eq, Structural)]
pub enum Dest {
    M,
    D,
    DM,
    A,
    AM,
    AD,
    ADM,
}

/// A jump as written.
#[derive(Clone, Copy, Debug, PartialEq, Eq, Structural)]
pub enum Jump {
    JGT,
    JEQ,
    JGE,
    JLT,
    JNE,
    JLE,
    JMP,
}

/// One token of a line.
#[derive(Clone, Debug)]
pub enum Token {
    AInst,
    Immediate(u16),
    Symbol { name: String },
    LInst { name: String },
    Equal,
    Semicolon,
    Comp(Comp),
    Dest(Dest),
    Jump(Jump),
}

} // verus!
