//! The Hack platform: a simulator of the computer, built up from NAND gate
//! by gate, and the assembler for its machine language.
//!
//! - `signal`: one wire and the bus of sixteen wires.
//! - `chip`: gates, adders and the ALU, and the sequential chips, on any signal.
//! - `cpu`, `memory`, `rom`, `screen`, `keyboard`: the parts of the computer;
//!   `Computer` wires them together.
//! - `assembler`: parser, symbol table and encoder.
//! - `semantics`: what the instructions mean, and that the CPU runs the
//!   words of the assembler so.
//! - `wired`: the chips once more with every wire and the clock laid open.
//! - `text`: helpers on lines of text.

pub mod assembler;
pub mod chip;
pub mod computer;
pub mod cpu;
pub mod keyboard;
pub mod memory;
pub mod rom;
pub mod screen;
pub mod semantics;
pub mod signal;
pub mod text;
pub mod wired;

pub use computer::Computer;
