//! The chip library, built up from NAND: combinational gates, arithmetic,
//! and sequential chips.

pub mod arith;
pub mod basic;
pub mod mem;
