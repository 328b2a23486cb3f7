//! The same machine wire by wire: every bus is an array of wires, and the
//! clock is a line that is set high and low by hand.
//!
//! A sequential chip of this model takes its input and its clock in separate
//! steps: `set_input` puts a value on the input, which the chip keeps as
//! pending, and the rising edge of the clock in `set_clock` stores what is
//! pending. `tick` is one pulse of the clock.

pub mod chip;
pub mod memory;
pub mod rom;
