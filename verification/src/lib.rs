//! A verified CHIP-8 interpreter core.
//!
//! The crate models the classic CHIP-8 virtual machine: a flat 4096-byte
//! memory with a built-in hexadecimal font, sixteen 8-bit registers plus a
//! 16-bit address register, a 16-level call stack, two 60 Hz down-counting
//! timers, a 64x32 monochrome display mutated by XOR sprite drawing, and a
//! 16-key input latch. The fetch-decode-execute cycle and the full opcode
//! semantics are stated as contracts over a mathematical model of the
//! machine state and proved.
//!
//! The core performs no I/O: a driver loads programs, feeds key states,
//! reads the display, and calls `step` once per CPU cycle and `tick` once
//! per 60 Hz interval.

pub mod cpu;
pub mod display;
pub mod error;
pub mod input;
pub mod machine;
pub mod memory;
