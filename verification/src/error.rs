//! The faults the interpreter core can report.

use vstd::prelude::*;

verus! {

/// A deterministic, non-recoverable execution fault. The engine reports the
/// fault to its driver instead of continuing, since continuing after a
/// malformed fetch or store would corrupt subsequent decoding.
#[derive(Clone, Copy, Debug, PartialEq, Eq, Structural)]
pub enum Chip8Error {
    /// A memory access (or an instruction fetch) lies outside the
    /// 4096-byte address space.
    AddressOutOfRange,
    /// A program image does not fit between the load address 0x200 and the
    /// end of memory.
    ProgramTooLarge,
    /// A call was made with all 16 stack slots in use.
    StackOverflow,
    /// A return was made with no call outstanding.
    StackUnderflow,
    /// The fetched 16-bit word matches no opcode pattern; the word is
    /// carried in the error.
    IllegalInstruction(u16),
}

} // verus!
