//! The conditions under which the machine refuses an operation.

use vstd::prelude::*;

verus! {

/// A fatal condition. An operation that reports a fault leaves the machine
/// exactly as it found it: nothing is wrapped, truncated or half done.
#[derive(Clone, Copy, Debug, PartialEq, Eq, Structural)]
pub enum Fault {
    /// The program image does not fit between the load address and the end
    /// of memory.
    ProgramTooLarge,
    /// The program counter does not address two bytes inside memory, so no
    /// instruction word can be fetched.
    ProgramCounterOutOfBounds,
    /// The word fetched at address `pc` matches no instruction.
    UnknownInstruction { pc: u16, word: u16 },
    /// A subroutine call found all sixteen stack entries in use.
    StackOverflow,
    /// A return found the call stack empty.
    StackUnderflow,
    /// An access relative to the index register reaches past the end of
    /// memory.
    MemoryOutOfBounds,
    /// A key instruction found a register value above 0xF.
    KeyOutOfRange,
}

} // verus!
