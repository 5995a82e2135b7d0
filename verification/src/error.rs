//! The faults a single instruction step can report.

use vstd::prelude::*;

verus! {

/// Why an instruction could not be carried out.
///
/// Every fault is a value handed back to the caller, who decides whether the
/// machine halts, logs, or goes on. A fault is a function of machine state:
/// repeating the step on unchanged state repeats the fault.
#[derive(Clone, Copy, Debug, PartialEq, Eq, Structural)]
pub enum Chip8Error {
    /// A memory address outside `0x000..=0xFFF` was read or written.
    OutOfBoundsAccess,
    /// A return was executed while the call stack was empty.
    StackUnderflow,
    /// A call was executed while the call stack was full.
    StackOverflow,
    /// The fetched word, carried here, matches no instruction encoding.
    UnknownOpcode(u16),
    /// The fetched word was zero: no further program is present.
    Halted,
}

} // verus!
