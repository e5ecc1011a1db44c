use vstd::prelude::*;

verus! {

/// Every failure the execution core can report. All errors are synchronous:
/// they propagate immediately to the caller of the failing operation, and
/// the interpreter never skips a bad instruction to continue.
#[derive(Clone, Copy, Debug, PartialEq, Eq, Structural)]
pub enum Chip8Error {
    /// An address or pixel coordinate lies beyond a fixed-size store.
    OutOfBounds,
    /// A program load would overflow the memory.
    CapacityExceeded,
    /// `Return` was executed with an empty call stack.
    StackUnderflow,
    /// The decoder cannot classify an instruction word; carries the raw word.
    UnknownOpcode(u16),
    /// A register index outside 0..16 reached the executor.
    InvalidRegister,
}

} // verus!
