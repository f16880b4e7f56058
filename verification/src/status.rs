//! What one execution step reports to the driver.

use vstd::prelude::*;

verus! {

/// How a completed instruction asks the driver to go on.
#[derive(Clone, Copy, Debug, PartialEq, Eq, Structural)]
pub enum Outcome {
    /// Nothing special: run the next instruction.
    Continue,
    /// The display buffer was drawn to and should be presented.
    RedrawRequested,
    /// The instruction waits for a key; it took no effect and must be retried
    /// once a key is down.
    AwaitInput,
}

/// Why an instruction could not be carried out. A fault leaves the machine
/// exactly as it was before the faulting call.
#[derive(Clone, Copy, Debug, PartialEq, Eq, Structural)]
pub enum Fault {
    /// The instruction word matches no defined bit pattern.
    DecodeFault,
    /// A call was made with every usable stack slot taken.
    StackOverflow,
    /// A return was made with no call outstanding.
    StackUnderflow,
    /// An access relative to the index register or the program counter
    /// reaches past the end of memory.
    OutOfBoundsMemoryAccess,
}

} // verus!
