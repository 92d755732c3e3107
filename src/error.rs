use vstd::prelude::*;

verus! {

/// Why an instruction could not be executed.
#[derive(Clone, Copy, Debug, PartialEq, Eq, Structural)]
pub enum Chip8Error {
    /// The fields match no instruction.
    InvalidInstruction { op: u16, x: u16, y: u16, n: u16 },
    /// The instruction exists but needs a keypad or font subsystem that this
    /// interpreter does not have.
    Unsupported { op: u16, x: u16, y: u16, n: u16 },
    /// A call would push a seventeenth return address.
    StackOverflow,
}

} // verus!
