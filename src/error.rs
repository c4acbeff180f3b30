use vstd::prelude::*;

verus! {

/// The fatal conditions that stop the machine.
#[derive(Debug, Clone, Copy, PartialEq, Eq, Structural)]
pub enum Chip8Error {
    /// A memory access outside the 4096 addressable bytes.
    AddressOutOfBounds,
    /// A call with all sixteen return-address slots already in use.
    StackOverflow,
    /// A return with an empty call stack.
    StackUnderflow,
    /// A 16-bit word that encodes no instruction.
    UnknownOpcode,
    /// A program image larger than the program region.
    RomTooLarge,
}

} // verus!
