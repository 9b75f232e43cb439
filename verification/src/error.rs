use vstd::prelude::*;

verus! {

/// Why a cycle of the machine could not be carried out.
///
/// Every operation that reports one of these leaves the machine exactly as
/// it found it.
#[derive(Clone, Copy, Debug, PartialEq, Eq, Structural)]
pub enum Chip8Error {
    /// The opcode matches no instruction of the machine.
    UnknownOpcode { opcode: u16 },
    /// A call was made with all sixteen stack slots in use, or the stack
    /// pointer lies beyond the stack.
    StackOverflow,
    /// A return was made with no call outstanding.
    StackUnderflow,
    /// An access would leave the 4096 bytes of memory, a key index lies
    /// beyond the sixteen keys, or a 16-bit address register would overflow.
    AddressOutOfRange,
    /// A program does not fit between the load address and the end of memory.
    RomTooLarge,
}

} // verus!
