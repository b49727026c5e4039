use vstd::prelude::*;

verus! {

/// The fatal conditions that stop a program.
#[derive(Debug, Clone, Copy, PartialEq, Eq, Structural)]
pub enum Chip8Error {
    /// The program image does not fit between the program start and the end of memory.
    LoadError { size: usize },
    /// The opcode at `address` matches no instruction.
    DecodeError { opcode: u16, address: u16 },
    /// A memory access at `index`, which lies outside the 4096 bytes of memory.
    OutOfBounds { index: usize },
    /// A call with all sixteen stack entries in use.
    StackOverflow,
    /// A return with an empty stack.
    StackUnderflow,
}

} // verus!
