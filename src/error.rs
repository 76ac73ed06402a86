use vstd::prelude::*;

verus! {

/// The fatal conditions that the machine reports to its host.
#[derive(Clone, Copy, Debug, PartialEq, Eq, Structural)]
pub enum Chip8Error {
    /// The word does not encode any instruction of the machine.
    UnknownOpcode { word: u16 },
    /// A subroutine call was made with all sixteen stack levels in use.
    StackOverflow,
    /// A return was made with an empty call stack.
    StackUnderflow,
    /// A program image does not fit between the program start and the end of memory.
    RomTooLarge { len: usize },
}

} // verus!
