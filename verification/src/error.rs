//! What the machine reports instead of continuing.

use vstd::prelude::*;
use crate::instruction::Instruction;

verus! {

/// A failed operation. The machine is left as it was before the operation.
#[derive(Debug, Clone, Copy, PartialEq, Eq, Structural)]
pub enum Chip8Error {
    /// The program, of this many bytes, does not fit between the load address
    /// and the end of memory.
    InvalidProgramSize(usize),
    /// The fetched word is no instruction; it is carried inside `Unknown`.
    UnknownInstruction(Instruction),
    /// There is no register with this index.
    InvalidReg(u8),
    /// A return with no call outstanding.
    StackUnderflow,
    /// A call with every stack slot in use.
    StackOverflow,
    /// No two-byte instruction lies at this program counter.
    ProgramCounterOutOfBounds(u16),
    /// An instruction needs bytes past the end of memory; the index register
    /// held this value.
    InvalidAddress(u16),
    /// A key test named a key that the keypad does not have.
    InvalidKey(u8),
    /// The operating system gave no random byte.
    RandomSourceFailed,
}

/// The result of a machine operation.
pub type Chip8Result<T> = Result<T, Chip8Error>;

} // verus!
