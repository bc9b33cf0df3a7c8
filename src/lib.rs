//! A CHIP-8 virtual machine: instruction decoding, the address space, the
//! register file and its flag arithmetic, the call stack, the framebuffer with
//! XOR sprite drawing, the key state, and the engine that steps through a
//! program one instruction at a time.
use vstd::prelude::*;

pub mod emulator;
pub mod font;
pub mod keyboard;
pub mod machine;
pub mod memory;
pub mod opcode;
mod random;
pub mod schedule;
pub mod registers;
pub mod stack;
pub mod video;

pub use emulator::Emulator;
pub use machine::Outcome;
pub use opcode::{Instruction, Opcode};

verus! {

/// A condition that ends a run: nothing recovers from it.
#[derive(Clone, Copy, Debug, PartialEq, Eq, Structural)]
pub enum Fault {
    /// An access, or the program counter, left the address space.
    OutOfBounds,
    /// A call with all sixteen return slots taken.
    StackOverflow,
    /// A return with no return address left.
    StackUnderflow,
}

} // verus!
