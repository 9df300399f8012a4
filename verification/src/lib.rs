//! An interpreter for the CHIP-8 virtual machine.
//!
//! [`Chip8`] is the machine: 4096 bytes of memory, sixteen 8-bit registers, a
//! 16-bit index register and program counter, a call stack of sixteen slots, a
//! 64-by-32 monochrome display, two timers and a keypad of sixteen keys. The
//! host loads a program with [`Chip8::load`], runs it one instruction at a time
//! with [`Chip8::cycle`], counts the timers down with [`Chip8::update_timers`],
//! reports key events with [`Chip8::set_key`] and reads the display with
//! [`Chip8::framebuffer`].
//!
//! What each operation does is written down in [`model`] as a function on
//! [`model::State`], and every operation of [`Chip8`] is proved to do exactly
//! that. [`laws`] holds what follows for every program.

pub mod display;
pub mod error;
pub mod font;
pub mod instruction;
pub mod laws;
pub mod machine;
pub mod model;
mod random;

pub use crate::display::{GFX_HEIGHT, GFX_SIZE, GFX_WIDTH};
pub use crate::error::{Chip8Error, Chip8Result};
pub use crate::instruction::Instruction;
pub use crate::machine::Chip8;
pub use crate::model::{
    FLAG_REG, MEMORY_SIZE, MEMORY_START, NUM_KEYS, NUM_REGISTERS, OPCODE_SIZE, STACK_SIZE,
};
