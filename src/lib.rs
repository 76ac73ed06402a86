//! An interpreter for a small 8-bit virtual machine with sixteen registers,
//! 4 KiB of memory, a call stack, two timers, a 64x32 monochrome screen and a
//! sixteen-key keypad.
//!
//! The host owns the clock: it calls [`Chip8::cycle`] to run instructions and
//! [`Chip8::countdown_timers`] at 60 Hz, reads the screen and the sound timer,
//! and reports key presses through [`Chip8::press_key`].

pub mod error;
pub mod font;
pub mod input;
pub mod instruction;
pub mod laws;
pub mod machine;
pub mod state;

pub use error::Chip8Error;
pub use input::Input;
pub use instruction::{decode, Instruction};
pub use machine::{init_chip, Chip8};
