//! A CHIP-8 virtual machine: the processor, memory, screen, timers and
//! keypad of the interpreter, with the meaning of every instruction stated
//! over a mathematical model of the machine.

use vstd::prelude::*;

pub mod cpu;
pub mod instructions;
pub mod keypad;
pub mod laws;
pub mod machine;
pub mod operations;
mod random;
pub mod screen;

pub use cpu::Cpu;
pub use keypad::{map_key, HostKey};

verus! {

/// Bytes of addressable memory.
pub const MEMORY_SIZE: usize = 4096;
/// Screen width in pixels.
pub const DISPLAY_WIDTH: usize = 64;
/// Screen height in pixels.
pub const DISPLAY_HEIGHT: usize = 32;
/// Pixels on the screen, stored row by row.
pub const DISPLAY_SIZE: usize = 2048;
/// Address where programs are loaded and execution starts.
pub const PROGRAM_START: u16 = 0x200;

}
