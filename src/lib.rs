//! An interpreter for a small 8-bit virtual machine: sixteen byte registers,
//! a 4 KiB memory, a sixteen-entry call stack, a 64x32 monochrome framebuffer
//! with XOR sprite drawing, and a sixteen-key keypad.
pub mod chip;
pub mod display;
pub mod keyboard;
pub mod opcode;
pub mod program_counter;
pub mod registers;

pub use chip::{Chip, ChipError, Machine};
pub use display::Display;
pub use keyboard::{Input, KeyWait, Keyboard};
pub use opcode::{Instruction, Opcode, OpcodeHandler, Step};
pub use program_counter::ProgramCounter;
pub use registers::{Position, Registers};
