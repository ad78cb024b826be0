#![allow(non_snake_case)]

//! A CHIP-8 interpreter core: opcode decoding, the instruction set and the
//! per-tick timer logic, with every instruction specified over an abstract
//! machine state, plus the keypad layout and pixel colours that the display
//! and input front ends use.

pub mod cpu;
pub mod instructions;
pub mod keypad;
pub mod laws;
pub mod machine;
pub mod opcode;
pub mod screen;
pub mod semantics;

pub use cpu::{Chip8Cpu, RomError};
pub use keypad::{keypad_key, keypad_state};
pub use machine::{CpuState, Fault, HEIGHT, PROG_START, RAM, WIDTH};
pub use opcode::Opcode;
pub use screen::pixel_color;
