//! A CHIP-8 virtual machine: instruction decoding, the CPU step, the XOR
//! framebuffer and the keypad, each stated against a mathematical model.

pub mod cpu;
pub mod display;
pub mod font;
pub mod instruction;
pub mod keypad;
pub mod lemmas;

pub use cpu::{Cpu, CpuError};
pub use display::Display;
pub use instruction::{Instruction, Operation};
pub use keypad::Keypad;
