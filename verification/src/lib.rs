//! A CHIP-8 virtual machine: memory, a monochrome display, a one-key
//! keyboard, the instruction decoder and the processor that steps through a
//! program one instruction at a time.
//!
//! `semantics` defines what a step does as a function on machine states;
//! `cpu` is proved to compute that function; `laws` and `display` hold
//! properties proved of it.

pub mod error;
pub mod memory;
pub mod display;
pub mod keyboard;
pub mod instruction;
pub mod semantics;
pub mod cpu;
pub mod machine;
pub mod laws;

pub use crate::cpu::CPU;
pub use crate::display::Display;
pub use crate::error::Chip8Error;
pub use crate::instruction::{AluOp, Instruction, MiscOp};
pub use crate::keyboard::Keyboard;
pub use crate::machine::Chip8;
pub use crate::memory::Memory;
pub use crate::semantics::StepOutcome;
