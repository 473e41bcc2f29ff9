//! An instruction-level emulator core for a sixteen-register, 4 KiB virtual
//! machine with a 64x32 one-bit display.
//!
//! The behaviour of the machine is given once, as spec functions on the
//! mathematical model [`machine::Machine`]. The executable [`cpu::CPU`] is
//! proved to follow that model instruction by instruction and step by step.
use vstd::prelude::*;

pub mod cpu;
pub mod display;
pub mod fault;
pub mod font;
pub mod instruction;
pub mod laws;
pub mod machine;
mod random;

pub use crate::cpu::CPU;
pub use crate::fault::{Fault, FaultKind, LoadError, Step};
pub use crate::instruction::{decode, Instruction};
