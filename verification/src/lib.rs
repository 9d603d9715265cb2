//! A simulator for a small 16-bit computer: sixteen opcodes, eight
//! general-purpose registers, 65536 words of memory and a console reached
//! through traps and two memory-mapped keyboard registers.
//!
//! `machine` says what the computer does, as functions on a mathematical
//! value; `vm` is the machine that runs, verified against it; `laws` holds
//! what follows for every program.

pub mod bits;
pub mod decimal;
pub mod instructions;
pub mod laws;
pub mod machine;
pub mod memory;
pub mod reg;
pub mod vm;

pub use crate::instructions::{Fault, Instruction};
pub use crate::machine::{Status, PC_START};
pub use crate::reg::Reg;
pub use crate::vm::VM;
