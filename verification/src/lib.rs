//! Arithmetization core of a RISC-V zero-knowledge virtual machine: the column
//! layout of the execution trace, the trace buffer, and the chips that fill it.

use vstd::prelude::*;

pub mod chips;
pub mod column;
pub mod cpu;
pub mod domain;
pub mod error;
pub mod field;
pub mod machine;
pub mod memory;
pub mod preprocessed;
pub mod program;
pub mod riscv;
pub mod sh;
pub mod step;
pub mod terminal;
pub mod trace;

verus! {

/// Number of bytes in a machine word.
pub const WORD_SIZE: usize = 4;

} // verus!
