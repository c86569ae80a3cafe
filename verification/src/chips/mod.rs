//! The chips: each fills the columns it owns, for one row at a time, and
//! states the identities that hold among them afterwards.

pub mod add;
pub mod auipc;
pub mod beq;
pub mod bge;
pub mod bgeu;
pub mod bit_op;
pub mod blt;
pub mod bltu;
pub mod bne;
pub mod cpu;
pub mod decoding;
pub mod instructions;
pub mod jal;
pub mod jalr;
pub mod load_store;
pub mod lui;
pub mod prog_mem_check;
pub mod ram;
pub mod range_check;
pub mod register_mem_check;
pub mod shift;
pub mod slt;
pub mod sltu;
pub mod sub;
pub mod timestamp;
pub mod utils;
