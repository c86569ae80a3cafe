//! The store-halfword instruction.

use vstd::prelude::*;
use crate::cpu::RegisterFile;
use crate::error::VMError;
use crate::memory::{is_aligned, loaded_value, stored_word, word_address};
use crate::memory::{MemAccessSize, StoreOp, VariableMemory};
use crate::riscv::Instruction;

verus! {

/// `SH rs2, imm(rs1)`: stores the low 16 bits of a register at `rs1 + imm`.
pub struct ShInstruction {
    /// The value to store.
    rd: u32,
    /// The base address.
    rs1: u32,
    /// The address offset.
    imm: u32,
}

impl ShInstruction {
    /// The value that the instruction stores.
    pub closed spec fn value(&self) -> u32 {
        self.rd
    }

    /// The address that the instruction's offset is added to.
    pub closed spec fn base(&self) -> u32 {
        self.rs1
    }

    /// The offset that the instruction adds to its base address.
    pub closed spec fn offset(&self) -> u32 {
        self.imm
    }

    /// Reads the operands of the store `ins` from `registers`: the value in
    /// register `op_a`, the base address in register `op_b`, the offset in `op_c`.
    pub fn decode(ins: &Instruction, registers: &RegisterFile) -> (sh: Self)
        ensures
            sh.value() == registers.value(ins.op_a),
            sh.base() == registers.value(ins.op_b),
            sh.offset() == ins.op_c,
    {
        ShInstruction {
            rd: registers.read(ins.op_a),
            rs1: registers.read(ins.op_b),
            imm: ins.op_c,
        }
    }

    /// Performs the store on `memory`. Fails, and leaves `memory` as it is,
    /// when base plus offset exceeds 32 bits or is odd.
    pub fn memory_write(&self, memory: &mut VariableMemory) -> (result: Result<StoreOp, VMError>)
        ensures
            match result {
                Ok(op) => {
                    let address = (self.base() + self.offset()) as u32;
                    &&& self.base() + self.offset() <= u32::MAX
                    &&& is_aligned(address, MemAccessSize::HalfWord)
                    &&& final(memory)@ == old(memory)@.insert(
                        word_address(address),
                        stored_word(
                            old(memory).word_or_zero(word_address(address)),
                            address,
                            MemAccessSize::HalfWord,
                            self.value(),
                        ),
                    )
                    &&& op == (StoreOp {
                        size: MemAccessSize::HalfWord,
                        address,
                        value: self.value() & 0xffff,
                        prev_value: loaded_value(
                            old(memory).word_or_zero(word_address(address)),
                            address,
                            MemAccessSize::HalfWord,
                        ),
                    })
                },
                Err(e) => {
                    &&& final(memory)@ == old(memory)@
                    &&& e == if self.base() + self.offset() > u32::MAX {
                        VMError::AddressCalculationOverflow
                    } else {
                        VMError::UnalignedMemoryWrite((self.base() + self.offset()) as u32)
                    }
                    &&& self.base() + self.offset() <= u32::MAX ==> !is_aligned(
                        (self.base() + self.offset()) as u32,
                        MemAccessSize::HalfWord,
                    )
                },
            },
    {
        let address = match self.rs1.checked_add(self.imm) {
            Some(address) => address,
            None => {
                return Err(VMError::AddressCalculationOverflow);
            },
        };
        memory.write(address, MemAccessSize::HalfWord, self.rd)
    }
}

} // verus!
