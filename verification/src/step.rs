//! One step of a program's execution, as the chips read it.

use vstd::prelude::*;
use vstd::arithmetic::power2::pow2;
use crate::cpu::RegisterFile;
use crate::riscv::{BuiltinOpcode, Instruction, InstructionType, Register};

verus! {

/// `value` modulo `2^32`.
pub open spec fn wrap(value: int) -> u32 {
    (value % 0x1_0000_0000) as u32
}

/// The number that the bits of `value` stand for in two's complement.
pub open spec fn signed(value: u32) -> int {
    if value < 0x8000_0000 {
        value as int
    } else {
        value - 0x1_0000_0000
    }
}

/// `value` shifted to the left by as many bits as the lowest five bits of
/// `amount` say; the bits that leave the word are lost.
pub open spec fn shifted_left(value: u32, amount: u32) -> u32 {
    wrap(value * pow2((amount % 32) as nat))
}

/// `value` shifted to the right by as many bits as the lowest five bits of
/// `amount` say; zeros come in from the left.
pub open spec fn shifted_right(value: u32, amount: u32) -> u32 {
    (value as nat / pow2((amount % 32) as nat)) as u32
}

/// `value`, as a number in two's complement, shifted to the right by as
/// many bits as the lowest five bits of `amount` say; copies of the sign bit
/// come in from the left.
pub open spec fn shifted_right_signed(value: u32, amount: u32) -> u32 {
    wrap(signed(value) / (pow2((amount % 32) as nat) as int))
}

/// Program execution step.
pub struct Step {
    /// Machine registers before the step.
    pub regs: RegisterFile,
    /// Address of the instruction.
    pub pc: u32,
    /// Address of the instruction that the machine executed next.
    pub next_pc: u32,
    /// The decoded instruction.
    pub instruction: Instruction,
    /// The instruction word stored at `pc`.
    pub raw_instruction: u32,
    /// The value that the instruction computed, if it computes one.
    pub result: Option<u32>,
}

impl Step {
    /// The instruction has the encoding shape of its operation, and in a
    /// register-register instruction the third operand names a register.
    pub open spec fn wf(&self) -> bool {
        &&& self.instruction.opcode.builtin matches Some(opcode) ==> self.instruction.ins_type
            == opcode.instruction_type_spec()
        &&& self.instruction.ins_type == InstructionType::RType ==> self.instruction.op_c < 32
    }

    /// Whether the step is well formed.
    pub fn is_wf(&self) -> (wf: bool)
        ensures
            wf == self.wf(),
    {
        let shaped = match self.instruction.opcode.builtin() {
            Some(opcode) => opcode.instruction_type() == self.instruction.ins_type,
            None => true,
        };
        shaped && (self.is_value_c_imm() || self.instruction.op_c < 32)
    }

    /// Whether the third operand is an immediate value.
    pub open spec fn is_value_c_imm_spec(&self) -> bool {
        self.instruction.ins_type != InstructionType::RType
    }

    /// The value of the second operand.
    pub open spec fn value_b_spec(&self) -> u32 {
        self.regs.value(self.instruction.op_b)
    }

    /// The value of the third operand.
    pub open spec fn value_c_spec(&self) -> u32 {
        if self.is_value_c_imm_spec() {
            self.instruction.op_c
        } else {
            self.regs.value(self.register_c_spec())
        }
    }

    /// The register that the third operand of a register-register instruction names.
    pub open spec fn register_c_spec(&self) -> Register {
        Register::from_index_spec(self.instruction.op_c as u8)
    }

    /// The value that the register `op_a` holds before the step.
    pub open spec fn value_a_spec(&self) -> u32 {
        self.regs.value(self.instruction.op_a)
    }

    /// The value of the first operand after the step: what the instruction
    /// computes, or, for a branch, the value of the register that it compares.
    /// Zero for the instructions that the chips do not compute.
    pub open spec fn result_spec(&self) -> u32 {
        let b = self.value_b_spec();
        let c = self.value_c_spec();
        match self.instruction.opcode.builtin {
            Some(BuiltinOpcode::ADD) | Some(BuiltinOpcode::ADDI) => wrap(b + c),
            Some(BuiltinOpcode::SUB) => wrap(b - c),
            Some(BuiltinOpcode::AND) | Some(BuiltinOpcode::ANDI) => b & c,
            Some(BuiltinOpcode::OR) | Some(BuiltinOpcode::ORI) => b | c,
            Some(BuiltinOpcode::XOR) | Some(BuiltinOpcode::XORI) => b ^ c,
            Some(BuiltinOpcode::SLTU) | Some(BuiltinOpcode::SLTIU) => if b < c {
                1
            } else {
                0
            },
            Some(BuiltinOpcode::SLT) | Some(BuiltinOpcode::SLTI) => if signed(b) < signed(c) {
                1
            } else {
                0
            },
            Some(BuiltinOpcode::SLL) | Some(BuiltinOpcode::SLLI) => shifted_left(b, c),
            Some(BuiltinOpcode::SRL) | Some(BuiltinOpcode::SRLI) => shifted_right(b, c),
            Some(BuiltinOpcode::SRA) | Some(BuiltinOpcode::SRAI) => shifted_right_signed(b, c),
            Some(BuiltinOpcode::LUI) => c,
            Some(BuiltinOpcode::AUIPC) => wrap(self.pc + c),
            Some(BuiltinOpcode::JAL) | Some(BuiltinOpcode::JALR) => wrap(self.pc + 4),
            Some(BuiltinOpcode::BEQ)
            | Some(BuiltinOpcode::BNE)
            | Some(BuiltinOpcode::BLT)
            | Some(BuiltinOpcode::BGE)
            | Some(BuiltinOpcode::BLTU)
            | Some(BuiltinOpcode::BGEU) => self.value_a_spec(),
            _ => 0,
        }
    }

    /// Whether a branch is taken.
    pub open spec fn branch_taken_spec(&self) -> bool {
        let a = self.value_a_spec();
        let b = self.value_b_spec();
        match self.instruction.opcode.builtin {
            Some(BuiltinOpcode::BEQ) => a == b,
            Some(BuiltinOpcode::BNE) => a != b,
            Some(BuiltinOpcode::BLT) => signed(a) < signed(b),
            Some(BuiltinOpcode::BGE) => signed(a) >= signed(b),
            Some(BuiltinOpcode::BLTU) => a < b,
            Some(BuiltinOpcode::BGEU) => a >= b,
            _ => false,
        }
    }

    /// The address of the instruction that follows the step: the target of a
    /// jump or of a branch that is taken, and the address four bytes on after
    /// every other instruction, all modulo `2^32`.
    pub open spec fn next_pc_spec(&self) -> u32 {
        match self.instruction.opcode.builtin {
            Some(BuiltinOpcode::JAL) => wrap(self.pc + self.instruction.op_c),
            Some(BuiltinOpcode::JALR) => (wrap(self.value_b_spec() + self.instruction.op_c) / 2
                * 2) as u32,
            _ => if self.branch_taken_spec() {
                wrap(self.pc + self.instruction.op_c)
            } else {
                wrap(self.pc + 4)
            },
        }
    }

    /// Whether the instruction names a destination other than the zero register.
    pub open spec fn value_a_effective_flag_spec(&self) -> bool {
        self.instruction.op_a != Register::X0
    }

    /// The operation, where the machine implements it itself.
    pub fn opcode(&self) -> (opcode: Option<BuiltinOpcode>)
        ensures
            opcode == self.instruction.opcode.builtin,
    {
        self.instruction.opcode.builtin()
    }

    /// Whether the third operand is an immediate value.
    pub fn is_value_c_imm(&self) -> (imm: bool)
        ensures
            imm == self.is_value_c_imm_spec(),
    {
        match self.instruction.ins_type {
            InstructionType::RType => false,
            _ => true,
        }
    }

    /// The value of the second operand: what the register `op_b` holds.
    pub fn get_value_b(&self) -> (value: u32)
        ensures
            value == self.value_b_spec(),
    {
        self.regs.read(self.instruction.op_b)
    }

    /// The value that the register `op_a` holds before the step.
    pub fn get_value_a(&self) -> (value: u32)
        ensures
            value == self.value_a_spec(),
    {
        self.regs.read(self.instruction.op_a)
    }

    /// The value of the third operand: the immediate value, or what the
    /// register that `op_c` names holds.
    pub fn get_value_c(&self) -> (value: u32)
        requires
            self.wf(),
        ensures
            value == self.value_c_spec(),
    {
        if self.is_value_c_imm() {
            self.instruction.op_c
        } else {
            self.regs.read(self.register_c())
        }
    }

    /// The register that the third operand of a register-register instruction names.
    pub fn register_c(&self) -> (reg: Register)
        requires
            self.wf(),
            !self.is_value_c_imm_spec(),
        ensures
            reg == self.register_c_spec(),
    {
        Register::from_index(self.instruction.op_c as u8)
    }

    /// Whether the instruction names a destination other than the zero register.
    pub fn value_a_effective_flag(&self) -> (flag: bool)
        ensures
            flag == self.value_a_effective_flag_spec(),
    {
        self.instruction.op_a.index() != 0
    }
}

} // verus!
