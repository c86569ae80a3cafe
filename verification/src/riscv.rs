//! The part of the RISC-V instruction set that the machine executes.

use vstd::prelude::*;
use vstd::std_specs::convert::FromSpecImpl;

verus! {

/// One of the 32 integer registers.
#[derive(Debug, Copy, Clone, PartialEq, Eq, Structural, Hash)]
pub enum Register {
    X0,
    X1,
    X2,
    X3,
    X4,
    X5,
    X6,
    X7,
    X8,
    X9,
    X10,
    X11,
    X12,
    X13,
    X14,
    X15,
    X16,
    X17,
    X18,
    X19,
    X20,
    X21,
    X22,
    X23,
    X24,
    X25,
    X26,
    X27,
    X28,
    X29,
    X30,
    X31,
}

impl Register {
    /// Position of the register in the register file.
    pub open spec fn index_spec(self) -> nat {
        match self {
            Register::X0 => 0,
            Register::X1 => 1,
            Register::X2 => 2,
            Register::X3 => 3,
            Register::X4 => 4,
            Register::X5 => 5,
            Register::X6 => 6,
            Register::X7 => 7,
            Register::X8 => 8,
            Register::X9 => 9,
            Register::X10 => 10,
            Register::X11 => 11,
            Register::X12 => 12,
            Register::X13 => 13,
            Register::X14 => 14,
            Register::X15 => 15,
            Register::X16 => 16,
            Register::X17 => 17,
            Register::X18 => 18,
            Register::X19 => 19,
            Register::X20 => 20,
            Register::X21 => 21,
            Register::X22 => 22,
            Register::X23 => 23,
            Register::X24 => 24,
            Register::X25 => 25,
            Register::X26 => 26,
            Register::X27 => 27,
            Register::X28 => 28,
            Register::X29 => 29,
            Register::X30 => 30,
            Register::X31 => 31,
        }
    }

    pub fn index(self) -> (i: usize)
        ensures
            i == self.index_spec(),
            i < 32,
    {
        match self {
            Register::X0 => 0,
            Register::X1 => 1,
            Register::X2 => 2,
            Register::X3 => 3,
            Register::X4 => 4,
            Register::X5 => 5,
            Register::X6 => 6,
            Register::X7 => 7,
            Register::X8 => 8,
            Register::X9 => 9,
            Register::X10 => 10,
            Register::X11 => 11,
            Register::X12 => 12,
            Register::X13 => 13,
            Register::X14 => 14,
            Register::X15 => 15,
            Register::X16 => 16,
            Register::X17 => 17,
            Register::X18 => 18,
            Register::X19 => 19,
            Register::X20 => 20,
            Register::X21 => 21,
            Register::X22 => 22,
            Register::X23 => 23,
            Register::X24 => 24,
            Register::X25 => 25,
            Register::X26 => 26,
            Register::X27 => 27,
            Register::X28 => 28,
            Register::X29 => 29,
            Register::X30 => 30,
            Register::X31 => 31,
        }
    }

    /// The register at position `index` of the register file.
    pub open spec fn from_index_spec(index: u8) -> Register {
        match index {
            0 => Register::X0,
            1 => Register::X1,
            2 => Register::X2,
            3 => Register::X3,
            4 => Register::X4,
            5 => Register::X5,
            6 => Register::X6,
            7 => Register::X7,
            8 => Register::X8,
            9 => Register::X9,
            10 => Register::X10,
            11 => Register::X11,
            12 => Register::X12,
            13 => Register::X13,
            14 => Register::X14,
            15 => Register::X15,
            16 => Register::X16,
            17 => Register::X17,
            18 => Register::X18,
            19 => Register::X19,
            20 => Register::X20,
            21 => Register::X21,
            22 => Register::X22,
            23 => Register::X23,
            24 => Register::X24,
            25 => Register::X25,
            26 => Register::X26,
            27 => Register::X27,
            28 => Register::X28,
            29 => Register::X29,
            30 => Register::X30,
            _ => Register::X31,
        }
    }

    /// The register at position `index` of the register file.
    #[verifier::when_used_as_spec(from_index_spec)]
    pub fn from_index(index: u8) -> (r: Register)
        requires
            index < 32,
        ensures
            r == Self::from_index_spec(index),
            r.index_spec() == index,
    {
        match index {
            0 => Register::X0,
            1 => Register::X1,
            2 => Register::X2,
            3 => Register::X3,
            4 => Register::X4,
            5 => Register::X5,
            6 => Register::X6,
            7 => Register::X7,
            8 => Register::X8,
            9 => Register::X9,
            10 => Register::X10,
            11 => Register::X11,
            12 => Register::X12,
            13 => Register::X13,
            14 => Register::X14,
            15 => Register::X15,
            16 => Register::X16,
            17 => Register::X17,
            18 => Register::X18,
            19 => Register::X19,
            20 => Register::X20,
            21 => Register::X21,
            22 => Register::X22,
            23 => Register::X23,
            24 => Register::X24,
            25 => Register::X25,
            26 => Register::X26,
            27 => Register::X27,
            28 => Register::X28,
            29 => Register::X29,
            30 => Register::X30,
            _ => Register::X31,
        }
    }
}

/// Operations that the machine implements itself.
#[allow(clippy::upper_case_acronyms)]
#[derive(Debug, Copy, Clone, PartialEq, Eq, Structural, Hash)]
pub enum BuiltinOpcode {
    ADD,
    SUB,
    SLL,
    SLT,
    SLTU,
    XOR,
    SRL,
    SRA,
    OR,
    AND,
    ADDI,
    SLLI,
    SLTI,
    SLTIU,
    XORI,
    SRLI,
    SRAI,
    ORI,
    ANDI,
    LB,
    LH,
    LW,
    LBU,
    LHU,
    JALR,
    ECALL,
    EBREAK,
    FENCE,
    SB,
    SH,
    SW,
    BEQ,
    BNE,
    BLT,
    BGE,
    BLTU,
    BGEU,
    LUI,
    AUIPC,
    JAL,
}

impl BuiltinOpcode {
    /// The major opcode: the low seven bits of every instruction word with this operation.
    pub open spec fn raw_spec(self) -> u8 {
        match self {
            BuiltinOpcode::ADD => 0x33,
            BuiltinOpcode::SUB => 0x33,
            BuiltinOpcode::SLL => 0x33,
            BuiltinOpcode::SLT => 0x33,
            BuiltinOpcode::SLTU => 0x33,
            BuiltinOpcode::XOR => 0x33,
            BuiltinOpcode::SRL => 0x33,
            BuiltinOpcode::SRA => 0x33,
            BuiltinOpcode::OR => 0x33,
            BuiltinOpcode::AND => 0x33,
            BuiltinOpcode::ADDI => 0x13,
            BuiltinOpcode::SLLI => 0x13,
            BuiltinOpcode::SLTI => 0x13,
            BuiltinOpcode::SLTIU => 0x13,
            BuiltinOpcode::XORI => 0x13,
            BuiltinOpcode::SRLI => 0x13,
            BuiltinOpcode::SRAI => 0x13,
            BuiltinOpcode::ORI => 0x13,
            BuiltinOpcode::ANDI => 0x13,
            BuiltinOpcode::LB => 0x03,
            BuiltinOpcode::LH => 0x03,
            BuiltinOpcode::LW => 0x03,
            BuiltinOpcode::LBU => 0x03,
            BuiltinOpcode::LHU => 0x03,
            BuiltinOpcode::JALR => 0x67,
            BuiltinOpcode::ECALL => 0x73,
            BuiltinOpcode::EBREAK => 0x73,
            BuiltinOpcode::FENCE => 0x0f,
            BuiltinOpcode::SB => 0x23,
            BuiltinOpcode::SH => 0x23,
            BuiltinOpcode::SW => 0x23,
            BuiltinOpcode::BEQ => 0x63,
            BuiltinOpcode::BNE => 0x63,
            BuiltinOpcode::BLT => 0x63,
            BuiltinOpcode::BGE => 0x63,
            BuiltinOpcode::BLTU => 0x63,
            BuiltinOpcode::BGEU => 0x63,
            BuiltinOpcode::LUI => 0x37,
            BuiltinOpcode::AUIPC => 0x17,
            BuiltinOpcode::JAL => 0x6f,
        }
    }

    #[verifier::when_used_as_spec(raw_spec)]
    pub fn raw(self) -> (raw: u8)
        ensures
            raw == self.raw_spec(),
            raw < 128,
    {
        match self {
            BuiltinOpcode::ADD => 0x33,
            BuiltinOpcode::SUB => 0x33,
            BuiltinOpcode::SLL => 0x33,
            BuiltinOpcode::SLT => 0x33,
            BuiltinOpcode::SLTU => 0x33,
            BuiltinOpcode::XOR => 0x33,
            BuiltinOpcode::SRL => 0x33,
            BuiltinOpcode::SRA => 0x33,
            BuiltinOpcode::OR => 0x33,
            BuiltinOpcode::AND => 0x33,
            BuiltinOpcode::ADDI => 0x13,
            BuiltinOpcode::SLLI => 0x13,
            BuiltinOpcode::SLTI => 0x13,
            BuiltinOpcode::SLTIU => 0x13,
            BuiltinOpcode::XORI => 0x13,
            BuiltinOpcode::SRLI => 0x13,
            BuiltinOpcode::SRAI => 0x13,
            BuiltinOpcode::ORI => 0x13,
            BuiltinOpcode::ANDI => 0x13,
            BuiltinOpcode::LB => 0x03,
            BuiltinOpcode::LH => 0x03,
            BuiltinOpcode::LW => 0x03,
            BuiltinOpcode::LBU => 0x03,
            BuiltinOpcode::LHU => 0x03,
            BuiltinOpcode::JALR => 0x67,
            BuiltinOpcode::ECALL => 0x73,
            BuiltinOpcode::EBREAK => 0x73,
            BuiltinOpcode::FENCE => 0x0f,
            BuiltinOpcode::SB => 0x23,
            BuiltinOpcode::SH => 0x23,
            BuiltinOpcode::SW => 0x23,
            BuiltinOpcode::BEQ => 0x63,
            BuiltinOpcode::BNE => 0x63,
            BuiltinOpcode::BLT => 0x63,
            BuiltinOpcode::BGE => 0x63,
            BuiltinOpcode::BLTU => 0x63,
            BuiltinOpcode::BGEU => 0x63,
            BuiltinOpcode::LUI => 0x37,
            BuiltinOpcode::AUIPC => 0x17,
            BuiltinOpcode::JAL => 0x6f,
        }
    }

    /// The fixed parts of an instruction word fit the bits that it has for them.
    pub proof fn lemma_fixed_bits(self)
        ensures
            self.raw_spec() < 0x80,
            self.funct3_spec() < 8,
            self.funct7_spec() < 0x80,
    {
    }

    /// The three bits that tell the operations of one major opcode apart.
    pub open spec fn funct3_spec(self) -> u8 {
        match self {
            BuiltinOpcode::ADD
            | BuiltinOpcode::SUB
            | BuiltinOpcode::ADDI
            | BuiltinOpcode::LB
            | BuiltinOpcode::JALR
            | BuiltinOpcode::ECALL
            | BuiltinOpcode::EBREAK
            | BuiltinOpcode::FENCE
            | BuiltinOpcode::SB
            | BuiltinOpcode::BEQ
            | BuiltinOpcode::LUI
            | BuiltinOpcode::AUIPC
            | BuiltinOpcode::JAL => 0,
            BuiltinOpcode::SLL
            | BuiltinOpcode::SLLI
            | BuiltinOpcode::LH
            | BuiltinOpcode::SH
            | BuiltinOpcode::BNE => 1,
            BuiltinOpcode::SLT
            | BuiltinOpcode::SLTI
            | BuiltinOpcode::LW
            | BuiltinOpcode::SW => 2,
            BuiltinOpcode::SLTU
            | BuiltinOpcode::SLTIU => 3,
            BuiltinOpcode::XOR
            | BuiltinOpcode::XORI
            | BuiltinOpcode::LBU
            | BuiltinOpcode::BLT => 4,
            BuiltinOpcode::SRL
            | BuiltinOpcode::SRA
            | BuiltinOpcode::SRLI
            | BuiltinOpcode::SRAI
            | BuiltinOpcode::LHU
            | BuiltinOpcode::BGE => 5,
            BuiltinOpcode::OR
            | BuiltinOpcode::ORI
            | BuiltinOpcode::BLTU => 6,
            BuiltinOpcode::AND
            | BuiltinOpcode::ANDI
            | BuiltinOpcode::BGEU => 7,
        }
    }

    /// The three bits that tell the operations of one major opcode apart.
    #[verifier::when_used_as_spec(funct3_spec)]
    pub fn funct3(self) -> (funct3: u8)
        ensures
            funct3 == self.funct3_spec(),
            funct3 < 8,
    {
        match self {
            BuiltinOpcode::ADD
            | BuiltinOpcode::SUB
            | BuiltinOpcode::ADDI
            | BuiltinOpcode::LB
            | BuiltinOpcode::JALR
            | BuiltinOpcode::ECALL
            | BuiltinOpcode::EBREAK
            | BuiltinOpcode::FENCE
            | BuiltinOpcode::SB
            | BuiltinOpcode::BEQ
            | BuiltinOpcode::LUI
            | BuiltinOpcode::AUIPC
            | BuiltinOpcode::JAL => 0,
            BuiltinOpcode::SLL
            | BuiltinOpcode::SLLI
            | BuiltinOpcode::LH
            | BuiltinOpcode::SH
            | BuiltinOpcode::BNE => 1,
            BuiltinOpcode::SLT
            | BuiltinOpcode::SLTI
            | BuiltinOpcode::LW
            | BuiltinOpcode::SW => 2,
            BuiltinOpcode::SLTU
            | BuiltinOpcode::SLTIU => 3,
            BuiltinOpcode::XOR
            | BuiltinOpcode::XORI
            | BuiltinOpcode::LBU
            | BuiltinOpcode::BLT => 4,
            BuiltinOpcode::SRL
            | BuiltinOpcode::SRA
            | BuiltinOpcode::SRLI
            | BuiltinOpcode::SRAI
            | BuiltinOpcode::LHU
            | BuiltinOpcode::BGE => 5,
            BuiltinOpcode::OR
            | BuiltinOpcode::ORI
            | BuiltinOpcode::BLTU => 6,
            BuiltinOpcode::AND
            | BuiltinOpcode::ANDI
            | BuiltinOpcode::BGEU => 7,
        }
    }

    /// The seven highest bits of a register-register instruction with this operation.
    pub open spec fn funct7_spec(self) -> u8 {
        match self {
            BuiltinOpcode::ADD
            | BuiltinOpcode::SLL
            | BuiltinOpcode::SLT
            | BuiltinOpcode::SLTU
            | BuiltinOpcode::XOR
            | BuiltinOpcode::SRL
            | BuiltinOpcode::OR
            | BuiltinOpcode::AND
            | BuiltinOpcode::ADDI
            | BuiltinOpcode::SLLI
            | BuiltinOpcode::SLTI
            | BuiltinOpcode::SLTIU
            | BuiltinOpcode::XORI
            | BuiltinOpcode::SRLI
            | BuiltinOpcode::ORI
            | BuiltinOpcode::ANDI
            | BuiltinOpcode::LB
            | BuiltinOpcode::LH
            | BuiltinOpcode::LW
            | BuiltinOpcode::LBU
            | BuiltinOpcode::LHU
            | BuiltinOpcode::JALR
            | BuiltinOpcode::ECALL
            | BuiltinOpcode::EBREAK
            | BuiltinOpcode::FENCE
            | BuiltinOpcode::SB
            | BuiltinOpcode::SH
            | BuiltinOpcode::SW
            | BuiltinOpcode::BEQ
            | BuiltinOpcode::BNE
            | BuiltinOpcode::BLT
            | BuiltinOpcode::BGE
            | BuiltinOpcode::BLTU
            | BuiltinOpcode::BGEU
            | BuiltinOpcode::LUI
            | BuiltinOpcode::AUIPC
            | BuiltinOpcode::JAL => 0,
            BuiltinOpcode::SUB
            | BuiltinOpcode::SRA
            | BuiltinOpcode::SRAI => 32,
        }
    }

    /// The seven highest bits of a register-register instruction with this operation.
    #[verifier::when_used_as_spec(funct7_spec)]
    pub fn funct7(self) -> (funct7: u8)
        ensures
            funct7 == self.funct7_spec(),
            funct7 < 128,
    {
        match self {
            BuiltinOpcode::ADD
            | BuiltinOpcode::SLL
            | BuiltinOpcode::SLT
            | BuiltinOpcode::SLTU
            | BuiltinOpcode::XOR
            | BuiltinOpcode::SRL
            | BuiltinOpcode::OR
            | BuiltinOpcode::AND
            | BuiltinOpcode::ADDI
            | BuiltinOpcode::SLLI
            | BuiltinOpcode::SLTI
            | BuiltinOpcode::SLTIU
            | BuiltinOpcode::XORI
            | BuiltinOpcode::SRLI
            | BuiltinOpcode::ORI
            | BuiltinOpcode::ANDI
            | BuiltinOpcode::LB
            | BuiltinOpcode::LH
            | BuiltinOpcode::LW
            | BuiltinOpcode::LBU
            | BuiltinOpcode::LHU
            | BuiltinOpcode::JALR
            | BuiltinOpcode::ECALL
            | BuiltinOpcode::EBREAK
            | BuiltinOpcode::FENCE
            | BuiltinOpcode::SB
            | BuiltinOpcode::SH
            | BuiltinOpcode::SW
            | BuiltinOpcode::BEQ
            | BuiltinOpcode::BNE
            | BuiltinOpcode::BLT
            | BuiltinOpcode::BGE
            | BuiltinOpcode::BLTU
            | BuiltinOpcode::BGEU
            | BuiltinOpcode::LUI
            | BuiltinOpcode::AUIPC
            | BuiltinOpcode::JAL => 0,
            BuiltinOpcode::SUB
            | BuiltinOpcode::SRA
            | BuiltinOpcode::SRAI => 32,
        }
    }

    /// The encoding shape of the instructions with this operation.
    pub open spec fn instruction_type_spec(self) -> InstructionType {
        match self {
            BuiltinOpcode::ADD
            | BuiltinOpcode::SUB
            | BuiltinOpcode::SLL
            | BuiltinOpcode::SLT
            | BuiltinOpcode::SLTU
            | BuiltinOpcode::XOR
            | BuiltinOpcode::SRL
            | BuiltinOpcode::SRA
            | BuiltinOpcode::OR
            | BuiltinOpcode::AND => InstructionType::RType,
            BuiltinOpcode::ADDI
            | BuiltinOpcode::SLTI
            | BuiltinOpcode::SLTIU
            | BuiltinOpcode::XORI
            | BuiltinOpcode::ORI
            | BuiltinOpcode::ANDI
            | BuiltinOpcode::LB
            | BuiltinOpcode::LH
            | BuiltinOpcode::LW
            | BuiltinOpcode::LBU
            | BuiltinOpcode::LHU
            | BuiltinOpcode::JALR
            | BuiltinOpcode::ECALL
            | BuiltinOpcode::EBREAK
            | BuiltinOpcode::FENCE => InstructionType::IType,
            BuiltinOpcode::SLLI
            | BuiltinOpcode::SRLI
            | BuiltinOpcode::SRAI => InstructionType::IShamtType,
            BuiltinOpcode::SB
            | BuiltinOpcode::SH
            | BuiltinOpcode::SW => InstructionType::SType,
            BuiltinOpcode::BEQ
            | BuiltinOpcode::BNE
            | BuiltinOpcode::BLT
            | BuiltinOpcode::BGE
            | BuiltinOpcode::BLTU
            | BuiltinOpcode::BGEU => InstructionType::BType,
            BuiltinOpcode::LUI
            | BuiltinOpcode::AUIPC => InstructionType::UType,
            BuiltinOpcode::JAL => InstructionType::JType,
        }
    }

    /// The encoding shape of the instructions with this operation.
    #[verifier::when_used_as_spec(instruction_type_spec)]
    pub fn instruction_type(self) -> (ins_type: InstructionType)
        ensures
            ins_type == self.instruction_type_spec(),
    {
        match self {
            BuiltinOpcode::ADD
            | BuiltinOpcode::SUB
            | BuiltinOpcode::SLL
            | BuiltinOpcode::SLT
            | BuiltinOpcode::SLTU
            | BuiltinOpcode::XOR
            | BuiltinOpcode::SRL
            | BuiltinOpcode::SRA
            | BuiltinOpcode::OR
            | BuiltinOpcode::AND => InstructionType::RType,
            BuiltinOpcode::ADDI
            | BuiltinOpcode::SLTI
            | BuiltinOpcode::SLTIU
            | BuiltinOpcode::XORI
            | BuiltinOpcode::ORI
            | BuiltinOpcode::ANDI
            | BuiltinOpcode::LB
            | BuiltinOpcode::LH
            | BuiltinOpcode::LW
            | BuiltinOpcode::LBU
            | BuiltinOpcode::LHU
            | BuiltinOpcode::JALR
            | BuiltinOpcode::ECALL
            | BuiltinOpcode::EBREAK
            | BuiltinOpcode::FENCE => InstructionType::IType,
            BuiltinOpcode::SLLI
            | BuiltinOpcode::SRLI
            | BuiltinOpcode::SRAI => InstructionType::IShamtType,
            BuiltinOpcode::SB
            | BuiltinOpcode::SH
            | BuiltinOpcode::SW => InstructionType::SType,
            BuiltinOpcode::BEQ
            | BuiltinOpcode::BNE
            | BuiltinOpcode::BLT
            | BuiltinOpcode::BGE
            | BuiltinOpcode::BLTU
            | BuiltinOpcode::BGEU => InstructionType::BType,
            BuiltinOpcode::LUI
            | BuiltinOpcode::AUIPC => InstructionType::UType,
            BuiltinOpcode::JAL => InstructionType::JType,
        }
    }
}

/// An operation together with its major opcode.
#[derive(Debug, Copy, Clone, PartialEq, Eq, Structural, Hash)]
pub struct Opcode {
    pub raw: u8,
    pub builtin: Option<BuiltinOpcode>,
}

impl Opcode {
    pub open spec fn raw_spec(self) -> u8 {
        self.raw
    }

    pub open spec fn builtin_spec(self) -> Option<BuiltinOpcode> {
        self.builtin
    }

    /// The major opcode.
    #[verifier::when_used_as_spec(raw_spec)]
    pub fn raw(self) -> (raw: u8)
        ensures
            raw == self.raw_spec(),
    {
        self.raw
    }

    /// The operation, where the machine implements it itself.
    #[verifier::when_used_as_spec(builtin_spec)]
    pub fn builtin(self) -> (builtin: Option<BuiltinOpcode>)
        ensures
            builtin == self.builtin_spec(),
    {
        self.builtin
    }
}

impl FromSpecImpl<BuiltinOpcode> for Opcode {
    open spec fn obeys_from_spec() -> bool {
        true
    }

    open spec fn from_spec(opcode: BuiltinOpcode) -> Self {
        Opcode { raw: opcode.raw_spec(), builtin: Some(opcode) }
    }
}

impl From<BuiltinOpcode> for Opcode {
    fn from(opcode: BuiltinOpcode) -> (r: Self) {
        Opcode { raw: opcode.raw(), builtin: Some(opcode) }
    }
}

/// The encoding shape of an instruction.
#[derive(Debug, Copy, Clone, PartialEq, Eq, Structural, Hash)]
pub enum InstructionType {
    RType,
    IType,
    IShamtType,
    SType,
    BType,
    UType,
    JType,
    Unimpl,
}

/// A decoded instruction: the operation and its three operands.
#[derive(Debug, Copy, Clone, PartialEq, Eq, Structural, Hash)]
pub struct Instruction {
    pub opcode: Opcode,
    pub op_a: Register,
    pub op_b: Register,
    pub op_c: u32,
    pub ins_type: InstructionType,
}

impl Instruction {
    /// The instruction `opcode` on the registers numbered `op_a` and `op_b`
    /// and the register number or immediate value `op_c`.
    pub fn new(opcode: Opcode, op_a: u8, op_b: u8, op_c: u32, ins_type: InstructionType) -> (ins:
        Self)
        requires
            op_a < 32,
            op_b < 32,
        ensures
            ins.opcode == opcode,
            ins.op_a.index_spec() == op_a,
            ins.op_b.index_spec() == op_b,
            ins.op_c == op_c,
            ins.ins_type == ins_type,
    {
        Instruction {
            opcode,
            op_a: Register::from_index(op_a),
            op_b: Register::from_index(op_b),
            op_c,
            ins_type,
        }
    }
}

} // verus!
