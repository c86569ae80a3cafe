//! Decoding: the operands of an instruction are cut into the slices of bits
//! from which the instruction word puts them together, so that the word and
//! the operands of a row can be checked against each other byte by byte.

use vstd::prelude::*;
use crate::chips::cpu::{selected_flag, supports, CpuChip};
use crate::chips::utils::lemma_limbs_of_value;
use crate::column::Column;
use crate::field::{BaseField, P};
use crate::riscv::{BuiltinOpcode, Instruction, InstructionType};
use crate::step::Step;
use crate::trace::{agree_on, bit, Traces};

verus! {

/// The slices of the operands of one instruction. A slice that the encoding
/// shape of the instruction does not use is zero.
#[derive(Debug, Copy, Clone, PartialEq, Eq, Structural)]
pub struct Slices {
    pub op_a0: u8,
    pub op_a1_4: u8,
    pub op_b0: u8,
    pub op_b1_4: u8,
    pub op_c0_3: u8,
    pub op_c4: u8,
    pub op_c4_7: u8,
    pub op_c8_10: u8,
    pub op_c11: u8,
    pub op_c1_3: u8,
    pub op_c12_15: u8,
    pub op_c16_19: u8,
    pub op_c16_23: u8,
    pub op_c20: u8,
    pub op_c24_31: u8,
}

/// The word of a register-register instruction.
pub open spec fn encode_r(opcode: BuiltinOpcode, rd: nat, rs1: nat, rs2: nat) -> int {
    opcode.raw_spec() + 0x80 * rd + 0x1000 * opcode.funct3_spec() + 0x8000 * rs1 + 0x10_0000 * rs2
        + 0x200_0000 * opcode.funct7_spec()
}

/// The word of an instruction with a register and an immediate value of 12 bits.
pub open spec fn encode_i(opcode: BuiltinOpcode, rd: nat, rs1: nat, imm: u32) -> int {
    opcode.raw_spec() + 0x80 * rd + 0x1000 * opcode.funct3_spec() + 0x8000 * rs1 + 0x10_0000 * (imm
        % 0x1000)
}

/// The word of an instruction with an upper immediate value.
pub open spec fn encode_u(opcode: BuiltinOpcode, rd: nat, imm: u32) -> int {
    opcode.raw_spec() + 0x80 * rd + imm
}

/// The word of a jump with an offset of 21 bits.
pub open spec fn encode_j(opcode: BuiltinOpcode, rd: nat, imm: u32) -> int {
    opcode.raw_spec() + 0x80 * rd + 0x1000 * (imm / 0x1000 % 0x100) + 0x10_0000 * (imm / 0x800 % 2)
        + 0x20_0000 * (imm / 2 % 0x400) + 0x8000_0000 * (imm / 0x10_0000 % 2)
}

/// Whether `imm` is a number of `bits` bits in two's complement, extended to a word.
pub open spec fn sign_extended(imm: u32, bits: nat) -> bool {
    if bits == 12 {
        imm < 0x800 || imm >= 0xffff_f800
    } else {
        imm < 0x10_0000 || imm >= 0xfff0_0000
    }
}

/// The instruction word of `ins`, for the encoding shapes that the chip
/// decodes and the immediate values that fit them.
pub open spec fn encoding(ins: Instruction) -> Option<u32> {
    match ins.opcode.builtin {
        Some(opcode) => match ins.ins_type {
            InstructionType::RType => if ins.op_c < 32 {
                Some(
                    encode_r(opcode, ins.op_a.index_spec(), ins.op_b.index_spec(), ins.op_c as nat) as u32,
                )
            } else {
                None
            },
            InstructionType::IType => if sign_extended(ins.op_c, 12) {
                Some(encode_i(opcode, ins.op_a.index_spec(), ins.op_b.index_spec(), ins.op_c) as u32)
            } else {
                None
            },
            InstructionType::UType => if ins.op_c % 0x1000 == 0 {
                Some(encode_u(opcode, ins.op_a.index_spec(), ins.op_c) as u32)
            } else {
                None
            },
            InstructionType::JType => if ins.op_c % 2 == 0 && sign_extended(ins.op_c, 21) {
                Some(encode_j(opcode, ins.op_a.index_spec(), ins.op_c) as u32)
            } else {
                None
            },
            _ => None,
        },
        None => None,
    }
}

/// Whether the chip decodes instructions of the shape `ins_type`.
pub open spec fn is_decoded(ins_type: InstructionType) -> bool {
    matches!(
        ins_type,
        InstructionType::RType | InstructionType::IType | InstructionType::UType
            | InstructionType::JType
    )
}

/// Whether the instruction word of `step` is the encoding of its
/// instruction, where the chip decodes instructions of its shape.
pub open spec fn decodes(step: Step) -> bool {
    is_decoded(step.instruction.ins_type) ==> encoding(step.instruction) == Some(
        step.raw_instruction,
    )
}

/// The instruction word of `ins`, for the encoding shapes that the chip
/// decodes and the immediate values that fit them.
pub fn encode(ins: &Instruction) -> (word: Option<u32>)
    ensures
        word == encoding(*ins),
{
    let opcode = match ins.opcode.builtin() {
        Some(opcode) => opcode,
        None => {
            return None;
        },
    };
    let major = opcode.raw() as u32;
    let rd = ins.op_a.index() as u32;
    let rs1 = ins.op_b.index() as u32;
    let funct3 = opcode.funct3() as u32;
    let imm = ins.op_c;
    match ins.ins_type {
        InstructionType::RType => {
            if imm < 32 {
                Some(
                    major + 0x80 * rd + 0x1000 * funct3 + 0x8000 * rs1 + 0x10_0000 * imm
                        + 0x200_0000 * (opcode.funct7() as u32),
                )
            } else {
                None
            }
        },
        InstructionType::IType => {
            if imm < 0x800 || imm >= 0xffff_f800 {
                Some(major + 0x80 * rd + 0x1000 * funct3 + 0x8000 * rs1 + 0x10_0000 * (imm % 0x1000))
            } else {
                None
            }
        },
        InstructionType::UType => {
            if imm % 0x1000 == 0 {
                Some(major + 0x80 * rd + imm)
            } else {
                None
            }
        },
        InstructionType::JType => {
            if imm % 2 == 0 && (imm < 0x10_0000 || imm >= 0xfff0_0000) {
                Some(
                    major + 0x80 * rd + 0x1000 * (imm / 0x1000 % 0x100) + 0x10_0000 * (imm / 0x800
                        % 2) + 0x20_0000 * (imm / 2 % 0x400) + 0x8000_0000 * (imm / 0x10_0000 % 2),
                )
            } else {
                None
            }
        },
        _ => None,
    }
}

/// Whether the instruction word of `step` is the encoding of its
/// instruction, where the chip decodes instructions of its shape.
pub fn is_decodable(step: &Step) -> (ok: bool)
    ensures
        ok == decodes(*step),
{
    match step.instruction.ins_type {
        InstructionType::RType
        | InstructionType::IType
        | InstructionType::UType
        | InstructionType::JType => match encode(&step.instruction) {
            Some(word) => word == step.raw_instruction,
            None => false,
        },
        _ => true,
    }
}

/// No slices.
pub open spec fn no_slices() -> Slices {
    Slices {
        op_a0: 0,
        op_a1_4: 0,
        op_b0: 0,
        op_b1_4: 0,
        op_c0_3: 0,
        op_c4: 0,
        op_c4_7: 0,
        op_c8_10: 0,
        op_c11: 0,
        op_c1_3: 0,
        op_c12_15: 0,
        op_c16_19: 0,
        op_c16_23: 0,
        op_c20: 0,
        op_c24_31: 0,
    }
}

/// The slices of the operands of `step`: those that the encoding shape of
/// its instruction uses, and zeros for the others.
pub open spec fn slices_of(step: Option<Step>) -> Slices {
    match step {
        Some(s) => {
            let a = s.instruction.op_a.index_spec();
            let b = s.instruction.op_b.index_spec();
            let c = s.instruction.op_c;
            let of_a = Slices { op_a0: (a % 2) as u8, op_a1_4: (a / 2) as u8, ..no_slices() };
            let of_a_b = Slices { op_b0: (b % 2) as u8, op_b1_4: (b / 2) as u8, ..of_a };
            match s.instruction.ins_type {
                InstructionType::RType => Slices {
                    op_c0_3: (c % 0x10) as u8,
                    op_c4: (c / 0x10 % 2) as u8,
                    ..of_a_b
                },
                InstructionType::IType => Slices {
                    op_c0_3: (c % 0x10) as u8,
                    op_c4_7: (c / 0x10 % 0x10) as u8,
                    op_c8_10: (c / 0x100 % 8) as u8,
                    op_c11: (c / 0x800 % 2) as u8,
                    ..of_a_b
                },
                InstructionType::UType => Slices {
                    op_c12_15: (c / 0x1000 % 0x10) as u8,
                    op_c16_23: (c / 0x1_0000 % 0x100) as u8,
                    op_c24_31: (c / 0x100_0000) as u8,
                    ..of_a
                },
                InstructionType::JType => Slices {
                    op_c1_3: (c / 2 % 8) as u8,
                    op_c4_7: (c / 0x10 % 0x10) as u8,
                    op_c8_10: (c / 0x100 % 8) as u8,
                    op_c11: (c / 0x800 % 2) as u8,
                    op_c12_15: (c / 0x1000 % 0x10) as u8,
                    op_c16_19: (c / 0x1_0000 % 0x10) as u8,
                    op_c20: (c / 0x10_0000 % 2) as u8,
                    ..of_a
                },
                _ => no_slices(),
            }
        },
        None => no_slices(),
    }
}

/// The value of the single scalar column of `col` in `row`.
pub open spec fn flag(traces: &Traces, row: int, col: Column) -> nat {
    traces.field(row, col)[0]
}

/// Whether the row holds an instruction on registers only.
pub open spec fn is_type_r(traces: &Traces, row: int) -> bool {
    flag(traces, row, Column::ImmC) == 0 && flag(traces, row, Column::IsAdd) +
        flag(traces, row, Column::IsSub) +
        flag(traces, row, Column::IsSlt) +
        flag(traces, row, Column::IsSltu) +
        flag(traces, row, Column::IsXor) +
        flag(traces, row, Column::IsOr) +
        flag(traces, row, Column::IsAnd) +
        flag(traces, row, Column::IsSll) +
        flag(traces, row, Column::IsSrl) +
        flag(traces, row, Column::IsSra) == 1
}

/// Whether the row holds an instruction with an immediate value of 12 bits:
/// an arithmetic instruction with an immediate operand, a load, or a jump to
/// a register.
pub open spec fn is_type_i(traces: &Traces, row: int) -> bool {
    ||| flag(traces, row, Column::ImmC) == 1 && flag(traces, row, Column::IsAdd) +
        flag(traces, row, Column::IsSlt) +
        flag(traces, row, Column::IsSltu) +
        flag(traces, row, Column::IsXor) +
        flag(traces, row, Column::IsOr) +
        flag(traces, row, Column::IsAnd) == 1
    ||| flag(traces, row, Column::IsLb) +
        flag(traces, row, Column::IsLh) +
        flag(traces, row, Column::IsLw) +
        flag(traces, row, Column::IsLbu) +
        flag(traces, row, Column::IsLhu) +
        flag(traces, row, Column::IsJalr) == 1
}

/// Whether the row holds an instruction with an upper immediate value.
pub open spec fn is_type_u(traces: &Traces, row: int) -> bool {
    flag(traces, row, Column::IsLui) + flag(traces, row, Column::IsAuipc) == 1
}

/// Whether the row holds a jump with an offset of 21 bits.
pub open spec fn is_type_j(traces: &Traces, row: int) -> bool {
    flag(traces, row, Column::IsJal) == 1
}

/// The major opcode of the instruction of the row, from its flags.
pub open spec fn major_of(traces: &Traces, row: int) -> nat {
    if flag(traces, row, Column::ImmC) == 0 {
        0x33 * (flag(traces, row, Column::IsAdd) +
            flag(traces, row, Column::IsSub) +
            flag(traces, row, Column::IsSlt) +
            flag(traces, row, Column::IsSltu) +
            flag(traces, row, Column::IsXor) +
            flag(traces, row, Column::IsOr) +
            flag(traces, row, Column::IsAnd) +
            flag(traces, row, Column::IsSll) +
            flag(traces, row, Column::IsSrl) +
            flag(traces, row, Column::IsSra))
    } else {
        0x13 * (flag(traces, row, Column::IsAdd) +
            flag(traces, row, Column::IsSlt) +
            flag(traces, row, Column::IsSltu) +
            flag(traces, row, Column::IsXor) +
            flag(traces, row, Column::IsOr) +
            flag(traces, row, Column::IsAnd)) + 0x03 * (flag(traces, row, Column::IsLb) +
            flag(traces, row, Column::IsLh) +
            flag(traces, row, Column::IsLw) +
            flag(traces, row, Column::IsLbu) +
            flag(traces, row, Column::IsLhu)) + 0x67 * flag(traces, row, Column::IsJalr) +
            0x37 * flag(traces, row, Column::IsLui) +
            0x17 * flag(traces, row, Column::IsAuipc) +
            0x6f * flag(traces, row, Column::IsJal)
    }
}

/// The three bits that tell the instruction of the row from the others of
/// its major opcode, from its flags.
pub open spec fn funct3_of(traces: &Traces, row: int) -> nat {
    1 * flag(traces, row, Column::IsSll) +
        2 * flag(traces, row, Column::IsSlt) +
        3 * flag(traces, row, Column::IsSltu) +
        4 * flag(traces, row, Column::IsXor) +
        5 * flag(traces, row, Column::IsSrl) +
        5 * flag(traces, row, Column::IsSra) +
        6 * flag(traces, row, Column::IsOr) +
        7 * flag(traces, row, Column::IsAnd) +
        1 * flag(traces, row, Column::IsLh) +
        2 * flag(traces, row, Column::IsLw) +
        4 * flag(traces, row, Column::IsLbu) +
        5 * flag(traces, row, Column::IsLhu)
}

/// The seven highest bits of the register-register instruction of the row,
/// from its flags.
pub open spec fn funct7_of(traces: &Traces, row: int) -> nat {
    0x20 * (flag(traces, row, Column::IsSub) + flag(traces, row, Column::IsSra))
}

/// Whether `low` and `high` are the lowest bit and the other four bits of
/// the register number `number`.
pub open spec fn register_sliced(number: nat, low: nat, high: nat) -> bool {
    low <= 1 && high < 0x10 && number == low + 2 * high
}

/// The identities of a row with an instruction on registers only.
pub open spec fn r_identities(traces: &Traces, row: int) -> bool {
    let op_a0 = flag(traces, row, Column::OpA0);
    let op_a1_4 = flag(traces, row, Column::OpA1_4);
    let op_b0 = flag(traces, row, Column::OpB0);
    let op_b1_4 = flag(traces, row, Column::OpB1_4);
    let op_c0_3 = flag(traces, row, Column::OpC0_3);
    let op_c4 = flag(traces, row, Column::OpC4);
    &&& register_sliced(flag(traces, row, Column::OpA), op_a0, op_a1_4)
    &&& register_sliced(flag(traces, row, Column::OpB), op_b0, op_b1_4)
    &&& op_c0_3 < 0x10 && op_c4 <= 1 && flag(traces, row, Column::OpC) == op_c0_3 + 0x10 * op_c4
    &&& traces.field(row, Column::InstrVal) == seq![
        major_of(traces, row) + 0x80 * op_a0,
        op_a1_4 + 0x10 * funct3_of(traces, row) + 0x80 * op_b0,
        op_b1_4 + 0x10 * op_c0_3,
        op_c4 + 2 * funct7_of(traces, row),
    ]
}

/// The identities of a row with an instruction with an immediate value of 12 bits.
pub open spec fn i_identities(traces: &Traces, row: int) -> bool {
    let op_a0 = flag(traces, row, Column::OpA0);
    let op_a1_4 = flag(traces, row, Column::OpA1_4);
    let op_b0 = flag(traces, row, Column::OpB0);
    let op_b1_4 = flag(traces, row, Column::OpB1_4);
    let op_c0_3 = flag(traces, row, Column::OpC0_3);
    let op_c4_7 = flag(traces, row, Column::OpC4_7);
    let op_c8_10 = flag(traces, row, Column::OpC8_10);
    let op_c11 = flag(traces, row, Column::OpC11);
    &&& register_sliced(flag(traces, row, Column::OpA), op_a0, op_a1_4)
    &&& register_sliced(flag(traces, row, Column::OpB), op_b0, op_b1_4)
    &&& op_c0_3 < 0x10 && op_c4_7 < 0x10 && op_c8_10 < 8 && op_c11 <= 1
    &&& traces.field(row, Column::ValueC) == seq![
        op_c0_3 + 0x10 * op_c4_7,
        op_c8_10 + 0xf8 * op_c11,
        0xff * op_c11,
        0xff * op_c11,
    ]
    &&& traces.field(row, Column::InstrVal) == seq![
        major_of(traces, row) + 0x80 * op_a0,
        op_a1_4 + 0x10 * funct3_of(traces, row) + 0x80 * op_b0,
        op_b1_4 + 0x10 * op_c0_3,
        op_c4_7 + 0x10 * op_c8_10 + 0x80 * op_c11,
    ]
}

/// The identities of a row with an instruction with an upper immediate value.
pub open spec fn u_identities(traces: &Traces, row: int) -> bool {
    let op_a0 = flag(traces, row, Column::OpA0);
    let op_a1_4 = flag(traces, row, Column::OpA1_4);
    let op_c12_15 = flag(traces, row, Column::OpC12_15);
    let op_c16_23 = flag(traces, row, Column::OpC16_23);
    let op_c24_31 = flag(traces, row, Column::OpC24_31);
    &&& register_sliced(flag(traces, row, Column::OpA), op_a0, op_a1_4)
    &&& op_c12_15 < 0x10 && op_c16_23 < 0x100 && op_c24_31 < 0x100
    &&& traces.field(row, Column::ValueC) == seq![0nat, 0x10 * op_c12_15, op_c16_23, op_c24_31]
    &&& traces.field(row, Column::InstrVal) == seq![
        major_of(traces, row) + 0x80 * op_a0,
        op_a1_4 + 0x10 * op_c12_15,
        op_c16_23,
        op_c24_31,
    ]
}

/// The identities of a row with a jump with an offset of 21 bits.
pub open spec fn j_identities(traces: &Traces, row: int) -> bool {
    let op_a0 = flag(traces, row, Column::OpA0);
    let op_a1_4 = flag(traces, row, Column::OpA1_4);
    let op_c1_3 = flag(traces, row, Column::OpC1_3);
    let op_c4_7 = flag(traces, row, Column::OpC4_7);
    let op_c8_10 = flag(traces, row, Column::OpC8_10);
    let op_c11 = flag(traces, row, Column::OpC11);
    let op_c12_15 = flag(traces, row, Column::OpC12_15);
    let op_c16_19 = flag(traces, row, Column::OpC16_19);
    let op_c20 = flag(traces, row, Column::OpC20);
    &&& register_sliced(flag(traces, row, Column::OpA), op_a0, op_a1_4)
    &&& op_c1_3 < 8 && op_c4_7 < 0x10 && op_c8_10 < 8 && op_c11 <= 1 && op_c12_15 < 0x10
        && op_c16_19 < 0x10 && op_c20 <= 1
    &&& traces.field(row, Column::ValueC) == seq![
        2 * op_c1_3 + 0x10 * op_c4_7,
        op_c8_10 + 8 * op_c11 + 0x10 * op_c12_15,
        op_c16_19 + 0xf0 * op_c20,
        0xff * op_c20,
    ]
    &&& traces.field(row, Column::InstrVal) == seq![
        major_of(traces, row) + 0x80 * op_a0,
        op_a1_4 + 0x10 * op_c12_15,
        op_c16_19 + 0x10 * op_c11 + 0x20 * op_c1_3,
        op_c4_7 + 0x10 * op_c8_10 + 0x80 * op_c20,
    ]
}

/// The identities of a row with an instruction of the encoding shape
/// `ins_type`.
pub open spec fn identities(traces: &Traces, row: int, ins_type: InstructionType) -> bool {
    match ins_type {
        InstructionType::RType => r_identities(traces, row),
        InstructionType::IType => i_identities(traces, row),
        InstructionType::UType => u_identities(traces, row),
        InstructionType::JType => j_identities(traces, row),
        _ => true,
    }
}

/// A number of a register is its lowest bit and its other four bits.
proof fn lemma_register_slices(a: nat)
    requires
        a < 32,
    ensures
        register_sliced(a, a % 2, a / 2),
{
}

/// A word of five bits, cut into its slices.
proof fn lemma_shamt_slices(c: u32)
    requires
        c < 32,
    ensures
        c == c % 0x10 + 0x10 * (c / 0x10 % 2),
        c % 0x10 < 0x10,
        c / 0x10 % 2 <= 1,
{
}

/// A word that extends a number of 12 bits, cut into its slices.
proof fn lemma_imm12_slices(c: u32)
    requires
        sign_extended(c, 12),
    ensures
        c % 0x1000 == c % 0x10 + 0x10 * (c / 0x10 % 0x10) + 0x100 * (c / 0x100 % 8) + 0x800 * (c
            / 0x800 % 2),
        c == c % 0x10 + 0x10 * (c / 0x10 % 0x10) + 0x100 * (c / 0x100 % 8) + 0xffff_f800 * (c / 0x800
            % 2),
        c % 0x10 < 0x10,
        c / 0x10 % 0x10 < 0x10,
        c / 0x100 % 8 < 8,
        c / 0x800 % 2 <= 1,
{
    assert(c < 0x800 || c >= 0xffff_f800 ==> c % 0x1000 == c % 0x10 + 0x10 * (c / 0x10 % 0x10)
        + 0x100 * (c / 0x100 % 8) + 0x800 * (c / 0x800 % 2)) by (bit_vector);
    assert(c < 0x800 || c >= 0xffff_f800 ==> c == c % 0x10 + 0x10 * (c / 0x10 % 0x10) + 0x100 * (c
        / 0x100 % 8) + 0xffff_f800 * (c / 0x800 % 2)) by (bit_vector);
}

/// A word whose lowest 12 bits are zero, cut into its slices.
proof fn lemma_upper_slices(c: u32)
    requires
        c % 0x1000 == 0,
    ensures
        c == 0x1000 * (c / 0x1000 % 0x10) + 0x1_0000 * (c / 0x1_0000 % 0x100) + 0x100_0000 * (c
            / 0x100_0000),
        c / 0x1000 % 0x10 < 0x10,
        c / 0x1_0000 % 0x100 < 0x100,
        c / 0x100_0000 < 0x100,
{
    assert(c % 0x1000 == 0 ==> c == 0x1000 * (c / 0x1000 % 0x10) + 0x1_0000 * (c / 0x1_0000 % 0x100)
        + 0x100_0000 * (c / 0x100_0000)) by (bit_vector);
}

/// An even word that extends a number of 21 bits, cut into its slices.
proof fn lemma_imm21_slices(c: u32)
    requires
        c % 2 == 0,
        sign_extended(c, 21),
    ensures
        c == 2 * (c / 2 % 8) + 0x10 * (c / 0x10 % 0x10) + 0x100 * (c / 0x100 % 8) + 0x800 * (c / 0x800
            % 2) + 0x1000 * (c / 0x1000 % 0x10) + 0x1_0000 * (c / 0x1_0000 % 0x10) + 0xfff0_0000 * (c
            / 0x10_0000 % 2),
        c / 0x1000 % 0x100 == c / 0x1000 % 0x10 + 0x10 * (c / 0x1_0000 % 0x10),
        c / 2 % 0x400 == c / 2 % 8 + 8 * (c / 0x10 % 0x10) + 0x80 * (c / 0x100 % 8),
        c / 2 % 8 < 8,
        c / 0x10 % 0x10 < 0x10,
        c / 0x100 % 8 < 8,
        c / 0x800 % 2 <= 1,
        c / 0x1000 % 0x10 < 0x10,
        c / 0x1_0000 % 0x10 < 0x10,
        c / 0x10_0000 % 2 <= 1,
{
    assert(c % 2 == 0 && (c < 0x10_0000 || c >= 0xfff0_0000) ==> c == 2 * (c / 2 % 8) + 0x10 * (c
        / 0x10 % 0x10) + 0x100 * (c / 0x100 % 8) + 0x800 * (c / 0x800 % 2) + 0x1000 * (c / 0x1000
        % 0x10) + 0x1_0000 * (c / 0x1_0000 % 0x10) + 0xfff0_0000 * (c / 0x10_0000 % 2))
        by (bit_vector);
    assert(c / 0x1000 % 0x100 == c / 0x1000 % 0x10 + 0x10 * (c / 0x1_0000 % 0x10)) by (bit_vector);
    assert(c / 2 % 0x400 == c / 2 % 8 + 8 * (c / 0x10 % 0x10) + 0x80 * (c / 0x100 % 8))
        by (bit_vector);
}

/// Fills the slices of the operands of every row.
pub struct DecodingCheckChip;

impl DecodingCheckChip {
    /// The fields that the chip writes.
    pub open spec fn owned() -> Set<Column> {
        set![
            Column::OpA0,
            Column::OpA1_4,
            Column::OpB0,
            Column::OpB1_4,
            Column::OpC0_3,
            Column::OpC4,
            Column::OpC4_7,
            Column::OpC8_10,
            Column::OpC11,
            Column::OpC1_3,
            Column::OpC12_15,
            Column::OpC16_19,
            Column::OpC16_23,
            Column::OpC20,
            Column::OpC24_31,
        ]
    }

    /// The fields that the chip's identities speak of.
    pub open spec fn reads() -> Set<Column> {
        Self::owned().union(
            set![
                Column::InstrVal,
                Column::OpA,
                Column::OpB,
                Column::OpC,
                Column::ImmC,
                Column::ValueC,
                Column::IsAdd,
                Column::IsSub,
                Column::IsSlt,
                Column::IsSltu,
                Column::IsXor,
                Column::IsOr,
                Column::IsAnd,
                Column::IsSll,
                Column::IsSrl,
                Column::IsSra,
                Column::IsLb,
                Column::IsLh,
                Column::IsLw,
                Column::IsLbu,
                Column::IsLhu,
                Column::IsJalr,
                Column::IsLui,
                Column::IsAuipc,
                Column::IsJal,
            ],
        )
    }

    /// Whether the row holds `slices`.
    pub open spec fn holds(traces: &Traces, row: int, slices: Slices) -> bool {
        &&& traces.field(row, Column::OpA0) == seq![slices.op_a0 as nat]
        &&& traces.field(row, Column::OpA1_4) == seq![slices.op_a1_4 as nat]
        &&& traces.field(row, Column::OpB0) == seq![slices.op_b0 as nat]
        &&& traces.field(row, Column::OpB1_4) == seq![slices.op_b1_4 as nat]
        &&& traces.field(row, Column::OpC0_3) == seq![slices.op_c0_3 as nat]
        &&& traces.field(row, Column::OpC4) == seq![slices.op_c4 as nat]
        &&& traces.field(row, Column::OpC4_7) == seq![slices.op_c4_7 as nat]
        &&& traces.field(row, Column::OpC8_10) == seq![slices.op_c8_10 as nat]
        &&& traces.field(row, Column::OpC11) == seq![slices.op_c11 as nat]
        &&& traces.field(row, Column::OpC1_3) == seq![slices.op_c1_3 as nat]
        &&& traces.field(row, Column::OpC12_15) == seq![slices.op_c12_15 as nat]
        &&& traces.field(row, Column::OpC16_19) == seq![slices.op_c16_19 as nat]
        &&& traces.field(row, Column::OpC16_23) == seq![slices.op_c16_23 as nat]
        &&& traces.field(row, Column::OpC20) == seq![slices.op_c20 as nat]
        &&& traces.field(row, Column::OpC24_31) == seq![slices.op_c24_31 as nat]
    }

    /// What the row of `step` holds once the chip has filled it.
    #[verifier::opaque]
    pub open spec fn filled(traces: &Traces, row: int, step: Option<Step>) -> bool {
        Self::holds(traces, row, slices_of(step))
    }

    /// The identities that the chip declares for `row`: the operands and the
    /// instruction word are put together from the slices as the encoding
    /// shape of the row's instruction has it.
    #[verifier::opaque]
    pub open spec fn constraints(traces: &Traces, row: int) -> bool {
        &&& is_type_r(traces, row) ==> r_identities(traces, row)
        &&& is_type_i(traces, row) ==> i_identities(traces, row)
        &&& is_type_u(traces, row) ==> u_identities(traces, row)
        &&& is_type_j(traces, row) ==> j_identities(traces, row)
    }

    /// What the chip filled holds of a row for as long as the chip's fields
    /// stay as they are.
    pub proof fn lemma_filled_kept(before: &Traces, after: &Traces, row: int, step: Option<Step>)
        requires
            Self::filled(before, row, step),
            agree_on(before, after, row, Self::owned()),
        ensures
            Self::filled(after, row, step),
    {
        reveal(DecodingCheckChip::filled);
        assert(Self::owned().contains(Column::OpA0));
        assert(Self::owned().contains(Column::OpA1_4));
        assert(Self::owned().contains(Column::OpB0));
        assert(Self::owned().contains(Column::OpB1_4));
        assert(Self::owned().contains(Column::OpC0_3));
        assert(Self::owned().contains(Column::OpC4));
        assert(Self::owned().contains(Column::OpC4_7));
        assert(Self::owned().contains(Column::OpC8_10));
        assert(Self::owned().contains(Column::OpC11));
        assert(Self::owned().contains(Column::OpC1_3));
        assert(Self::owned().contains(Column::OpC12_15));
        assert(Self::owned().contains(Column::OpC16_19));
        assert(Self::owned().contains(Column::OpC16_23));
        assert(Self::owned().contains(Column::OpC20));
        assert(Self::owned().contains(Column::OpC24_31));
    }

    /// The identities hold of a row for as long as its fields stay as they are.
    pub proof fn lemma_constraints_kept(before: &Traces, after: &Traces, row: int)
        requires
            Self::constraints(before, row),
            agree_on(before, after, row, Self::reads()),
        ensures
            Self::constraints(after, row),
    {
        reveal(DecodingCheckChip::constraints);
        assert(Self::reads().contains(Column::InstrVal));
        assert(Self::reads().contains(Column::OpA));
        assert(Self::reads().contains(Column::OpB));
        assert(Self::reads().contains(Column::OpC));
        assert(Self::reads().contains(Column::ImmC));
        assert(Self::reads().contains(Column::ValueC));
        assert(Self::reads().contains(Column::IsAdd));
        assert(Self::reads().contains(Column::IsSub));
        assert(Self::reads().contains(Column::IsSlt));
        assert(Self::reads().contains(Column::IsSltu));
        assert(Self::reads().contains(Column::IsXor));
        assert(Self::reads().contains(Column::IsOr));
        assert(Self::reads().contains(Column::IsAnd));
        assert(Self::reads().contains(Column::IsSll));
        assert(Self::reads().contains(Column::IsSrl));
        assert(Self::reads().contains(Column::IsSra));
        assert(Self::reads().contains(Column::IsLb));
        assert(Self::reads().contains(Column::IsLh));
        assert(Self::reads().contains(Column::IsLw));
        assert(Self::reads().contains(Column::IsLbu));
        assert(Self::reads().contains(Column::IsLhu));
        assert(Self::reads().contains(Column::IsJalr));
        assert(Self::reads().contains(Column::IsLui));
        assert(Self::reads().contains(Column::IsAuipc));
        assert(Self::reads().contains(Column::IsJal));
        assert(Self::reads().contains(Column::OpA0));
        assert(Self::reads().contains(Column::OpA1_4));
        assert(Self::reads().contains(Column::OpB0));
        assert(Self::reads().contains(Column::OpB1_4));
        assert(Self::reads().contains(Column::OpC0_3));
        assert(Self::reads().contains(Column::OpC4));
        assert(Self::reads().contains(Column::OpC4_7));
        assert(Self::reads().contains(Column::OpC8_10));
        assert(Self::reads().contains(Column::OpC11));
        assert(Self::reads().contains(Column::OpC1_3));
        assert(Self::reads().contains(Column::OpC12_15));
        assert(Self::reads().contains(Column::OpC16_19));
        assert(Self::reads().contains(Column::OpC16_23));
        assert(Self::reads().contains(Column::OpC20));
        assert(Self::reads().contains(Column::OpC24_31));
    }

    /// The slices that a filled row holds fit their bits.
    pub proof fn lemma_slices_in_range(traces: &Traces, row: int, step: Option<Step>)
        requires
            Self::filled(traces, row, step),
        ensures
            flag(traces, row, Column::OpA0) < 2,
            flag(traces, row, Column::OpB0) < 2,
            flag(traces, row, Column::OpC4) < 2,
            flag(traces, row, Column::OpC11) < 2,
            flag(traces, row, Column::OpC20) < 2,
            flag(traces, row, Column::OpC1_3) < 8,
            flag(traces, row, Column::OpC8_10) < 8,
            flag(traces, row, Column::OpA1_4) < 0x10,
            flag(traces, row, Column::OpB1_4) < 0x10,
            flag(traces, row, Column::OpC0_3) < 0x10,
            flag(traces, row, Column::OpC4_7) < 0x10,
            flag(traces, row, Column::OpC12_15) < 0x10,
            flag(traces, row, Column::OpC16_19) < 0x10,
            flag(traces, row, Column::OpC16_23) < 0x100,
            flag(traces, row, Column::OpC24_31) < 0x100,
    {
        reveal(DecodingCheckChip::filled);
    }

    /// The flags of a filled row give the encoding shape of its instruction,
    /// and the fixed bits of its word.
    pub proof fn lemma_row_shape(traces: &Traces, row: int, s: Step)
        requires
            CpuChip::filled(traces, row, Some(s)),
            s.wf(),
            supports(s),
        ensures
            is_type_r(traces, row) == (s.instruction.ins_type == InstructionType::RType),
            is_type_i(traces, row) == (s.instruction.ins_type == InstructionType::IType && !(
            s.instruction.opcode.builtin matches Some(
                BuiltinOpcode::ECALL | BuiltinOpcode::EBREAK,
            ))),
            is_type_u(traces, row) == (s.instruction.ins_type == InstructionType::UType),
            is_type_j(traces, row) == (s.instruction.ins_type == InstructionType::JType),
            is_type_r(traces, row) || is_type_i(traces, row) || is_type_u(traces, row) || is_type_j(
                traces,
                row,
            ) ==> major_of(traces, row) == s.instruction.opcode.builtin->0.raw_spec(),
            is_type_r(traces, row) || is_type_i(traces, row) ==> funct3_of(traces, row)
                == s.instruction.opcode.builtin->0.funct3_spec(),
            is_type_r(traces, row) ==> funct7_of(traces, row)
                == s.instruction.opcode.builtin->0.funct7_spec(),
    {
        reveal(CpuChip::filled);
        let selected = selected_flag(Some(s));
        assert(CpuChip::one_hot(traces, row, selected));
        assert(traces.field(row, Column::ImmC) == seq![bit(s.is_value_c_imm_spec())]);
        assert(traces.field(row, Column::IsAdd) == seq![bit(Column::IsAdd == selected)]);
        assert(traces.field(row, Column::IsSub) == seq![bit(Column::IsSub == selected)]);
        assert(traces.field(row, Column::IsSlt) == seq![bit(Column::IsSlt == selected)]);
        assert(traces.field(row, Column::IsSltu) == seq![bit(Column::IsSltu == selected)]);
        assert(traces.field(row, Column::IsXor) == seq![bit(Column::IsXor == selected)]);
        assert(traces.field(row, Column::IsOr) == seq![bit(Column::IsOr == selected)]);
        assert(traces.field(row, Column::IsAnd) == seq![bit(Column::IsAnd == selected)]);
        assert(traces.field(row, Column::IsSll) == seq![bit(Column::IsSll == selected)]);
        assert(traces.field(row, Column::IsSrl) == seq![bit(Column::IsSrl == selected)]);
        assert(traces.field(row, Column::IsSra) == seq![bit(Column::IsSra == selected)]);
        assert(traces.field(row, Column::IsLb) == seq![bit(Column::IsLb == selected)]);
        assert(traces.field(row, Column::IsLh) == seq![bit(Column::IsLh == selected)]);
        assert(traces.field(row, Column::IsLw) == seq![bit(Column::IsLw == selected)]);
        assert(traces.field(row, Column::IsLbu) == seq![bit(Column::IsLbu == selected)]);
        assert(traces.field(row, Column::IsLhu) == seq![bit(Column::IsLhu == selected)]);
        assert(traces.field(row, Column::IsJalr) == seq![bit(Column::IsJalr == selected)]);
        assert(traces.field(row, Column::IsLui) == seq![bit(Column::IsLui == selected)]);
        assert(traces.field(row, Column::IsAuipc) == seq![bit(Column::IsAuipc == selected)]);
        assert(traces.field(row, Column::IsJal) == seq![bit(Column::IsJal == selected)]);
    }

    /// In a row that the processor chip and this chip have filled for a step
    /// whose instruction word is the encoding of its instruction, the chip's
    /// identities hold; so they do in a padding row.
    pub proof fn lemma_constraints(traces: &Traces, row: int, step: Option<Step>)
        requires
            CpuChip::filled(traces, row, step),
            Self::filled(traces, row, step),
            step matches Some(s) ==> s.wf() && supports(s) && decodes(s),
        ensures
            Self::constraints(traces, row),
    {
        reveal(DecodingCheckChip::constraints);
        match step {
            Some(s) => {
                Self::lemma_row_shape(traces, row, s);
                match s.instruction.ins_type {
                    InstructionType::RType => Self::lemma_r_identities(traces, row, s),
                    InstructionType::IType => Self::lemma_i_identities(traces, row, s),
                    InstructionType::UType => Self::lemma_u_identities(traces, row, s),
                    InstructionType::JType => Self::lemma_j_identities(traces, row, s),
                    _ => {},
                }
            },
            None => {
                reveal(CpuChip::filled);
                assert(CpuChip::one_hot(traces, row, Column::IsPadding));
                assert(traces.field(row, Column::IsAdd) == seq![0nat]);
                assert(traces.field(row, Column::IsSub) == seq![0nat]);
                assert(traces.field(row, Column::IsSlt) == seq![0nat]);
                assert(traces.field(row, Column::IsSltu) == seq![0nat]);
                assert(traces.field(row, Column::IsXor) == seq![0nat]);
                assert(traces.field(row, Column::IsOr) == seq![0nat]);
                assert(traces.field(row, Column::IsAnd) == seq![0nat]);
                assert(traces.field(row, Column::IsSll) == seq![0nat]);
                assert(traces.field(row, Column::IsSrl) == seq![0nat]);
                assert(traces.field(row, Column::IsSra) == seq![0nat]);
                assert(traces.field(row, Column::IsLb) == seq![0nat]);
                assert(traces.field(row, Column::IsLh) == seq![0nat]);
                assert(traces.field(row, Column::IsLw) == seq![0nat]);
                assert(traces.field(row, Column::IsLbu) == seq![0nat]);
                assert(traces.field(row, Column::IsLhu) == seq![0nat]);
                assert(traces.field(row, Column::IsJalr) == seq![0nat]);
                assert(traces.field(row, Column::IsLui) == seq![0nat]);
                assert(traces.field(row, Column::IsAuipc) == seq![0nat]);
                assert(traces.field(row, Column::IsJal) == seq![0nat]);
            },
        }
    }

    /// The identities of a filled row are those of the encoding shape of its
    /// instruction.
    pub proof fn lemma_identities(traces: &Traces, row: int, s: Step)
        requires
            CpuChip::filled(traces, row, Some(s)),
            Self::constraints(traces, row),
            s.wf(),
            supports(s),
            !(s.instruction.opcode.builtin matches Some(
                BuiltinOpcode::ECALL | BuiltinOpcode::EBREAK,
            )),
        ensures
            identities(traces, row, s.instruction.ins_type),
            is_decoded(s.instruction.ins_type) ==> major_of(traces, row)
                == s.instruction.opcode.builtin->0.raw_spec(),
    {
        reveal(DecodingCheckChip::constraints);
        Self::lemma_row_shape(traces, row, s);
    }

    /// The identities of a row with an instruction on registers only.
    proof fn lemma_r_identities(traces: &Traces, row: int, s: Step)
        requires
            CpuChip::filled(traces, row, Some(s)),
            Self::filled(traces, row, Some(s)),
            s.wf(),
            supports(s),
            decodes(s),
            s.instruction.ins_type == InstructionType::RType,
        ensures
            r_identities(traces, row),
    {
        Self::lemma_row_shape(traces, row, s);
        reveal(CpuChip::filled);
        reveal(DecodingCheckChip::filled);
        let opcode = s.instruction.opcode.builtin->0;
        let a = s.instruction.op_a.index_spec();
        let b = s.instruction.op_b.index_spec();
        let c = s.instruction.op_c;
        let slices = slices_of(Some(s));
        lemma_register_slices(a);
        lemma_register_slices(b);
        lemma_shamt_slices(c);
        opcode.lemma_fixed_bits();
        assert(c % P == c);
        lemma_limbs_of_value(
            s.raw_instruction,
            (opcode.raw_spec() + 0x80 * (a % 2)) as nat,
            (a / 2 + 0x10 * opcode.funct3_spec() + 0x80 * (b % 2)) as nat,
            (b / 2 + 0x10 * (c % 0x10)) as nat,
            (c / 0x10 % 2 + 2 * opcode.funct7_spec()) as nat,
        );
    }

    /// The identities of a row with an instruction with an immediate value
    /// of 12 bits.
    proof fn lemma_i_identities(traces: &Traces, row: int, s: Step)
        requires
            CpuChip::filled(traces, row, Some(s)),
            Self::filled(traces, row, Some(s)),
            s.wf(),
            supports(s),
            decodes(s),
            s.instruction.ins_type == InstructionType::IType,
        ensures
            is_type_i(traces, row) ==> i_identities(traces, row),
    {
        Self::lemma_row_shape(traces, row, s);
        reveal(CpuChip::filled);
        reveal(DecodingCheckChip::filled);
        let opcode = s.instruction.opcode.builtin->0;
        let a = s.instruction.op_a.index_spec();
        let b = s.instruction.op_b.index_spec();
        let c = s.instruction.op_c;
        let slices = slices_of(Some(s));
        lemma_register_slices(a);
        lemma_register_slices(b);
        lemma_imm12_slices(c);
        opcode.lemma_fixed_bits();
        let top = (c / 0x800 % 2) as nat;
        lemma_limbs_of_value(
            s.raw_instruction,
            (opcode.raw_spec() + 0x80 * (a % 2)) as nat,
            (a / 2 + 0x10 * opcode.funct3_spec() + 0x80 * (b % 2)) as nat,
            (b / 2 + 0x10 * (c % 0x10)) as nat,
            (c / 0x10 % 0x10 + 0x10 * (c / 0x100 % 8) + 0x80 * top) as nat,
        );
        lemma_limbs_of_value(
            c,
            (c % 0x10 + 0x10 * (c / 0x10 % 0x10)) as nat,
            (c / 0x100 % 8 + 0xf8 * top) as nat,
            (0xff * top) as nat,
            (0xff * top) as nat,
        );
    }

    /// The identities of a row with an instruction with an upper immediate
    /// value.
    proof fn lemma_u_identities(traces: &Traces, row: int, s: Step)
        requires
            CpuChip::filled(traces, row, Some(s)),
            Self::filled(traces, row, Some(s)),
            s.wf(),
            supports(s),
            decodes(s),
            s.instruction.ins_type == InstructionType::UType,
        ensures
            u_identities(traces, row),
    {
        Self::lemma_row_shape(traces, row, s);
        reveal(CpuChip::filled);
        reveal(DecodingCheckChip::filled);
        let opcode = s.instruction.opcode.builtin->0;
        let a = s.instruction.op_a.index_spec();
        let c = s.instruction.op_c;
        let slices = slices_of(Some(s));
        lemma_register_slices(a);
        lemma_upper_slices(c);
        opcode.lemma_fixed_bits();
        lemma_limbs_of_value(
            s.raw_instruction,
            (opcode.raw_spec() + 0x80 * (a % 2)) as nat,
            (a / 2 + 0x10 * (c / 0x1000 % 0x10)) as nat,
            (c / 0x1_0000 % 0x100) as nat,
            (c / 0x100_0000) as nat,
        );
        lemma_limbs_of_value(
            c,
            0,
            (0x10 * (c / 0x1000 % 0x10)) as nat,
            (c / 0x1_0000 % 0x100) as nat,
            (c / 0x100_0000) as nat,
        );
    }

    /// The identities of a row with a jump with an offset of 21 bits.
    proof fn lemma_j_identities(traces: &Traces, row: int, s: Step)
        requires
            CpuChip::filled(traces, row, Some(s)),
            Self::filled(traces, row, Some(s)),
            s.wf(),
            supports(s),
            decodes(s),
            s.instruction.ins_type == InstructionType::JType,
        ensures
            j_identities(traces, row),
    {
        Self::lemma_row_shape(traces, row, s);
        reveal(CpuChip::filled);
        reveal(DecodingCheckChip::filled);
        let opcode = s.instruction.opcode.builtin->0;
        let a = s.instruction.op_a.index_spec();
        let c = s.instruction.op_c;
        let slices = slices_of(Some(s));
        lemma_register_slices(a);
        lemma_imm21_slices(c);
        opcode.lemma_fixed_bits();
        let top = (c / 0x10_0000 % 2) as nat;
        lemma_limbs_of_value(
            s.raw_instruction,
            (opcode.raw_spec() + 0x80 * (a % 2)) as nat,
            (a / 2 + 0x10 * (c / 0x1000 % 0x10)) as nat,
            (c / 0x1_0000 % 0x10 + 0x10 * (c / 0x800 % 2) + 0x20 * (c / 2 % 8)) as nat,
            (c / 0x10 % 0x10 + 0x10 * (c / 0x100 % 8) + 0x80 * top) as nat,
        );
        lemma_limbs_of_value(
            c,
            (2 * (c / 2 % 8) + 0x10 * (c / 0x10 % 0x10)) as nat,
            (c / 0x100 % 8 + 8 * (c / 0x800 % 2) + 0x10 * (c / 0x1000 % 0x10)) as nat,
            (c / 0x1_0000 % 0x10 + 0xf0 * top) as nat,
            (0xff * top) as nat,
        );
    }

    /// Writes `slices` to `row_idx`.
    fn fill_slices(traces: &mut Traces, row_idx: usize, slices: Slices)
        requires
            old(traces).wf(),
            row_idx < old(traces).rows(),
        ensures
            final(traces).wf(),
            final(traces).same_outside(old(traces), row_idx as int, Self::owned()),
            Self::holds(final(traces), row_idx as int, slices),
    {
        traces.fill_columns_value(
            row_idx,
            Column::OpA0,
            BaseField::from_u32(slices.op_a0 as u32),
        );
        traces.fill_columns_value(
            row_idx,
            Column::OpA1_4,
            BaseField::from_u32(slices.op_a1_4 as u32),
        );
        traces.fill_columns_value(
            row_idx,
            Column::OpB0,
            BaseField::from_u32(slices.op_b0 as u32),
        );
        traces.fill_columns_value(
            row_idx,
            Column::OpB1_4,
            BaseField::from_u32(slices.op_b1_4 as u32),
        );
        traces.fill_columns_value(
            row_idx,
            Column::OpC0_3,
            BaseField::from_u32(slices.op_c0_3 as u32),
        );
        traces.fill_columns_value(
            row_idx,
            Column::OpC4,
            BaseField::from_u32(slices.op_c4 as u32),
        );
        traces.fill_columns_value(
            row_idx,
            Column::OpC4_7,
            BaseField::from_u32(slices.op_c4_7 as u32),
        );
        traces.fill_columns_value(
            row_idx,
            Column::OpC8_10,
            BaseField::from_u32(slices.op_c8_10 as u32),
        );
        traces.fill_columns_value(
            row_idx,
            Column::OpC11,
            BaseField::from_u32(slices.op_c11 as u32),
        );
        traces.fill_columns_value(
            row_idx,
            Column::OpC1_3,
            BaseField::from_u32(slices.op_c1_3 as u32),
        );
        traces.fill_columns_value(
            row_idx,
            Column::OpC12_15,
            BaseField::from_u32(slices.op_c12_15 as u32),
        );
        traces.fill_columns_value(
            row_idx,
            Column::OpC16_19,
            BaseField::from_u32(slices.op_c16_19 as u32),
        );
        traces.fill_columns_value(
            row_idx,
            Column::OpC16_23,
            BaseField::from_u32(slices.op_c16_23 as u32),
        );
        traces.fill_columns_value(
            row_idx,
            Column::OpC20,
            BaseField::from_u32(slices.op_c20 as u32),
        );
        traces.fill_columns_value(
            row_idx,
            Column::OpC24_31,
            BaseField::from_u32(slices.op_c24_31 as u32),
        );
    }

    /// The slices of the operands of `step`.
    fn slices(vm_step: &Option<Step>) -> (slices: Slices)
        ensures
            slices == slices_of(*vm_step),
    {
        let none = Slices {
            op_a0: 0,
            op_a1_4: 0,
            op_b0: 0,
            op_b1_4: 0,
            op_c0_3: 0,
            op_c4: 0,
            op_c4_7: 0,
            op_c8_10: 0,
            op_c11: 0,
            op_c1_3: 0,
            op_c12_15: 0,
            op_c16_19: 0,
            op_c16_23: 0,
            op_c20: 0,
            op_c24_31: 0,
        };
        let step = match vm_step {
            Some(step) => step,
            None => {
                return none;
            },
        };
        let a = step.instruction.op_a.index() as u8;
        let b = step.instruction.op_b.index() as u8;
        let c = step.instruction.op_c;
        let of_a = Slices { op_a0: a % 2, op_a1_4: a / 2, ..none };
        let of_a_b = Slices { op_b0: b % 2, op_b1_4: b / 2, ..of_a };
        match step.instruction.ins_type {
            InstructionType::RType => Slices {
                op_c0_3: (c % 0x10) as u8,
                op_c4: (c / 0x10 % 2) as u8,
                ..of_a_b
            },
            InstructionType::IType => Slices {
                op_c0_3: (c % 0x10) as u8,
                op_c4_7: (c / 0x10 % 0x10) as u8,
                op_c8_10: (c / 0x100 % 8) as u8,
                op_c11: (c / 0x800 % 2) as u8,
                ..of_a_b
            },
            InstructionType::UType => Slices {
                op_c12_15: (c / 0x1000 % 0x10) as u8,
                op_c16_23: (c / 0x1_0000 % 0x100) as u8,
                op_c24_31: (c / 0x100_0000) as u8,
                ..of_a
            },
            InstructionType::JType => Slices {
                op_c1_3: (c / 2 % 8) as u8,
                op_c4_7: (c / 0x10 % 0x10) as u8,
                op_c8_10: (c / 0x100 % 8) as u8,
                op_c11: (c / 0x800 % 2) as u8,
                op_c12_15: (c / 0x1000 % 0x10) as u8,
                op_c16_19: (c / 0x1_0000 % 0x10) as u8,
                op_c20: (c / 0x10_0000 % 2) as u8,
                ..of_a
            },
            _ => none,
        }
    }

    /// Writes the slices of the operands of the row's instruction: those
    /// that the encoding shape of the instruction uses, and zeros for all
    /// others and in a padding row.
    pub fn fill_main_trace(traces: &mut Traces, row_idx: usize, vm_step: &Option<Step>)
        requires
            old(traces).wf(),
            row_idx < old(traces).rows(),
        ensures
            final(traces).wf(),
            final(traces).same_outside(old(traces), row_idx as int, Self::owned()),
            Self::filled(final(traces), row_idx as int, *vm_step),
    {
        proof {
            reveal(DecodingCheckChip::filled);
        }
        let slices = Self::slices(vm_step);
        Self::fill_slices(traces, row_idx, slices);
    }
}

} // verus!
