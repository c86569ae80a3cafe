use zkvm_trace::chips::decoding::encode;
use zkvm_trace::column::Column;
use zkvm_trace::cpu::RegisterFile;
use zkvm_trace::field::BaseField;
use zkvm_trace::machine::Machine;
use zkvm_trace::riscv::{BuiltinOpcode, Instruction, InstructionType, Opcode, Register};
use zkvm_trace::step::Step;
use zkvm_trace::trace::Traces;

fn values(fields: &[BaseField]) -> Vec<u32> {
    fields.iter().map(|f| f.value()).collect()
}

fn field(traces: &Traces, row: usize, col: Column) -> Vec<u32> {
    values(&traces.column(row, col))
}

fn step(
    regs: &[(Register, u32)],
    pc: u32,
    opcode: BuiltinOpcode,
    op_a: u8,
    op_b: u8,
    op_c: u32,
    ins_type: InstructionType,
) -> Step {
    let mut file = RegisterFile::new();
    for (reg, value) in regs {
        file.write(*reg, *value);
    }
    let instruction = Instruction::new(Opcode::from(opcode), op_a, op_b, op_c, ins_type);
    let raw_instruction = encode(&instruction).unwrap_or(0);
    Step { regs: file, pc, next_pc: pc.wrapping_add(4), instruction, raw_instruction, result: None }
}

const FLAGS: [Column; 37] = [
    Column::IsAdd,
    Column::IsOr,
    Column::IsAnd,
    Column::IsXor,
    Column::IsSub,
    Column::IsSltu,
    Column::IsSlt,
    Column::IsBne,
    Column::IsBeq,
    Column::IsBltu,
    Column::IsBlt,
    Column::IsBgeu,
    Column::IsBge,
    Column::IsJal,
    Column::IsSb,
    Column::IsSh,
    Column::IsSw,
    Column::IsLb,
    Column::IsLh,
    Column::IsLbu,
    Column::IsLhu,
    Column::IsLw,
    Column::IsLui,
    Column::IsAuipc,
    Column::IsJalr,
    Column::IsSll,
    Column::IsSrl,
    Column::IsSra,
    Column::IsEcall,
    Column::IsEbreak,
    Column::IsSysDebug,
    Column::IsSysHalt,
    Column::IsSysPrivInput,
    Column::IsSysCycleCount,
    Column::IsSysStackReset,
    Column::IsSysHeapReset,
    Column::IsPadding,
];

fn assert_one_hot(traces: &Traces, row: usize, selected: Column) {
    for flag in FLAGS {
        let expected = if flag == selected { 1 } else { 0 };
        assert_eq!(field(traces, row, flag), vec![expected], "{flag:?} in row {row}");
    }
}

#[test]
fn single_add_instruction() {
    let add = step(
        &[(Register::X2, 5), (Register::X3, 7)],
        0,
        BuiltinOpcode::ADD,
        1,
        2,
        3,
        InstructionType::RType,
    );
    assert!(Machine::is_accepted(&add));
    let traces = Machine::fill_trace(8, vec![add]);

    assert_one_hot(&traces, 0, Column::IsAdd);
    assert_eq!(field(&traces, 0, Column::OpA), vec![1]);
    assert_eq!(field(&traces, 0, Column::OpB), vec![2]);
    assert_eq!(field(&traces, 0, Column::OpC), vec![3]);
    assert_eq!(field(&traces, 0, Column::ImmC), vec![0]);
    assert_eq!(field(&traces, 0, Column::ValueB), vec![5, 0, 0, 0]);
    assert_eq!(field(&traces, 0, Column::ValueC), vec![7, 0, 0, 0]);
    assert_eq!(field(&traces, 0, Column::ValueA), vec![12, 0, 0, 0]);
    assert_eq!(field(&traces, 0, Column::CarryFlag), vec![0, 0, 0, 0]);
    assert_eq!(field(&traces, 0, Column::Pc), vec![0, 0, 0, 0]);
    assert_eq!(field(&traces, 0, Column::PcNext), vec![4, 0, 0, 0]);
    assert_eq!(field(&traces, 0, Column::PcCarry), vec![0, 0, 0, 0]);
    assert_eq!(field(&traces, 0, Column::InstrVal), vec![0xb3, 0x00, 0x31, 0x00]);
    assert_eq!(field(&traces, 0, Column::ValueAEffective), vec![12, 0, 0, 0]);
    assert_eq!(field(&traces, 0, Column::ValueAEffectiveFlag), vec![1]);
    assert_eq!(field(&traces, 0, Column::ValueAEffectiveFlagAux), vec![1]);
    assert_eq!(field(&traces, 0, Column::ValueAEffectiveFlagAuxInv), vec![1]);

    // every other row is padding
    for row in [1usize, 2, 100, 255] {
        assert_one_hot(&traces, row, Column::IsPadding);
        assert_eq!(field(&traces, row, Column::ValueA), vec![0, 0, 0, 0]);
        assert_eq!(field(&traces, row, Column::Reg3Accessed), vec![0]);
        assert_eq!(field(&traces, row, Column::ValueAEffectiveFlagAux), vec![1]);
    }

    // register accesses of the row, at timestamps 4, 5 and 6
    assert_eq!(field(&traces, 0, Column::Reg1Accessed), vec![1]);
    assert_eq!(field(&traces, 0, Column::Reg1Address), vec![2]);
    assert_eq!(field(&traces, 0, Column::Reg1TsPrev), vec![0, 0, 0, 0]);
    assert_eq!(field(&traces, 0, Column::CReg1TsPrev), vec![3, 0, 0, 0]);
    assert_eq!(field(&traces, 0, Column::Reg2Address), vec![3]);
    assert_eq!(field(&traces, 0, Column::CReg2TsPrev), vec![4, 0, 0, 0]);
    assert_eq!(field(&traces, 0, Column::Reg3Accessed), vec![1]);
    assert_eq!(field(&traces, 0, Column::Reg3Address), vec![1]);
    assert_eq!(field(&traces, 0, Column::CReg3TsPrev), vec![5, 0, 0, 0]);
    assert_eq!(field(&traces, 0, Column::CH3Minus), vec![0, 0, 0, 0]);

    // final state of the registers: x1 was written at 6, x2 read at 4, x3 read at 5
    assert_eq!(field(&traces, 1, Column::FinalRegValue), vec![12, 0, 0, 0]);
    assert_eq!(field(&traces, 1, Column::FinalRegTs), vec![6, 0, 0, 0]);
    assert_eq!(field(&traces, 2, Column::FinalRegValue), vec![0, 0, 0, 0]);
    assert_eq!(field(&traces, 2, Column::FinalRegTs), vec![4, 0, 0, 0]);
    assert_eq!(field(&traces, 3, Column::FinalRegTs), vec![5, 0, 0, 0]);
    assert_eq!(field(&traces, 4, Column::FinalRegTs), vec![0, 0, 0, 0]);
}

#[test]
fn multiplicities_are_conserved() {
    let add = step(
        &[(Register::X2, 5), (Register::X3, 7)],
        0,
        BuiltinOpcode::ADD,
        1,
        2,
        3,
        InstructionType::RType,
    );
    let traces = Machine::fill_trace(8, vec![add]);
    let mut total = 0u64;
    for value in 0..256usize {
        total += field(&traces, value, Column::Multiplicity256)[0] as u64;
    }
    // 16 words of 4 bytes in each of 256 rows
    assert_eq!(total, 64 * 256);
    // the looked-up bytes that are not zero, all in the first row: 12 twice
    // (ValueA and ValueAEffective), 5, 7, 4 twice (PcNext and the gap of the
    // second access), and the instruction word and the other gaps
    assert_eq!(field(&traces, 12, Column::Multiplicity256), vec![2]);
    assert_eq!(field(&traces, 7, Column::Multiplicity256), vec![1]);
    assert_eq!(field(&traces, 4, Column::Multiplicity256), vec![2]);
    assert_eq!(field(&traces, 5, Column::Multiplicity256), vec![2]);
    assert_eq!(field(&traces, 3, Column::Multiplicity256), vec![1]);
    assert_eq!(field(&traces, 0xb3, Column::Multiplicity256), vec![1]);
    assert_eq!(field(&traces, 0x31, Column::Multiplicity256), vec![1]);
    assert_eq!(field(&traces, 200, Column::Multiplicity256), vec![0]);
}

#[test]
fn two_writes_to_one_register() {
    // x1 = x0 + 9 at row 0 (timestamp 6), x1 = x1 - x2 at row 1 (timestamp 9)
    let first = step(&[], 0, BuiltinOpcode::ADDI, 1, 0, 9, InstructionType::IType);
    let second = step(
        &[(Register::X1, 9), (Register::X2, 10)],
        4,
        BuiltinOpcode::SUB,
        1,
        1,
        2,
        InstructionType::RType,
    );
    let traces = Machine::fill_trace(8, vec![first, second]);

    assert_one_hot(&traces, 0, Column::IsAdd);
    assert_eq!(field(&traces, 0, Column::ValueA), vec![9, 0, 0, 0]);
    assert_eq!(field(&traces, 0, Column::ImmC), vec![1]);
    assert_eq!(field(&traces, 0, Column::Reg2Accessed), vec![0]);

    assert_one_hot(&traces, 1, Column::IsSub);
    // 9 - 10 wraps around
    assert_eq!(field(&traces, 1, Column::ValueA), vec![0xff, 0xff, 0xff, 0xff]);
    assert_eq!(field(&traces, 1, Column::BorrowFlag), vec![1, 1, 1, 1]);
    assert_eq!(field(&traces, 1, Column::Pc), vec![4, 0, 0, 0]);
    assert_eq!(field(&traces, 1, Column::PcNext), vec![8, 0, 0, 0]);

    // the read of x1 at row 1 (timestamp 7) finds the write of row 0
    assert_eq!(field(&traces, 1, Column::Reg1Address), vec![1]);
    assert_eq!(field(&traces, 1, Column::Reg1ValPrev), vec![9, 0, 0, 0]);
    assert_eq!(field(&traces, 1, Column::Reg1TsPrev), vec![6, 0, 0, 0]);
    assert_eq!(field(&traces, 1, Column::CReg1TsPrev), vec![0, 0, 0, 0]);
    assert_eq!(field(&traces, 1, Column::CH1Minus), vec![0, 0, 0, 0]);
    // the write of x1 at row 1 (timestamp 9) finds that read
    assert_eq!(field(&traces, 1, Column::Reg3ValPrev), vec![9, 0, 0, 0]);
    assert_eq!(field(&traces, 1, Column::Reg3TsPrev), vec![7, 0, 0, 0]);
    assert_eq!(field(&traces, 1, Column::CReg3TsPrev), vec![1, 0, 0, 0]);

    assert_eq!(
        field(&traces, 1, Column::FinalRegValue),
        vec![0xff, 0xff, 0xff, 0xff]
    );
    assert_eq!(field(&traces, 1, Column::FinalRegTs), vec![9, 0, 0, 0]);
    assert_eq!(field(&traces, 2, Column::FinalRegTs), vec![8, 0, 0, 0]);
}

#[test]
fn writes_to_the_zero_register_are_dropped() {
    let add = step(
        &[(Register::X2, 0xffff_ffff), (Register::X3, 2)],
        0xffff_fffc,
        BuiltinOpcode::ADD,
        0,
        2,
        3,
        InstructionType::RType,
    );
    let traces = Machine::fill_trace(8, vec![add]);
    assert_eq!(field(&traces, 0, Column::ValueA), vec![1, 0, 0, 0]);
    assert_eq!(field(&traces, 0, Column::CarryFlag), vec![1, 1, 1, 1]);
    assert_eq!(field(&traces, 0, Column::ValueAEffective), vec![0, 0, 0, 0]);
    assert_eq!(field(&traces, 0, Column::ValueAEffectiveFlag), vec![0]);
    // the program counter wraps around
    assert_eq!(field(&traces, 0, Column::Pc), vec![0xfc, 0xff, 0xff, 0xff]);
    assert_eq!(field(&traces, 0, Column::PcNext), vec![0, 0, 0, 0]);
    assert_eq!(field(&traces, 0, Column::PcCarry), vec![1, 1, 1, 1]);
    assert_eq!(field(&traces, 0, Column::FinalRegValue), vec![0, 0, 0, 0]);
    assert_eq!(field(&traces, 0, Column::FinalRegTs), vec![6, 0, 0, 0]);
}

#[test]
fn effective_value_witness_inverts_the_register_index() {
    let add = step(&[], 0, BuiltinOpcode::ADDI, 19, 0, 1, InstructionType::IType);
    let traces = Machine::fill_trace(8, vec![add]);
    let aux = traces.column(0, Column::ValueAEffectiveFlagAux)[0];
    let aux_inv = traces.column(0, Column::ValueAEffectiveFlagAuxInv)[0];
    assert_eq!(aux_inv.value(), 19);
    assert_eq!(aux.times(aux_inv).value(), 1);
    assert_eq!(aux.times(BaseField::from_u32(19)).value(), 1);
    assert_ne!(aux.value(), 19);
}

#[test]
fn steps_the_machine_does_not_compute() {
    let ebreak = step(&[], 0, BuiltinOpcode::EBREAK, 0, 0, 1, InstructionType::IType);
    assert!(!Machine::is_accepted(&ebreak));
    let ecall = step(&[], 0, BuiltinOpcode::ECALL, 0, 0, 0, InstructionType::IType);
    assert!(!Machine::is_accepted(&ecall));
    // an instruction in the encoding shape of another
    let shaped = step(&[], 0, BuiltinOpcode::ADD, 1, 2, 3, InstructionType::IType);
    assert!(!Machine::is_accepted(&shaped));
    let fence = step(&[], 0, BuiltinOpcode::FENCE, 0, 0, 0, InstructionType::IType);
    assert!(!Machine::is_accepted(&fence));
    let mut bad = step(&[], 0, BuiltinOpcode::ADD, 1, 2, 3, InstructionType::RType);
    bad.instruction.op_c = 32;
    assert!(!Machine::is_accepted(&bad));
    let sub = step(&[], 0, BuiltinOpcode::SUB, 1, 2, 3, InstructionType::RType);
    assert!(Machine::is_accepted(&sub));
}

fn run_one(s: Step) -> Traces {
    assert!(Machine::is_accepted(&s));
    Machine::fill_trace(8, vec![s])
}

fn word(value: u32) -> Vec<u32> {
    value.to_le_bytes().iter().map(|b| *b as u32).collect()
}

#[test]
fn unsigned_comparison() {
    let less = run_one(step(
        &[(Register::X2, 5), (Register::X3, 0xffff_fff0)],
        0,
        BuiltinOpcode::SLTU,
        1,
        2,
        3,
        InstructionType::RType,
    ));
    assert_one_hot(&less, 0, Column::IsSltu);
    assert_eq!(field(&less, 0, Column::ValueA), vec![1, 0, 0, 0]);
    assert_eq!(field(&less, 0, Column::BorrowFlag), vec![1, 1, 1, 1]);
    assert_eq!(field(&less, 0, Column::Helper1), word(5u32.wrapping_sub(0xffff_fff0)));

    let not_less = run_one(step(
        &[(Register::X2, 9)],
        0,
        BuiltinOpcode::SLTIU,
        1,
        2,
        9,
        InstructionType::IType,
    ));
    assert_eq!(field(&not_less, 0, Column::ValueA), vec![0, 0, 0, 0]);
    assert_eq!(field(&not_less, 0, Column::BorrowFlag), vec![0, 0, 0, 0]);
    assert_eq!(field(&not_less, 0, Column::ValueC), vec![9, 0, 0, 0]);
}

#[test]
fn signed_comparison() {
    // -16 < 5
    let less = run_one(step(
        &[(Register::X2, 0xffff_fff0), (Register::X3, 5)],
        0,
        BuiltinOpcode::SLT,
        1,
        2,
        3,
        InstructionType::RType,
    ));
    assert_one_hot(&less, 0, Column::IsSlt);
    assert_eq!(field(&less, 0, Column::ValueA), vec![1, 0, 0, 0]);
    assert_eq!(field(&less, 0, Column::LtFlag), vec![1]);
    assert_eq!(field(&less, 0, Column::SgnB), vec![1]);
    assert_eq!(field(&less, 0, Column::SgnC), vec![0]);
    assert_eq!(field(&less, 0, Column::Helper2), vec![0x7f, 0, 0, 0]);
    // 5 < -16 does not hold, though 5 < 0xfffffff0 as unsigned numbers
    let not_less = run_one(step(
        &[(Register::X2, 5)],
        0,
        BuiltinOpcode::SLTI,
        1,
        2,
        0xffff_fff0,
        InstructionType::IType,
    ));
    assert_eq!(field(&not_less, 0, Column::ValueA), vec![0, 0, 0, 0]);
    assert_eq!(field(&not_less, 0, Column::BorrowFlag), vec![1, 1, 1, 1]);
    assert_eq!(field(&not_less, 0, Column::SgnC), vec![1]);
    // two negative numbers compare as their bits do
    let both = run_one(step(
        &[(Register::X2, 0x8000_0000), (Register::X3, 0x8000_0001)],
        0,
        BuiltinOpcode::SLT,
        1,
        2,
        3,
        InstructionType::RType,
    ));
    assert_eq!(field(&both, 0, Column::ValueA), vec![1, 0, 0, 0]);
    assert_eq!(field(&both, 0, Column::Helper2), vec![0, 0, 0, 0]);
}

#[test]
fn bitwise_operations() {
    let regs = [(Register::X2, 0x1234_f0a5), (Register::X3, 0x0ff0_3c5a)];
    for (opcode, flag, expected) in [
        (BuiltinOpcode::AND, Column::IsAnd, 0x1234_f0a5u32 & 0x0ff0_3c5a),
        (BuiltinOpcode::OR, Column::IsOr, 0x1234_f0a5 | 0x0ff0_3c5a),
        (BuiltinOpcode::XOR, Column::IsXor, 0x1234_f0a5 ^ 0x0ff0_3c5a),
    ] {
        let traces = run_one(step(&regs, 0, opcode, 1, 2, 3, InstructionType::RType));
        assert_one_hot(&traces, 0, flag);
        assert_eq!(field(&traces, 0, Column::ValueA), word(expected));
        assert_eq!(field(&traces, 0, Column::ValueB0_3), vec![0x5, 0x0, 0x4, 0x2]);
        assert_eq!(field(&traces, 0, Column::ValueB4_7), vec![0xa, 0xf, 0x3, 0x1]);
        assert_eq!(field(&traces, 0, Column::ValueC0_3), vec![0xa, 0xc, 0x0, 0xf]);
        assert_eq!(field(&traces, 0, Column::ValueC4_7), vec![0x5, 0x3, 0xf, 0x0]);
        let low = field(&traces, 0, Column::ValueA0_3);
        let high = field(&traces, 0, Column::ValueA4_7);
        for i in 0..4 {
            assert_eq!(low[i] + 16 * high[i], expected.to_le_bytes()[i] as u32);
        }
    }
    let andi = run_one(step(
        &[(Register::X2, 0xff)],
        0,
        BuiltinOpcode::ANDI,
        1,
        2,
        0x0f,
        InstructionType::IType,
    ));
    assert_eq!(field(&andi, 0, Column::ValueA), vec![0x0f, 0, 0, 0]);
}

#[test]
fn upper_immediates() {
    let lui = run_one(step(&[], 8, BuiltinOpcode::LUI, 1, 0, 0xabcd_e000, InstructionType::UType));
    assert_one_hot(&lui, 0, Column::IsLui);
    assert_eq!(field(&lui, 0, Column::ValueA), word(0xabcd_e000));
    assert_eq!(field(&lui, 0, Column::Reg1Accessed), vec![0]);
    assert_eq!(field(&lui, 0, Column::Reg3Accessed), vec![1]);

    let auipc = run_one(step(
        &[],
        0xffff_f000,
        BuiltinOpcode::AUIPC,
        1,
        0,
        0x0000_2000,
        InstructionType::UType,
    ));
    assert_one_hot(&auipc, 0, Column::IsAuipc);
    assert_eq!(field(&auipc, 0, Column::ValueA), word(0x0000_1000));
    assert_eq!(field(&auipc, 0, Column::CarryFlag), vec![0, 1, 1, 1]);
    assert_eq!(field(&auipc, 0, Column::PcNext), word(0xffff_f004));
}

#[test]
fn jumps() {
    let jal = run_one(step(&[], 0x100, BuiltinOpcode::JAL, 1, 0, 0x40, InstructionType::JType));
    assert_one_hot(&jal, 0, Column::IsJal);
    assert_eq!(field(&jal, 0, Column::ValueA), word(0x104));
    assert_eq!(field(&jal, 0, Column::PcNext), word(0x140));
    assert_eq!(field(&jal, 0, Column::PcCarry), vec![0, 0, 0, 0]);
    // a jump backwards: the offset is negative
    let back = run_one(step(
        &[],
        0x100,
        BuiltinOpcode::JAL,
        1,
        0,
        0xffff_fff0,
        InstructionType::JType,
    ));
    assert_eq!(field(&back, 0, Column::PcNext), word(0xf0));
    assert_eq!(field(&back, 0, Column::PcCarry), vec![0, 1, 1, 1]);

    let jalr = run_one(step(
        &[(Register::X2, 0x2001)],
        0x100,
        BuiltinOpcode::JALR,
        1,
        2,
        0x10,
        InstructionType::IType,
    ));
    assert_one_hot(&jalr, 0, Column::IsJalr);
    assert_eq!(field(&jalr, 0, Column::ValueA), word(0x104));
    assert_eq!(field(&jalr, 0, Column::Helper1), word(0x2011));
    assert_eq!(field(&jalr, 0, Column::RemAux), vec![1]);
    assert_eq!(field(&jalr, 0, Column::QtAux), vec![8]);
    assert_eq!(field(&jalr, 0, Column::PcNext), word(0x2010));
}

#[test]
fn branches() {
    // (opcode, flag, a, b, taken)
    let cases = [
        (BuiltinOpcode::BEQ, Column::IsBeq, 7u32, 7u32, true),
        (BuiltinOpcode::BEQ, Column::IsBeq, 7, 0x1_0007, false),
        (BuiltinOpcode::BNE, Column::IsBne, 7, 7, false),
        (BuiltinOpcode::BNE, Column::IsBne, 7, 8, true),
        (BuiltinOpcode::BNE, Column::IsBne, 0x5_0000, 0x6_0000, true),
        (BuiltinOpcode::BLTU, Column::IsBltu, 1, 0xffff_ffff, true),
        (BuiltinOpcode::BLTU, Column::IsBltu, 3, 3, false),
        (BuiltinOpcode::BGEU, Column::IsBgeu, 3, 3, true),
        (BuiltinOpcode::BGEU, Column::IsBgeu, 1, 0xffff_ffff, false),
        (BuiltinOpcode::BLT, Column::IsBlt, 0xffff_ffff, 1, true),
        (BuiltinOpcode::BLT, Column::IsBlt, 1, 0xffff_ffff, false),
        (BuiltinOpcode::BGE, Column::IsBge, 1, 0xffff_ffff, true),
        (BuiltinOpcode::BGE, Column::IsBge, 0x8000_0000, 0x7fff_ffff, false),
        (BuiltinOpcode::BGE, Column::IsBge, 4, 4, true),
    ];
    for (opcode, flag, a, b, taken) in cases {
        let traces = run_one(step(
            &[(Register::X1, a), (Register::X2, b)],
            0x200,
            opcode,
            1,
            2,
            0x30,
            InstructionType::BType,
        ));
        assert_one_hot(&traces, 0, flag);
        assert_eq!(field(&traces, 0, Column::ValueA), word(a), "{opcode:?}");
        assert_eq!(field(&traces, 0, Column::ValueB), word(b), "{opcode:?}");
        let target = if taken { 0x230 } else { 0x204 };
        assert_eq!(field(&traces, 0, Column::PcNext), word(target), "{opcode:?} {a} {b}");
        // a branch reads the register op_a, at the third timestamp of the row
        assert_eq!(field(&traces, 0, Column::Reg3Accessed), vec![1]);
        assert_eq!(field(&traces, 1, Column::FinalRegTs), word(6), "{opcode:?}");
        assert_eq!(field(&traces, 2, Column::FinalRegTs), word(4), "{opcode:?}");
    }
}

#[test]
fn equality_witnesses() {
    let traces = run_one(step(
        &[(Register::X1, 0x0003_0005), (Register::X2, 0x0003_0002)],
        0,
        BuiltinOpcode::BNE,
        1,
        2,
        8,
        InstructionType::BType,
    ));
    assert_eq!(field(&traces, 0, Column::Neq12), vec![1]);
    assert_eq!(field(&traces, 0, Column::Neq34), vec![0]);
    assert_eq!(field(&traces, 0, Column::Neq), vec![1]);
    // the witness of the lower halves inverts their difference, 3
    let aux = traces.column(0, Column::Neq12Aux)[0];
    let inv = traces.column(0, Column::Neq12AuxInv)[0];
    assert_eq!(inv.value(), 3);
    assert_eq!(aux.times(inv).value(), 1);
    assert_eq!(field(&traces, 0, Column::Neq34Aux), vec![1]);
    assert_eq!(field(&traces, 0, Column::Neq34AuxInv), vec![1]);
    // a smaller first operand: the difference wraps around in the field
    let traces = run_one(step(
        &[(Register::X1, 2), (Register::X2, 5)],
        0,
        BuiltinOpcode::BEQ,
        1,
        2,
        8,
        InstructionType::BType,
    ));
    let inv = traces.column(0, Column::Neq12AuxInv)[0];
    assert_eq!(inv.value(), 2147483647 - 3);
    let aux = traces.column(0, Column::Neq12Aux)[0];
    assert_eq!(aux.times(inv).value(), 1);
}

fn column_sum(traces: &Traces, col: Column, rows: usize) -> u64 {
    (0..rows).map(|row| field(traces, row, col)[0] as u64).sum()
}

#[test]
fn multiplicities_of_every_table() {
    let and = step(
        &[(Register::X2, 0x0000_00a5), (Register::X3, 0x0000_005a)],
        0,
        BuiltinOpcode::AND,
        1,
        2,
        3,
        InstructionType::RType,
    );
    let slt = step(
        &[(Register::X2, 0xff00_0000), (Register::X3, 0x7f00_0000)],
        4,
        BuiltinOpcode::SLT,
        1,
        2,
        3,
        InstructionType::RType,
    );
    let jalr = step(
        &[(Register::X2, 0x40)],
        8,
        BuiltinOpcode::JALR,
        1,
        2,
        7,
        InstructionType::IType,
    );
    let traces = Machine::fill_trace(8, vec![and, slt, jalr]);
    // one row of a bitwise AND: two lookups for each of the four bytes
    assert_eq!(column_sum(&traces, Column::MultiplicityAnd, 256), 8);
    assert_eq!(field(&traces, 0x5a, Column::MultiplicityAnd), vec![1]);
    assert_eq!(field(&traces, 0xa5, Column::MultiplicityAnd), vec![1]);
    assert_eq!(field(&traces, 0x00, Column::MultiplicityAnd), vec![6]);
    assert_eq!(column_sum(&traces, Column::MultiplicityOr, 256), 0);
    assert_eq!(column_sum(&traces, Column::MultiplicityXor, 256), 0);
    // the signed comparison looks up two rests, the jump one half
    assert_eq!(column_sum(&traces, Column::Multiplicity128, 128), 3);
    assert_eq!(field(&traces, 0x7f, Column::Multiplicity128), vec![2]);
    assert_eq!(field(&traces, 0x23, Column::Multiplicity128), vec![1]);
    // every row looks up its two register numbers
    assert_eq!(column_sum(&traces, Column::Multiplicity32, 32), 2 * 256);
    assert_eq!(field(&traces, 1, Column::Multiplicity32), vec![3]);
    assert_eq!(field(&traces, 2, Column::Multiplicity32), vec![3]);
    assert_eq!(field(&traces, 0, Column::Multiplicity32), vec![2 * 256 - 6]);
    assert_eq!(column_sum(&traces, Column::Multiplicity256, 256), 64 * 256);
    // every row looks up two slices of three bits and six of four bits
    assert_eq!(column_sum(&traces, Column::Multiplicity8, 8), 2 * 256);
    assert_eq!(field(&traces, 0, Column::Multiplicity8), vec![2 * 256]);
    assert_eq!(column_sum(&traces, Column::Multiplicity16, 16), 6 * 256);
    assert_eq!(field(&traces, 1, Column::Multiplicity16), vec![3]);
    assert_eq!(field(&traces, 3, Column::Multiplicity16), vec![2]);
    assert_eq!(field(&traces, 7, Column::Multiplicity16), vec![1]);
    assert_eq!(field(&traces, 0, Column::Multiplicity16), vec![6 * 256 - 6]);
}

#[test]
fn slices_are_looked_up() {
    // jal x31, 0xabcde: the offset has the slices 7, 13, 4, 1, 11, 10, 0
    let jal = step(&[], 0, BuiltinOpcode::JAL, 31, 0, 0x000a_bcde, InstructionType::JType);
    let traces = run_one(jal);
    assert_eq!(field(&traces, 0, Column::OpC1_3), vec![7]);
    assert_eq!(field(&traces, 0, Column::OpC8_10), vec![4]);
    assert_eq!(field(&traces, 7, Column::Multiplicity8), vec![1]);
    assert_eq!(field(&traces, 4, Column::Multiplicity8), vec![1]);
    assert_eq!(field(&traces, 0, Column::Multiplicity8), vec![2 * 255]);
    assert_eq!(column_sum(&traces, Column::Multiplicity8, 8), 2 * 256);
    // of four bits: the upper bits of the register number, 15, and 13, 11 and 10
    assert_eq!(field(&traces, 15, Column::Multiplicity16), vec![1]);
    assert_eq!(field(&traces, 13, Column::Multiplicity16), vec![1]);
    assert_eq!(field(&traces, 11, Column::Multiplicity16), vec![1]);
    assert_eq!(field(&traces, 10, Column::Multiplicity16), vec![1]);
    assert_eq!(field(&traces, 0, Column::Multiplicity16), vec![6 * 256 - 4]);
    assert_eq!(column_sum(&traces, Column::Multiplicity16, 16), 6 * 256);
}

#[test]
fn stores_and_loads() {
    // sw x2, 0(x1) with x1 = 0x1000, x2 = 0x8899aabb; then lw, lh, lhu, lb, lbu from there
    let base = (Register::X1, 0x1000u32);
    let store = step(
        &[base, (Register::X2, 0x8899_aabb)],
        0,
        BuiltinOpcode::SW,
        2,
        1,
        0,
        InstructionType::SType,
    );
    let load = |pc: u32, opcode: BuiltinOpcode, offset: u32| {
        step(&[base], pc, opcode, 3, 1, offset, InstructionType::IType)
    };
    let steps = vec![
        store,
        load(4, BuiltinOpcode::LW, 0),
        load(8, BuiltinOpcode::LH, 2),
        load(12, BuiltinOpcode::LHU, 2),
        load(16, BuiltinOpcode::LB, 1),
        load(20, BuiltinOpcode::LBU, 1),
        load(24, BuiltinOpcode::LB, 4),
    ];
    assert_eq!(Machine::ram_footprint(&steps), 5);
    for s in &steps {
        assert!(Machine::is_accepted(s));
    }
    let traces = Machine::fill_trace(8, steps);

    assert_one_hot(&traces, 0, Column::IsSw);
    assert_eq!(field(&traces, 0, Column::RamBaseAddr), word(0x1000));
    assert_eq!(field(&traces, 0, Column::ValueA), word(0x8899_aabb));
    assert_eq!(field(&traces, 0, Column::Ram1Accessed), vec![1]);
    assert_eq!(field(&traces, 0, Column::Ram4Accessed), vec![1]);
    assert_eq!(field(&traces, 0, Column::Ram1ValPrev), vec![0]);
    assert_eq!(field(&traces, 0, Column::Ram1ValCur), vec![0xbb]);
    assert_eq!(field(&traces, 0, Column::Ram4ValCur), vec![0x88]);
    assert_eq!(field(&traces, 0, Column::Ram1TsPrev), word(0));
    assert_eq!(field(&traces, 0, Column::Ram1TsPrevAux), word(0));

    assert_one_hot(&traces, 1, Column::IsLw);
    assert_eq!(field(&traces, 1, Column::ValueA), word(0x8899_aabb));
    assert_eq!(field(&traces, 1, Column::Ram2ValPrev), vec![0xaa]);
    assert_eq!(field(&traces, 1, Column::Ram2ValCur), vec![0xaa]);
    // the bytes were last accessed at the clock value 1; this is clock value 2
    assert_eq!(field(&traces, 1, Column::Ram3TsPrev), word(1));
    assert_eq!(field(&traces, 1, Column::Ram3TsPrevAux), word(0));

    assert_one_hot(&traces, 2, Column::IsLh);
    assert_eq!(field(&traces, 2, Column::RamBaseAddr), word(0x1002));
    assert_eq!(field(&traces, 2, Column::ValueA), word(0xffff_8899));
    assert_eq!(field(&traces, 2, Column::SgnA), vec![1]);
    assert_eq!(field(&traces, 2, Column::QtAux), vec![0x08]);
    assert_eq!(field(&traces, 2, Column::Ram1Accessed), vec![1]);
    assert_eq!(field(&traces, 2, Column::Ram2Accessed), vec![1]);
    assert_eq!(field(&traces, 2, Column::Ram3Accessed), vec![0]);
    assert_eq!(field(&traces, 2, Column::Ram1TsPrev), word(2));

    assert_eq!(field(&traces, 3, Column::ValueA), word(0x0000_8899));
    assert_eq!(field(&traces, 3, Column::SgnA), vec![0]);
    assert_eq!(field(&traces, 4, Column::ValueA), word(0xffff_ffaa));
    assert_eq!(field(&traces, 4, Column::QtAux), vec![0x2a]);
    assert_eq!(field(&traces, 5, Column::ValueA), word(0x0000_00aa));
    // a byte that was never stored to reads as zero
    assert_eq!(field(&traces, 6, Column::ValueA), word(0));
    assert_eq!(field(&traces, 6, Column::Ram1TsPrev), word(0));
    assert_eq!(field(&traces, 6, Column::Ram1TsPrevAux), word(6));

    // the final state of memory: the bytes in the order of their first access
    let expected = [
        (0x1000u32, 0xbbu32, 2u32),
        (0x1001, 0xaa, 6),
        (0x1002, 0x99, 4),
        (0x1003, 0x88, 4),
        (0x1004, 0x00, 7),
    ];
    for (row, (address, value, ts)) in expected.iter().enumerate() {
        assert_eq!(field(&traces, row, Column::RamInitFinalAddr), word(*address));
        assert_eq!(field(&traces, row, Column::RamInitFinalFlag), vec![1]);
        assert_eq!(field(&traces, row, Column::RamFinalValue), vec![*value]);
        assert_eq!(field(&traces, row, Column::RamFinalCounter), word(*ts));
    }
    assert_eq!(field(&traces, 5, Column::RamInitFinalFlag), vec![0]);
    // the loads that extend the sign look up the rest of the sign byte
    assert_eq!(field(&traces, 0x08, Column::Multiplicity128), vec![1]);
    assert_eq!(field(&traces, 0x2a, Column::Multiplicity128), vec![1]);
    assert_eq!(field(&traces, 0x00, Column::Multiplicity128), vec![1]);
}

#[test]
fn narrow_stores_keep_the_other_bytes() {
    let base = (Register::X1, 0x2000u32);
    let steps = vec![
        step(
            &[base, (Register::X2, 0x1122_3344)],
            0,
            BuiltinOpcode::SW,
            2,
            1,
            0,
            InstructionType::SType,
        ),
        step(
            &[base, (Register::X2, 0xaabb_ccdd)],
            4,
            BuiltinOpcode::SH,
            2,
            1,
            2,
            InstructionType::SType,
        ),
        step(
            &[base, (Register::X2, 0x0000_00ee)],
            8,
            BuiltinOpcode::SB,
            2,
            1,
            0,
            InstructionType::SType,
        ),
        step(&[base], 12, BuiltinOpcode::LW, 3, 1, 0, InstructionType::IType),
    ];
    let traces = Machine::fill_trace(8, steps);
    assert_one_hot(&traces, 1, Column::IsSh);
    assert_eq!(field(&traces, 1, Column::Ram1ValPrev), vec![0x22]);
    assert_eq!(field(&traces, 1, Column::Ram1ValCur), vec![0xdd]);
    assert_eq!(field(&traces, 1, Column::Ram2ValCur), vec![0xcc]);
    assert_one_hot(&traces, 2, Column::IsSb);
    assert_eq!(field(&traces, 3, Column::ValueA), word(0xccdd_33ee));
}

#[test]
fn accesses_the_machine_refuses() {
    // an address that does not fit a word
    let overflow = step(
        &[(Register::X1, u32::MAX)],
        0,
        BuiltinOpcode::SH,
        2,
        1,
        1,
        InstructionType::SType,
    );
    assert!(!Machine::is_accepted(&overflow));
    // an odd address for two bytes
    let unaligned = step(
        &[(Register::X1, 0x1001)],
        0,
        BuiltinOpcode::SH,
        2,
        1,
        0,
        InstructionType::SType,
    );
    assert!(!Machine::is_accepted(&unaligned));
    let unaligned_word = step(
        &[(Register::X1, 0x1002)],
        0,
        BuiltinOpcode::LW,
        2,
        1,
        0,
        InstructionType::IType,
    );
    assert!(!Machine::is_accepted(&unaligned_word));
    let byte = step(
        &[(Register::X1, 0x1001)],
        0,
        BuiltinOpcode::SB,
        2,
        1,
        0,
        InstructionType::SType,
    );
    assert!(Machine::is_accepted(&byte));
}

#[test]
fn shifts_by_every_amount() {
    let values = [0x8765_4321u32, 0x7fff_ffff];
    for value in values {
        for amount in 0u32..32 {
            let regs = [(Register::X2, value), (Register::X3, amount)];
            let sll = run_one(step(&regs, 0, BuiltinOpcode::SLL, 1, 2, 3, InstructionType::RType));
            assert_one_hot(&sll, 0, Column::IsSll);
            assert_eq!(field(&sll, 0, Column::ValueA), word(value << amount));
            let srl = run_one(step(&regs, 0, BuiltinOpcode::SRL, 1, 2, 3, InstructionType::RType));
            assert_one_hot(&srl, 0, Column::IsSrl);
            assert_eq!(field(&srl, 0, Column::ValueA), word(value >> amount));
            let sra = run_one(step(&regs, 0, BuiltinOpcode::SRA, 1, 2, 3, InstructionType::RType));
            assert_one_hot(&sra, 0, Column::IsSra);
            assert_eq!(field(&sra, 0, Column::ValueA), word(((value as i32) >> amount) as u32));
        }
    }
}

#[test]
fn shifts_read_five_bits_of_the_amount() {
    // the register holds 0xffff_ffe4: the shift is by 4
    let regs = [(Register::X2, 0x8000_00f1), (Register::X3, 0xffff_ffe4)];
    let sll = run_one(step(&regs, 0, BuiltinOpcode::SLL, 1, 2, 3, InstructionType::RType));
    assert_eq!(field(&sll, 0, Column::ValueA), word(0x0000_0f10));
    assert_eq!(field(&sll, 0, Column::ShiftBit1), vec![0]);
    assert_eq!(field(&sll, 0, Column::ShiftBit2), vec![0]);
    assert_eq!(field(&sll, 0, Column::ShiftBit3), vec![1]);
    assert_eq!(field(&sll, 0, Column::ShiftBit4), vec![0]);
    assert_eq!(field(&sll, 0, Column::ShiftBit5), vec![0]);
    assert_eq!(field(&sll, 0, Column::QtAux), vec![7]);
    assert_eq!(field(&sll, 0, Column::Exp1_3), vec![16]);
    assert_eq!(field(&sll, 0, Column::Exp), vec![16]);
    assert_eq!(field(&sll, 0, Column::Rem), vec![0x10, 0, 0, 0]);
    assert_eq!(field(&sll, 0, Column::Qt), vec![0xf, 0, 0, 8]);
    assert_eq!(field(&sll, 0, Column::Helper1), vec![0x10, 0xf, 0, 0]);
    assert_eq!(field(&sll, 0, Column::Helper2), vec![0x10, 0xf, 0, 0]);
}

#[test]
fn shifts_by_an_immediate_amount() {
    let regs = [(Register::X2, 0xf234_5678)];
    let slli = run_one(step(&regs, 0, BuiltinOpcode::SLLI, 1, 2, 12, InstructionType::IShamtType));
    assert_one_hot(&slli, 0, Column::IsSll);
    assert_eq!(field(&slli, 0, Column::ImmC), vec![1]);
    assert_eq!(field(&slli, 0, Column::ValueA), word(0x4567_8000));
    // by 4 bits, then by one byte
    assert_eq!(field(&slli, 0, Column::Helper1), word(0x2345_6780));
    assert_eq!(field(&slli, 0, Column::Helper2), word(0x4567_8000));
    let srli = run_one(step(&regs, 0, BuiltinOpcode::SRLI, 1, 2, 20, InstructionType::IShamtType));
    assert_one_hot(&srli, 0, Column::IsSrl);
    assert_eq!(field(&srli, 0, Column::ValueA), word(0x0000_0f23));
    assert_eq!(field(&srli, 0, Column::SgnB), vec![0]);
    assert_eq!(field(&srli, 0, Column::Helper1), word(0x0f23_4567));
    assert_eq!(field(&srli, 0, Column::Helper2), word(0x0f23_4567));
    let srai = run_one(step(&regs, 0, BuiltinOpcode::SRAI, 1, 2, 20, InstructionType::IShamtType));
    assert_one_hot(&srai, 0, Column::IsSra);
    assert_eq!(field(&srai, 0, Column::ValueA), word(0xffff_ff23));
    assert_eq!(field(&srai, 0, Column::SgnB), vec![1]);
    assert_eq!(field(&srai, 0, Column::RemAux), vec![0x72]);
    assert_eq!(field(&srai, 0, Column::Helper1), word(0xff23_4567));
    assert_eq!(field(&srai, 0, Column::Helper2), word(0xff23_4567));
    assert_eq!(field(&srai, 0, Column::ShiftBit5), vec![1]);
    assert_eq!(field(&srai, 0, Column::Exp1_3), vec![16]);
}
