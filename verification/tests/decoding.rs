use zkvm_trace::chips::decoding::{encode, is_decodable};
use zkvm_trace::column::Column;
use zkvm_trace::cpu::RegisterFile;
use zkvm_trace::machine::Machine;
use zkvm_trace::riscv::{BuiltinOpcode, Instruction, InstructionType, Opcode};
use zkvm_trace::step::Step;
use zkvm_trace::trace::Traces;

fn instruction(opcode: BuiltinOpcode, a: u8, b: u8, c: u32, ins_type: InstructionType) -> Instruction {
    Instruction::new(Opcode::from(opcode), a, b, c, ins_type)
}

fn step_of(instruction: Instruction, raw_instruction: u32) -> Step {
    Step { regs: RegisterFile::new(), pc: 0x40, next_pc: 0x44, instruction, raw_instruction, result: None }
}

fn cell(traces: &Traces, row: usize, col: Column) -> u32 {
    traces.column(row, col)[0].value()
}

fn bytes(traces: &Traces, row: usize, col: Column) -> Vec<u32> {
    traces.column(row, col).iter().map(|f| f.value()).collect()
}

#[test]
fn register_instructions_are_encoded() {
    // add x1, x2, x3
    let add = instruction(BuiltinOpcode::ADD, 1, 2, 3, InstructionType::RType);
    assert_eq!(encode(&add), Some(0x0031_00b3));
    // sub x3, x1, x2
    let sub = instruction(BuiltinOpcode::SUB, 3, 1, 2, InstructionType::RType);
    assert_eq!(encode(&sub), Some(0x4020_81b3));
    // and x31, x30, x29
    let and = instruction(BuiltinOpcode::AND, 31, 30, 29, InstructionType::RType);
    assert_eq!(encode(&and), Some(0x01df_7fb3));
    // sltu x10, x11, x12
    let sltu = instruction(BuiltinOpcode::SLTU, 10, 11, 12, InstructionType::RType);
    assert_eq!(encode(&sltu), Some(0x00c5_b533));
    // the third operand of such an instruction is a register
    let wide = instruction(BuiltinOpcode::ADD, 1, 2, 32, InstructionType::RType);
    assert_eq!(encode(&wide), None);
}

#[test]
fn immediate_instructions_are_encoded() {
    // addi x1, x0, -1
    let addi = instruction(BuiltinOpcode::ADDI, 1, 0, 0xffff_ffff, InstructionType::IType);
    assert_eq!(encode(&addi), Some(0xfff0_0093));
    // lw x5, 8(x2)
    let lw = instruction(BuiltinOpcode::LW, 5, 2, 8, InstructionType::IType);
    assert_eq!(encode(&lw), Some(0x0081_2283));
    // jalr x0, 0(x1)
    let jalr = instruction(BuiltinOpcode::JALR, 0, 1, 0, InstructionType::IType);
    assert_eq!(encode(&jalr), Some(0x0000_8067));
    // xori x7, x8, 2047 and xori x7, x8, -2048
    let high = instruction(BuiltinOpcode::XORI, 7, 8, 0x7ff, InstructionType::IType);
    assert_eq!(encode(&high), Some(0x7ff4_4393));
    let low = instruction(BuiltinOpcode::XORI, 7, 8, 0xffff_f800, InstructionType::IType);
    assert_eq!(encode(&low), Some(0x8004_4393));
    // twelve bits hold neither 2048 nor -2049
    let over = instruction(BuiltinOpcode::XORI, 7, 8, 0x800, InstructionType::IType);
    assert_eq!(encode(&over), None);
    let under = instruction(BuiltinOpcode::XORI, 7, 8, 0xffff_f7ff, InstructionType::IType);
    assert_eq!(encode(&under), None);
}

#[test]
fn upper_and_jump_instructions_are_encoded() {
    // lui x5, 0x12345
    let lui = instruction(BuiltinOpcode::LUI, 5, 0, 0x1234_5000, InstructionType::UType);
    assert_eq!(encode(&lui), Some(0x1234_52b7));
    // auipc x1, 0xfffff
    let auipc = instruction(BuiltinOpcode::AUIPC, 1, 0, 0xffff_f000, InstructionType::UType);
    assert_eq!(encode(&auipc), Some(0xffff_f097));
    let low_bits = instruction(BuiltinOpcode::LUI, 5, 0, 0x1234_5001, InstructionType::UType);
    assert_eq!(encode(&low_bits), None);
    // jal x1, 8
    let jal = instruction(BuiltinOpcode::JAL, 1, 0, 8, InstructionType::JType);
    assert_eq!(encode(&jal), Some(0x0080_00ef));
    // jal x0, -4
    let back = instruction(BuiltinOpcode::JAL, 0, 0, 0xffff_fffc, InstructionType::JType);
    assert_eq!(encode(&back), Some(0xffdf_f06f));
    // jal x1, 0x12344
    let far = instruction(BuiltinOpcode::JAL, 1, 0, 0x1_2344, InstructionType::JType);
    assert_eq!(encode(&far), Some(0x3441_20ef));
    let odd = instruction(BuiltinOpcode::JAL, 1, 0, 9, InstructionType::JType);
    assert_eq!(encode(&odd), None);
    let wide = instruction(BuiltinOpcode::JAL, 1, 0, 0x10_0000, InstructionType::JType);
    assert_eq!(encode(&wide), None);
}

#[test]
fn other_shapes_are_not_encoded() {
    let sw = instruction(BuiltinOpcode::SW, 1, 2, 4, InstructionType::SType);
    assert_eq!(encode(&sw), None);
    let beq = instruction(BuiltinOpcode::BEQ, 1, 2, 8, InstructionType::BType);
    assert_eq!(encode(&beq), None);
    // their words are taken as they come
    assert!(is_decodable(&step_of(sw, 0x0011_2223)));
    assert!(is_decodable(&step_of(beq, 0)));
}

#[test]
fn a_step_with_another_word_is_refused() {
    let add = instruction(BuiltinOpcode::ADD, 1, 2, 3, InstructionType::RType);
    assert!(is_decodable(&step_of(add, 0x0031_00b3)));
    assert!(Machine::is_accepted(&step_of(add, 0x0031_00b3)));
    assert!(!is_decodable(&step_of(add, 0x0031_00b4)));
    assert!(!Machine::is_accepted(&step_of(add, 0x0031_00b4)));
    let over = instruction(BuiltinOpcode::ADDI, 1, 2, 0x800, InstructionType::IType);
    assert!(!Machine::is_accepted(&step_of(over, 0x8001_0093)));
}

#[test]
fn slices_of_a_register_instruction() {
    // sub x31, x30, x29
    let sub = instruction(BuiltinOpcode::SUB, 31, 30, 29, InstructionType::RType);
    let word = encode(&sub).unwrap();
    let traces = Machine::fill_trace(8, vec![step_of(sub, word)]);
    assert_eq!(cell(&traces, 0, Column::OpA0), 1);
    assert_eq!(cell(&traces, 0, Column::OpA1_4), 15);
    assert_eq!(cell(&traces, 0, Column::OpB0), 0);
    assert_eq!(cell(&traces, 0, Column::OpB1_4), 15);
    assert_eq!(cell(&traces, 0, Column::OpC0_3), 13);
    assert_eq!(cell(&traces, 0, Column::OpC4), 1);
    assert_eq!(cell(&traces, 0, Column::OpC4_7), 0);
    assert_eq!(cell(&traces, 0, Column::OpC12_15), 0);
    // the word, byte by byte, from the slices
    assert_eq!(
        bytes(&traces, 0, Column::InstrVal),
        vec![0x33 + 0x80 * 1, 15 + 0x80 * 0, 15 + 0x10 * 13, 1 + 2 * 0x20]
    );
    assert_eq!(word, 0x41df_0fb3);
    // a padding row has no slices
    assert_eq!(cell(&traces, 1, Column::OpA0), 0);
    assert_eq!(cell(&traces, 1, Column::OpC0_3), 0);
}

#[test]
fn slices_of_an_immediate_instruction() {
    // andi x9, x8, -1366 (0xaaa)
    let andi = instruction(BuiltinOpcode::ANDI, 9, 8, 0xffff_faaa, InstructionType::IType);
    let word = encode(&andi).unwrap();
    assert_eq!(word, 0xaaa4_7493);
    let traces = Machine::fill_trace(8, vec![step_of(andi, word)]);
    assert_eq!(cell(&traces, 0, Column::OpA0), 1);
    assert_eq!(cell(&traces, 0, Column::OpA1_4), 4);
    assert_eq!(cell(&traces, 0, Column::OpB0), 0);
    assert_eq!(cell(&traces, 0, Column::OpB1_4), 4);
    assert_eq!(cell(&traces, 0, Column::OpC0_3), 0xa);
    assert_eq!(cell(&traces, 0, Column::OpC4_7), 0xa);
    assert_eq!(cell(&traces, 0, Column::OpC8_10), 2);
    assert_eq!(cell(&traces, 0, Column::OpC11), 1);
    assert_eq!(bytes(&traces, 0, Column::ValueC), vec![0xaa, 2 + 0xf8, 0xff, 0xff]);
    assert_eq!(
        bytes(&traces, 0, Column::InstrVal),
        vec![0x13 + 0x80, 4 + 0x10 * 7, 4 + 0x10 * 0xa, 0xa + 0x10 * 2 + 0x80]
    );
}

#[test]
fn slices_of_upper_and_jump_instructions() {
    let lui = instruction(BuiltinOpcode::LUI, 5, 0, 0x1234_5000, InstructionType::UType);
    let traces = Machine::fill_trace(8, vec![step_of(lui, encode(&lui).unwrap())]);
    assert_eq!(cell(&traces, 0, Column::OpA0), 1);
    assert_eq!(cell(&traces, 0, Column::OpA1_4), 2);
    assert_eq!(cell(&traces, 0, Column::OpB0), 0);
    assert_eq!(cell(&traces, 0, Column::OpC12_15), 5);
    assert_eq!(cell(&traces, 0, Column::OpC16_23), 0x34);
    assert_eq!(cell(&traces, 0, Column::OpC24_31), 0x12);
    assert_eq!(bytes(&traces, 0, Column::InstrVal), vec![0xb7, 0x52, 0x34, 0x12]);

    // jal x1, -0xabcde (an offset of 0xfff54322)
    let jal = instruction(BuiltinOpcode::JAL, 1, 0, 0xfff5_4322, InstructionType::JType);
    let word = encode(&jal).unwrap();
    let traces = Machine::fill_trace(8, vec![step_of(jal, word)]);
    assert_eq!(cell(&traces, 0, Column::OpC1_3), 1);
    assert_eq!(cell(&traces, 0, Column::OpC4_7), 2);
    assert_eq!(cell(&traces, 0, Column::OpC8_10), 3);
    assert_eq!(cell(&traces, 0, Column::OpC11), 0);
    assert_eq!(cell(&traces, 0, Column::OpC12_15), 4);
    assert_eq!(cell(&traces, 0, Column::OpC16_19), 5);
    assert_eq!(cell(&traces, 0, Column::OpC20), 1);
    assert_eq!(bytes(&traces, 0, Column::ValueC), vec![0x22, 0x43, 0xf5, 0xff]);
    assert_eq!(
        bytes(&traces, 0, Column::InstrVal),
        vec![0x6f + 0x80, 0 + 0x10 * 4, 5 + 0x10 * 0 + 0x20 * 1, 2 + 0x10 * 3 + 0x80]
    );
    assert_eq!(word, 0xb225_40ef);
}
