use zkvm_trace::chips::decoding::encode;
use zkvm_trace::chips::prog_mem_check::{ProgramMemCheckChip, ProgramSideNote};
use zkvm_trace::column::Column;
use zkvm_trace::cpu::RegisterFile;
use zkvm_trace::machine::Machine;
use zkvm_trace::riscv::{BuiltinOpcode, Instruction, InstructionType, Opcode};
use zkvm_trace::step::Step;
use zkvm_trace::trace::Traces;

fn word_at(traces: &Traces, row: usize, col: Column) -> u32 {
    let bytes = traces.column(row, col);
    bytes.iter().rev().fold(0, |acc, b| acc * 256 + b.value())
}

fn bytes_at(traces: &Traces, row: usize, col: Column) -> Vec<u32> {
    traces.column(row, col).iter().map(|f| f.value()).collect()
}

fn addi_at(pc: u32) -> Step {
    let instruction =
        Instruction::new(Opcode::from(BuiltinOpcode::ADDI), 1, 1, 1, InstructionType::IType);
    Step {
        regs: RegisterFile::new(),
        pc,
        next_pc: pc.wrapping_add(4),
        instruction,
        raw_instruction: encode(&instruction).unwrap(),
        result: None,
    }
}

#[test]
fn side_note_counts_executions() {
    let mut note = ProgramSideNote::new();
    assert_eq!(note.count(0x100), 0);
    assert_eq!(note.program_len(), 0);
    assert_eq!(note.record(0x100), 0);
    assert_eq!(note.record(0x104), 0);
    assert_eq!(note.record(0x100), 1);
    assert_eq!(note.record(0x100), 2);
    assert_eq!(note.count(0x100), 3);
    assert_eq!(note.count(0x104), 1);
    assert_eq!(note.count(0x108), 0);
    assert_eq!(note.program_len(), 2);
    assert_eq!(note.address(0), 0x100);
    assert_eq!(note.address(1), 0x104);
}

#[test]
fn counters_of_a_loop() {
    // a loop of two instructions, run three times, and one instruction after it
    let pcs = vec![0x100u32, 0x104, 0x100, 0x104, 0x100, 0x104, 0x108];
    let mut traces = Traces::new(4);
    ProgramMemCheckChip::fill(&mut traces, &pcs);
    let before = [0u32, 0, 1, 1, 2, 2, 0];
    for (row, count) in before.iter().enumerate() {
        assert_eq!(word_at(&traces, row, Column::ProgCtrPrev), *count);
        assert_eq!(word_at(&traces, row, Column::ProgCtrCur), *count + 1);
        assert_eq!(bytes_at(&traces, row, Column::ProgCtrCarry), vec![0, 0, 0, 0]);
    }
    for row in 7..16 {
        assert_eq!(bytes_at(&traces, row, Column::ProgCtrPrev), vec![0, 0, 0, 0]);
        assert_eq!(bytes_at(&traces, row, Column::ProgCtrCur), vec![0, 0, 0, 0]);
        assert_eq!(bytes_at(&traces, row, Column::ProgCtrCarry), vec![0, 0, 0, 0]);
    }
    // the program: 0x100 and 0x104, three times each, and 0x108, once
    assert_eq!(word_at(&traces, 0, Column::FinalPrgMemoryCtr), 3);
    assert_eq!(word_at(&traces, 1, Column::FinalPrgMemoryCtr), 3);
    assert_eq!(word_at(&traces, 2, Column::FinalPrgMemoryCtr), 1);
    for row in 3..16 {
        assert_eq!(word_at(&traces, row, Column::FinalPrgMemoryCtr), 0);
    }
}

#[test]
fn counters_carry_into_the_next_byte() {
    // one instruction, executed 300 times
    let pcs = vec![0x40u32; 300];
    let mut traces = Traces::new(9);
    ProgramMemCheckChip::fill(&mut traces, &pcs);
    assert_eq!(bytes_at(&traces, 255, Column::ProgCtrPrev), vec![255, 0, 0, 0]);
    assert_eq!(bytes_at(&traces, 255, Column::ProgCtrCur), vec![0, 1, 0, 0]);
    assert_eq!(bytes_at(&traces, 255, Column::ProgCtrCarry), vec![1, 0, 0, 0]);
    assert_eq!(bytes_at(&traces, 256, Column::ProgCtrPrev), vec![0, 1, 0, 0]);
    assert_eq!(bytes_at(&traces, 256, Column::ProgCtrCur), vec![1, 1, 0, 0]);
    assert_eq!(bytes_at(&traces, 299, Column::ProgCtrCur), vec![44, 1, 0, 0]);
    assert_eq!(bytes_at(&traces, 300, Column::ProgCtrCur), vec![0, 0, 0, 0]);
    assert_eq!(word_at(&traces, 0, Column::FinalPrgMemoryCtr), 300);
    assert_eq!(word_at(&traces, 1, Column::FinalPrgMemoryCtr), 0);
}

#[test]
fn a_trace_counts_its_program() {
    let steps = vec![addi_at(0), addi_at(4), addi_at(0), addi_at(8), addi_at(0)];
    for step in &steps {
        assert!(Machine::is_accepted(step));
    }
    let traces = Machine::fill_trace(8, steps);
    let before = [0u32, 0, 1, 0, 2];
    for (row, count) in before.iter().enumerate() {
        assert_eq!(word_at(&traces, row, Column::ProgCtrPrev), *count);
        assert_eq!(word_at(&traces, row, Column::ProgCtrCur), *count + 1);
    }
    assert_eq!(word_at(&traces, 5, Column::ProgCtrCur), 0);
    assert_eq!(word_at(&traces, 0, Column::FinalPrgMemoryCtr), 3);
    assert_eq!(word_at(&traces, 1, Column::FinalPrgMemoryCtr), 1);
    assert_eq!(word_at(&traces, 2, Column::FinalPrgMemoryCtr), 1);
    assert_eq!(word_at(&traces, 3, Column::FinalPrgMemoryCtr), 0);
    // the rows still hold what the other chips wrote
    assert_eq!(word_at(&traces, 4, Column::Pc), 0);
    assert_eq!(word_at(&traces, 3, Column::Pc), 8);
    assert_eq!(word_at(&traces, 1, Column::FinalRegValue), 1);
}
