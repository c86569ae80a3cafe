use zkvm_trace::chips::decoding::encode;
use zkvm_trace::column::{Column, ProgramColumn};
use zkvm_trace::cpu::RegisterFile;
use zkvm_trace::machine::Machine;
use zkvm_trace::program::{program_image, program_values, ProgramEntry, ProgramInfo, PublicByte};
use zkvm_trace::riscv::{BuiltinOpcode, Instruction, InstructionType, Opcode};
use zkvm_trace::step::Step;

fn cells(col: ProgramColumn, row: usize, info: &ProgramInfo) -> Vec<u32> {
    program_values(col, row, info).iter().map(|f| f.value()).collect()
}

fn addi_at(pc: u32, imm: u32) -> Step {
    let instruction =
        Instruction::new(Opcode::from(BuiltinOpcode::ADDI), 1, 1, imm, InstructionType::IType);
    Step {
        regs: RegisterFile::new(),
        pc,
        next_pc: pc.wrapping_add(4),
        instruction,
        raw_instruction: encode(&instruction).unwrap(),
        result: None,
    }
}

fn info() -> ProgramInfo {
    ProgramInfo {
        initial_pc: 0x0001_0204,
        program: vec![
            ProgramEntry { pc: 0x0001_0204, word: 0x0031_00b3 },
            ProgramEntry { pc: 0x0001_0208, word: 0xfff0_0093 },
        ],
        public_input: vec![PublicByte { address: 0x8000_0000, value: 7 }],
        public_output: vec![
            PublicByte { address: 0x8000_0010, value: 0xfe },
            PublicByte { address: 0x8000_0011, value: 0xff },
        ],
    }
}

#[test]
fn program_rows() {
    let info = info();
    assert_eq!(cells(ProgramColumn::PrgMemoryPc, 0, &info), vec![4, 2, 1, 0]);
    assert_eq!(cells(ProgramColumn::PrgMemoryWord, 0, &info), vec![0xb3, 0, 0x31, 0]);
    assert_eq!(cells(ProgramColumn::PrgMemoryFlag, 0, &info), vec![1]);
    assert_eq!(cells(ProgramColumn::PrgMemoryPc, 1, &info), vec![8, 2, 1, 0]);
    assert_eq!(cells(ProgramColumn::PrgMemoryWord, 1, &info), vec![0x93, 0, 0xf0, 0xff]);
    assert_eq!(cells(ProgramColumn::PrgMemoryFlag, 1, &info), vec![1]);
    assert_eq!(cells(ProgramColumn::PrgMemoryPc, 2, &info), vec![0, 0, 0, 0]);
    assert_eq!(cells(ProgramColumn::PrgMemoryWord, 2, &info), vec![0, 0, 0, 0]);
    assert_eq!(cells(ProgramColumn::PrgMemoryFlag, 2, &info), vec![0]);
    assert_eq!(cells(ProgramColumn::PrgInitialPc, 0, &info), vec![4, 2, 1, 0]);
    assert_eq!(cells(ProgramColumn::PrgInitialPc, 1, &info), vec![0, 0, 0, 0]);
}

#[test]
fn public_input_and_output_rows() {
    let info = info();
    // the byte of the input, then the two of the output
    assert_eq!(cells(ProgramColumn::PublicInputOutputAddr, 0, &info), vec![0, 0, 0, 0x80]);
    assert_eq!(cells(ProgramColumn::PublicInputValue, 0, &info), vec![7]);
    assert_eq!(cells(ProgramColumn::PublicInputFlag, 0, &info), vec![1]);
    assert_eq!(cells(ProgramColumn::PublicOutputValue, 0, &info), vec![0]);
    assert_eq!(cells(ProgramColumn::PublicOutputFlag, 0, &info), vec![0]);
    assert_eq!(cells(ProgramColumn::PublicInputOutputAddr, 1, &info), vec![0x10, 0, 0, 0x80]);
    assert_eq!(cells(ProgramColumn::PublicInputValue, 1, &info), vec![0]);
    assert_eq!(cells(ProgramColumn::PublicInputFlag, 1, &info), vec![0]);
    assert_eq!(cells(ProgramColumn::PublicOutputValue, 1, &info), vec![0xfe]);
    assert_eq!(cells(ProgramColumn::PublicOutputFlag, 1, &info), vec![1]);
    assert_eq!(cells(ProgramColumn::PublicInputOutputAddr, 2, &info), vec![0x11, 0, 0, 0x80]);
    assert_eq!(cells(ProgramColumn::PublicOutputValue, 2, &info), vec![0xff]);
    assert_eq!(cells(ProgramColumn::PublicOutputFlag, 2, &info), vec![1]);
    assert_eq!(cells(ProgramColumn::PublicInputOutputAddr, 3, &info), vec![0, 0, 0, 0]);
    assert_eq!(cells(ProgramColumn::PublicOutputValue, 3, &info), vec![0]);
    assert_eq!(cells(ProgramColumn::PublicOutputFlag, 3, &info), vec![0]);
}

#[test]
fn every_program_field_has_its_size() {
    let info = info();
    let sizes = [
        (ProgramColumn::PrgMemoryPc, 4),
        (ProgramColumn::PrgMemoryWord, 4),
        (ProgramColumn::PrgMemoryFlag, 1),
        (ProgramColumn::PrgInitialPc, 4),
        (ProgramColumn::PublicInputValue, 1),
        (ProgramColumn::PublicInputFlag, 1),
        (ProgramColumn::PublicOutputValue, 1),
        (ProgramColumn::PublicOutputFlag, 1),
        (ProgramColumn::PublicInputOutputAddr, 4),
    ];
    for (col, size) in sizes {
        for row in [0usize, 1, 2, 3, 100] {
            assert_eq!(program_values(col, row, &info).len(), size);
        }
    }
}

#[test]
fn image_of_an_execution() {
    let steps = vec![addi_at(0x100, 1), addi_at(0x104, 2), addi_at(0x100, 1), addi_at(0x10c, 3)];
    let image = program_image(&steps);
    assert_eq!(
        image,
        vec![
            ProgramEntry { pc: 0x100, word: 0x0010_8093 },
            ProgramEntry { pc: 0x104, word: 0x0020_8093 },
            ProgramEntry { pc: 0x10c, word: 0x0030_8093 },
        ]
    );
    assert_eq!(program_image(&Vec::new()), Vec::new());
    // the trace counts the executions in the order of the image
    let traces = Machine::fill_trace(8, steps);
    let counts: Vec<u32> =
        (0..4).map(|row| traces.column(row, Column::FinalPrgMemoryCtr)[0].value()).collect();
    assert_eq!(counts, vec![2, 1, 1, 0]);
}
