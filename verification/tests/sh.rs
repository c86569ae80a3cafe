use zkvm_trace::cpu::Cpu;
use zkvm_trace::error::VMError;
use zkvm_trace::memory::{MemAccessSize, VariableMemory};
use zkvm_trace::riscv::{BuiltinOpcode, Instruction, InstructionType, Opcode, Register};
use zkvm_trace::sh::ShInstruction;

fn setup_memory() -> VariableMemory {
    VariableMemory::default()
}

#[test]
fn test_sh_positive_value() {
    let mut cpu = Cpu::default();
    let mut memory = setup_memory();

    cpu.registers.write(Register::X1, 0x1000);
    cpu.registers.write(Register::X2, 0x7FFF);

    let bare_instruction = Instruction::new(
        Opcode::from(BuiltinOpcode::SH),
        2,
        1,
        0,
        InstructionType::SType,
    );
    let instruction = ShInstruction::decode(&bare_instruction, &cpu.registers);

    instruction.memory_write(&mut memory).unwrap();

    assert_eq!(
        memory.read(0x1000, MemAccessSize::HalfWord).unwrap(),
        0x7FFF
    );
}

#[test]
fn test_sh_negative_value() {
    let mut cpu = Cpu::default();
    let mut memory = setup_memory();

    cpu.registers.write(Register::X1, 0x1000);
    cpu.registers.write(Register::X2, 0xFFFF8000); // -32768 in two's complement

    let bare_instruction = Instruction::new(
        Opcode::from(BuiltinOpcode::SH),
        2,
        1,
        2,
        InstructionType::SType,
    );
    let instruction = ShInstruction::decode(&bare_instruction, &cpu.registers);

    instruction.memory_write(&mut memory).unwrap();

    assert_eq!(
        memory.read(0x1002, MemAccessSize::HalfWord).unwrap(),
        0x8000
    );
}

#[test]
fn test_sh_max_value() {
    let mut cpu = Cpu::default();
    let mut memory = setup_memory();

    cpu.registers.write(Register::X1, 0x1000);
    cpu.registers.write(Register::X2, 0xFFFF);

    let bare_instruction = Instruction::new(
        Opcode::from(BuiltinOpcode::SH),
        2,
        1,
        4,
        InstructionType::SType,
    );
    let instruction = ShInstruction::decode(&bare_instruction, &cpu.registers);

    instruction.memory_write(&mut memory).unwrap();

    assert_eq!(
        memory.read(0x1004, MemAccessSize::HalfWord).unwrap(),
        0xFFFF
    );
}

#[test]
fn test_sh_unaligned_address() {
    let mut cpu = Cpu::default();
    let mut memory = setup_memory();

    cpu.registers.write(Register::X1, 0x1001); // Unaligned address
    cpu.registers.write(Register::X2, 0xABCD);

    let bare_instruction = Instruction::new(
        Opcode::from(BuiltinOpcode::SH),
        2,
        1,
        0,
        InstructionType::SType,
    );
    let instruction = ShInstruction::decode(&bare_instruction, &cpu.registers);

    let result = instruction.memory_write(&mut memory);
    assert!(result.is_err());
    assert!(matches!(
        result.unwrap_err(),
        VMError::UnalignedMemoryWrite(0x1001)
    ));
}

#[test]
fn test_sh_overflow() {
    let mut cpu = Cpu::default();
    let mut memory = setup_memory();

    cpu.registers.write(Register::X1, u32::MAX);
    cpu.registers.write(Register::X2, 0xABCD);

    let bare_instruction = Instruction::new(
        Opcode::from(BuiltinOpcode::SH),
        2,
        1,
        1,
        InstructionType::SType,
    );
    let instruction = ShInstruction::decode(&bare_instruction, &cpu.registers);

    let result = instruction.memory_write(&mut memory);
    assert!(result.is_err());
    assert!(matches!(
        result.unwrap_err(),
        VMError::AddressCalculationOverflow
    ));
}

#[test]
fn sh_keeps_the_other_half_of_the_word() {
    let mut memory = setup_memory();
    memory
        .write(0x2000, MemAccessSize::Word, 0x1122_3344)
        .unwrap();
    let mut cpu = Cpu::default();
    cpu.registers.write(Register::X5, 0x2000);
    cpu.registers.write(Register::X6, 0xAABB_CCDD);
    let ins = Instruction::new(
        Opcode::from(BuiltinOpcode::SH),
        6,
        5,
        2,
        InstructionType::SType,
    );
    let op = ShInstruction::decode(&ins, &cpu.registers)
        .memory_write(&mut memory)
        .unwrap();
    assert_eq!(op.address, 0x2002);
    assert_eq!(op.value, 0xCCDD);
    assert_eq!(op.prev_value, 0x1122);
    assert_eq!(memory.read(0x2000, MemAccessSize::Word).unwrap(), 0xCCDD_3344);
    assert_eq!(memory.read(0x2000, MemAccessSize::HalfWord).unwrap(), 0x3344);
    assert_eq!(memory.read(0x2003, MemAccessSize::Byte).unwrap(), 0xCC);
}

#[test]
fn memory_read_errors() {
    let mut memory = setup_memory();
    assert_eq!(
        memory.read(0x10, MemAccessSize::Word),
        Err(VMError::InvalidMemoryAccess(0x10))
    );
    assert_eq!(
        memory.read(0x11, MemAccessSize::HalfWord),
        Err(VMError::UnalignedMemoryRead(0x11))
    );
    assert_eq!(
        memory.read(0x12, MemAccessSize::Word),
        Err(VMError::UnalignedMemoryRead(0x12))
    );
    assert_eq!(
        memory.write(0x13, MemAccessSize::Word, 1),
        Err(VMError::UnalignedMemoryWrite(0x13))
    );
    memory.write(0x13, MemAccessSize::Byte, 0x1ff).unwrap();
    assert_eq!(memory.read(0x10, MemAccessSize::Word), Ok(0xff00_0000));
}

#[test]
fn register_zero_stays_zero() {
    let mut cpu = Cpu::default();
    cpu.registers.write(Register::X0, 77);
    cpu.registers.write(Register::X31, 78);
    assert_eq!(cpu.registers.read(Register::X0), 0);
    assert_eq!(cpu.registers.read(Register::X31), 78);
    assert_eq!(cpu.pc, 0);
    assert_eq!(Opcode::from(BuiltinOpcode::SH).raw(), 0x23);
    assert_eq!(Opcode::from(BuiltinOpcode::SH).builtin(), Some(BuiltinOpcode::SH));
}
