use zkvm_trace::chips::cpu::{flag_column, is_control_flow_opcode};
use zkvm_trace::chips::ram::RamSideNote;
use zkvm_trace::chips::range_check::{
    lookup_tables, LookupTable, Multiplicities, RangeCheckChip, RangeCheckSideNote,
};
use zkvm_trace::chips::register_mem_check::{timestamp_witness, RegisterMemCheckSideNote};
use zkvm_trace::chips::shift::{shift_witness, ShiftOp};
use zkvm_trace::chips::utils::{add_with_carries, subtract_with_borrow, u32_to_word, word_to_u32};
use zkvm_trace::column::Column;
use zkvm_trace::riscv::{BuiltinOpcode, Register};

#[test]
fn words_are_little_endian() {
    assert_eq!(u32_to_word(0x1234_5678), [0x78, 0x56, 0x34, 0x12]);
    assert_eq!(word_to_u32([0x78, 0x56, 0x34, 0x12]), 0x1234_5678);
    assert_eq!(word_to_u32(u32_to_word(u32::MAX)), u32::MAX);
}

#[test]
fn add_with_carries_propagates() {
    let (sum, carry) = add_with_carries(u32_to_word(5), u32_to_word(7));
    assert_eq!(sum, [12, 0, 0, 0]);
    assert_eq!(carry, [false, false, false, false]);

    let (sum, carry) = add_with_carries(u32_to_word(0x0000_00ff), u32_to_word(1));
    assert_eq!(sum, [0, 1, 0, 0]);
    assert_eq!(carry, [true, false, false, false]);

    let (sum, carry) = add_with_carries(u32_to_word(u32::MAX), u32_to_word(1));
    assert_eq!(sum, [0, 0, 0, 0]);
    assert_eq!(carry, [true, true, true, true]);

    let (sum, carry) = add_with_carries(u32_to_word(0x8000_0000), u32_to_word(0x8000_0001));
    assert_eq!(word_to_u32(sum), 1);
    assert_eq!(carry, [false, false, false, true]);
}

#[test]
fn subtract_with_borrow_propagates() {
    let (diff, borrow) = subtract_with_borrow(u32_to_word(12), u32_to_word(7));
    assert_eq!(diff, [5, 0, 0, 0]);
    assert_eq!(borrow, [false, false, false, false]);

    let (diff, borrow) = subtract_with_borrow(u32_to_word(0x100), u32_to_word(1));
    assert_eq!(diff, [0xff, 0, 0, 0]);
    assert_eq!(borrow, [true, false, false, false]);

    let (diff, borrow) = subtract_with_borrow(u32_to_word(0), u32_to_word(1));
    assert_eq!(word_to_u32(diff), u32::MAX);
    assert_eq!(borrow, [true, true, true, true]);
}

#[test]
fn timestamp_witness_orders_two_writes() {
    // two writes to one register at t1 < t2
    let (t1, t2) = (4u32, 7u32);
    let (gap, borrow) = timestamp_witness(t1, t2).expect("t1 lies before t2");
    assert_eq!(word_to_u32(gap), t2 - 1 - t1);
    assert_eq!(borrow, [false, false, false, false]);
    // swapped, there is no witness
    assert!(timestamp_witness(t2, t1).is_none());
    // nor for equal timestamps
    assert!(timestamp_witness(t1, t1).is_none());
    assert!(timestamp_witness(0, 0).is_none());

    let (gap, borrow) = timestamp_witness(0x00ff, 0x0200).unwrap();
    assert_eq!(word_to_u32(gap), 0x100);
    assert_eq!(borrow, [false, false, false, false]);
    let (gap, borrow) = timestamp_witness(0x01ff, 0x0201).unwrap();
    assert_eq!(gap, [1, 0, 0, 0]);
    assert_eq!(borrow, [true, false, false, false]);
    let (gap, _) = timestamp_witness(0, u32::MAX).unwrap();
    assert_eq!(word_to_u32(gap), u32::MAX - 1);
}

#[test]
fn register_side_note_remembers_the_latest_access() {
    let mut note = RegisterMemCheckSideNote::new();
    assert_eq!(note.last_value(Register::X5), 0);
    assert_eq!(note.last_timestamp(Register::X5), 0);
    // write at 4, read at 5, write at 9
    assert_eq!(note.access(Register::X5, Some(11), 4), (0, 0));
    assert_eq!(note.access(Register::X5, None, 5), (11, 4));
    assert_eq!(note.last_value(Register::X5), 11);
    assert_eq!(note.access(Register::X6, Some(1), 6), (0, 0));
    assert_eq!(note.access(Register::X5, Some(12), 9), (11, 5));
    assert_eq!(note.last_value(Register::X5), 12);
    assert_eq!(note.last_timestamp(Register::X5), 9);
    assert_eq!(note.last_value(Register::X6), 1);
    assert_eq!(note.last_timestamp(Register::X6), 6);
}

#[test]
fn multiplicities_count_lookups() {
    let mut table = Multiplicities::new(8);
    for v in [3u32, 3, 0, 7, 3] {
        table.lookup(v);
    }
    assert_eq!(table.multiplicity(3), 3);
    assert_eq!(table.multiplicity(0), 1);
    assert_eq!(table.multiplicity(7), 1);
    assert_eq!(table.multiplicity(1), 0);
    assert_eq!(table.total(), 5);
    assert_eq!(RangeCheckChip::LOOKUPS_PER_ROW, 64);
}

#[test]
fn flags_of_opcodes() {
    assert_eq!(flag_column(BuiltinOpcode::ADD), Some(Column::IsAdd));
    assert_eq!(flag_column(BuiltinOpcode::ADDI), Some(Column::IsAdd));
    assert_eq!(flag_column(BuiltinOpcode::SLTIU), Some(Column::IsSltu));
    assert_eq!(flag_column(BuiltinOpcode::SH), Some(Column::IsSh));
    assert_eq!(flag_column(BuiltinOpcode::FENCE), None);
    assert!(is_control_flow_opcode(BuiltinOpcode::JALR));
    assert!(is_control_flow_opcode(BuiltinOpcode::BGEU));
    assert!(!is_control_flow_opcode(BuiltinOpcode::ADD));
    assert!(!is_control_flow_opcode(BuiltinOpcode::LUI));
}

#[test]
fn side_note_counts_by_table() {
    let mut note = RangeCheckSideNote::new();
    note.lookup(LookupTable::Range32, 31);
    note.lookup(LookupTable::Range32, 31);
    note.lookup(LookupTable::BitwiseXor, 0xff);
    assert_eq!(note.multiplicity(LookupTable::Range32, 31), 2);
    assert_eq!(note.multiplicity(LookupTable::Range32, 0), 0);
    assert_eq!(note.multiplicity(LookupTable::BitwiseXor, 0xff), 1);
    assert_eq!(note.multiplicity(LookupTable::BitwiseAnd, 0xff), 0);
    assert_eq!(note.total(LookupTable::Range32), 2);
    assert_eq!(note.total(LookupTable::Range256), 0);
    let sizes: Vec<usize> = lookup_tables().iter().map(|t| t.size()).collect();
    assert_eq!(sizes, vec![8, 16, 32, 128, 256, 256, 256, 256]);
    assert_eq!(LookupTable::Range128.multiplicity(), Column::Multiplicity128);
    assert_eq!(LookupTable::BitwiseOr.multiplicity(), Column::MultiplicityOr);
}

#[test]
fn ram_side_note_remembers_the_latest_access() {
    let mut note = RamSideNote::new();
    assert_eq!(note.peek(0x40), (0, 0));
    assert_eq!(note.access(0x40, Some(7), 1), (0, 0));
    assert_eq!(note.access(0x41, None, 1), (0, 0));
    assert_eq!(note.access(0x40, None, 3), (7, 1));
    assert_eq!(note.access(0x40, Some(9), 4), (7, 3));
    assert_eq!(note.peek(0x40), (9, 4));
    assert_eq!(note.peek(0x41), (0, 1));
    assert_eq!(note.num_touched(), 2);
    assert_eq!(note.final_state(0), (0x40, 9, 4));
    assert_eq!(note.final_state(1), (0x41, 0, 1));
}

#[test]
fn shift_witnesses_give_the_shifted_word() {
    let values =
        [0u32, 1, 0x8000_0000, 0xffff_ffff, 0x1234_5678, 0x8765_4321, 0x00ff_00ff, 0x7fff_ffff];
    for value in values {
        for amount in 0u32..256 {
            let b = u32_to_word(value);
            let c = u32_to_word(0xabcd_ef00 | amount);
            let by = amount % 32;
            let left = shift_witness(ShiftOp::Left, b, c);
            assert_eq!(word_to_u32(left.result), value << by);
            let right = shift_witness(ShiftOp::Right, b, c);
            assert_eq!(word_to_u32(right.result), value >> by);
            let signed = shift_witness(ShiftOp::RightSigned, b, c);
            assert_eq!(word_to_u32(signed.result), ((value as i32) >> by) as u32);
            for w in [left, right, signed] {
                assert_eq!(w.rest as u32, amount / 32);
                assert_eq!(w.exp as u32, 1 << (by % 8));
                assert_eq!(w.exp as u32 * w.inverse, 256);
                let bits: u32 = (0..5).map(|i| (w.bits[i] as u32) << i).sum();
                assert_eq!(bits, by);
            }
            assert!(!left.sign && !right.sign);
            assert_eq!(signed.sign, value >= 0x8000_0000);
        }
    }
}

#[test]
fn shift_stages() {
    // 0x8000_00f1 to the left by 12: by four bits, then by one byte
    let left = shift_witness(ShiftOp::Left, u32_to_word(0x8000_00f1), u32_to_word(12));
    assert_eq!(left.bits, [false, false, true, true, false]);
    assert_eq!(left.rem, [0x10, 0, 0, 0]);
    assert_eq!(left.qt, [0xf, 0, 0, 8]);
    assert_eq!(left.bits_shifted, [0x10, 0xf, 0, 0]);
    assert_eq!(left.bytes_shifted, [0, 0x10, 0xf, 0]);
    assert_eq!(left.result, [0, 0x10, 0xf, 0]);
    // 0x8000_00f1 to the right by 25, with the sign: by one bit, then by three bytes
    let signed = shift_witness(ShiftOp::RightSigned, u32_to_word(0x8000_00f1), u32_to_word(25));
    assert_eq!(signed.bits, [true, false, false, true, true]);
    assert_eq!((signed.exp, signed.inverse), (2, 128));
    assert!(signed.sign);
    assert_eq!(signed.low, 0);
    assert_eq!(signed.rem, [1, 0, 0, 0]);
    assert_eq!(signed.qt, [0x78, 0, 0, 0x40]);
    assert_eq!(signed.bits_shifted, [0x78, 0, 0, 0xc0]);
    assert_eq!(signed.bytes_shifted, [0, 0, 0xc0, 0xff]);
    assert_eq!(signed.result, [0xc0, 0xff, 0xff, 0xff]);
}
