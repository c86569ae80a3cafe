use zkvm_trace::chips::timestamp::{TimestampChip, MAX_ROWS};
use zkvm_trace::column::PreprocessedColumn;
use zkvm_trace::preprocessed::preprocessed_values;

fn values(col: PreprocessedColumn, row: usize) -> Vec<u32> {
    preprocessed_values(col, row)
        .iter()
        .map(|f| f.value())
        .collect()
}

#[test]
fn selectors_and_counters() {
    assert_eq!(values(PreprocessedColumn::IsFirst, 0), vec![1]);
    assert_eq!(values(PreprocessedColumn::IsFirst, 1), vec![0]);
    assert_eq!(values(PreprocessedColumn::IsFirst32, 31), vec![1]);
    assert_eq!(values(PreprocessedColumn::IsFirst32, 32), vec![0]);
    assert_eq!(values(PreprocessedColumn::RowIdx, 0), vec![0]);
    assert_eq!(values(PreprocessedColumn::RowIdx, 70_000), vec![70_000]);
    assert_eq!(values(PreprocessedColumn::Clk, 0), vec![1, 0, 0, 0]);
    assert_eq!(values(PreprocessedColumn::Clk, 0x1ff), vec![0x00, 0x02, 0, 0]);
    assert_eq!(values(PreprocessedColumn::Reg1TsCur, 0), vec![4, 0, 0, 0]);
    assert_eq!(values(PreprocessedColumn::Reg2TsCur, 0), vec![5, 0, 0, 0]);
    assert_eq!(values(PreprocessedColumn::Reg3TsCur, 0), vec![6, 0, 0, 0]);
    assert_eq!(values(PreprocessedColumn::Reg3TsCur, 84), vec![2, 1, 0, 0]);
    assert_eq!(
        values(PreprocessedColumn::Reg3TsCur, MAX_ROWS - 1),
        vec![3, 0, 0, 0xc0]
    );
}

#[test]
fn range_tables() {
    for (col, size) in [
        (PreprocessedColumn::Range8, 8usize),
        (PreprocessedColumn::Range16, 16),
        (PreprocessedColumn::Range32, 32),
        (PreprocessedColumn::Range128, 128),
        (PreprocessedColumn::Range256, 256),
    ] {
        assert_eq!(values(col, 0), vec![0]);
        assert_eq!(values(col, size - 1), vec![size as u32 - 1]);
        assert_eq!(values(col, size), vec![0]);
        assert_eq!(values(col, 1000), vec![0]);
    }
}

#[test]
fn bitwise_tables() {
    // row 0xa5 holds the inputs 0xa and 0x5
    assert_eq!(values(PreprocessedColumn::BitwiseB, 0xa5), vec![0xa]);
    assert_eq!(values(PreprocessedColumn::BitwiseC, 0xa5), vec![0x5]);
    assert_eq!(values(PreprocessedColumn::BitwiseAndA, 0xa5), vec![0x0]);
    assert_eq!(values(PreprocessedColumn::BitwiseOrA, 0xa5), vec![0xf]);
    assert_eq!(values(PreprocessedColumn::BitwiseXorA, 0xa5), vec![0xf]);
    assert_eq!(values(PreprocessedColumn::BitwiseAndA, 0x37), vec![0x3]);
    assert_eq!(values(PreprocessedColumn::BitwiseXorA, 0x37), vec![0x4]);
    assert_eq!(values(PreprocessedColumn::BitwiseB, 0x100), vec![0]);
    assert_eq!(values(PreprocessedColumn::BitwiseOrA, 0x1ff), vec![0]);
}

#[test]
fn the_clock_moves_forward() {
    assert_eq!(TimestampChip::clk(0), 1);
    assert_eq!(TimestampChip::clk(9), 10);
    assert_eq!(TimestampChip::register_timestamp(0, 1), 4);
    assert_eq!(TimestampChip::register_timestamp(0, 3), 6);
    assert_eq!(TimestampChip::register_timestamp(1, 1), 7);
    assert!(
        TimestampChip::register_timestamp(5, 3) < TimestampChip::register_timestamp(6, 1)
    );
    assert_eq!(TimestampChip::register_timestamp(MAX_ROWS - 1, 3), 0xc000_0003);
}
