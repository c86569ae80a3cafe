//! The preprocessed trace: the columns that are the same for every
//! execution, given row by row.

use vstd::prelude::*;
use crate::chips::timestamp::{timestamp_of, TimestampChip, MAX_ROWS};
use crate::column::PreprocessedColumn;
use crate::field::BaseField;
use crate::trace::{bit, numbers, word_limbs};

verus! {

/// `row` where it is below `size`, zero from there on: the contents of the
/// table of the numbers below `size`.
pub open spec fn range_table(row: nat, size: nat) -> nat {
    if row < size {
        row
    } else {
        0
    }
}

/// The first input of the bitwise tables in `row`: the upper four of the
/// row number's eight bits, in the first 256 rows.
pub open spec fn bitwise_b(row: nat) -> nat {
    if row < 0x100 {
        row / 0x10
    } else {
        0
    }
}

/// The second input of the bitwise tables in `row`: the lower four of the
/// row number's eight bits, in the first 256 rows.
pub open spec fn bitwise_c(row: nat) -> nat {
    if row < 0x100 {
        row % 0x10
    } else {
        0
    }
}

/// The values that `row` holds in the scalar columns of `col`.
pub open spec fn preprocessed_spec(col: PreprocessedColumn, row: nat) -> Seq<nat> {
    match col {
        PreprocessedColumn::IsFirst => seq![bit(row == 0)],
        PreprocessedColumn::IsFirst32 => seq![bit(row < 32)],
        PreprocessedColumn::RowIdx => seq![row],
        PreprocessedColumn::Clk => word_limbs(TimestampChip::clk_spec(row) as u32),
        PreprocessedColumn::Reg1TsCur => word_limbs(timestamp_of(row, 1) as u32),
        PreprocessedColumn::Reg2TsCur => word_limbs(timestamp_of(row, 2) as u32),
        PreprocessedColumn::Reg3TsCur => word_limbs(timestamp_of(row, 3) as u32),
        PreprocessedColumn::Range128 => seq![range_table(row, 128)],
        PreprocessedColumn::Range16 => seq![range_table(row, 16)],
        PreprocessedColumn::Range8 => seq![range_table(row, 8)],
        PreprocessedColumn::Range256 => seq![range_table(row, 256)],
        PreprocessedColumn::Range32 => seq![range_table(row, 32)],
        PreprocessedColumn::BitwiseAndA => seq![
            ((bitwise_b(row) as u8) & (bitwise_c(row) as u8)) as nat,
        ],
        PreprocessedColumn::BitwiseOrA => seq![
            ((bitwise_b(row) as u8) | (bitwise_c(row) as u8)) as nat,
        ],
        PreprocessedColumn::BitwiseXorA => seq![
            ((bitwise_b(row) as u8) ^ (bitwise_c(row) as u8)) as nat,
        ],
        PreprocessedColumn::BitwiseB => seq![bitwise_b(row)],
        PreprocessedColumn::BitwiseC => seq![bitwise_c(row)],
    }
}

/// The four bytes of `value` as field elements, lowest first.
pub fn word_fields(value: u32) -> (fields: Vec<BaseField>)
    ensures
        numbers(fields@) == word_limbs(value),
{
    let mut fields: Vec<BaseField> = Vec::with_capacity(4);
    fields.push(BaseField::from_u32(value % 0x100));
    fields.push(BaseField::from_u32(value / 0x100 % 0x100));
    fields.push(BaseField::from_u32(value / 0x1_0000 % 0x100));
    fields.push(BaseField::from_u32(value / 0x100_0000));
    proof {
        reveal(word_limbs);
        assert(numbers(fields@) =~= word_limbs(value));
    }
    fields
}

/// The single field element that stands for `value`.
pub fn single_field(value: u32) -> (fields: Vec<BaseField>)
    requires
        value < crate::field::P,
    ensures
        numbers(fields@) == seq![value as nat],
{
    let mut fields: Vec<BaseField> = Vec::with_capacity(1);
    fields.push(BaseField::from_u32(value));
    assert(numbers(fields@) =~= seq![value as nat]);
    fields
}

/// `row` where it is below `size`, zero from there on.
fn range_entry(row: usize, size: usize) -> (value: u32)
    requires
        row < MAX_ROWS,
    ensures
        value == range_table(row as nat, size as nat),
{
    if row < size {
        row as u32
    } else {
        0
    }
}

/// The values that `row` holds in the scalar columns of `col`.
pub fn preprocessed_values(col: PreprocessedColumn, row: usize) -> (values: Vec<BaseField>)
    requires
        row < MAX_ROWS,
    ensures
        numbers(values@) == preprocessed_spec(col, row as nat),
{
    let b: u8 = if row < 0x100 {
        (row / 0x10) as u8
    } else {
        0
    };
    let c: u8 = if row < 0x100 {
        (row % 0x10) as u8
    } else {
        0
    };
    match col {
        PreprocessedColumn::IsFirst => single_field(
            if row == 0 {
                1
            } else {
                0
            },
        ),
        PreprocessedColumn::IsFirst32 => single_field(
            if row < 32 {
                1
            } else {
                0
            },
        ),
        PreprocessedColumn::RowIdx => single_field(row as u32),
        PreprocessedColumn::Clk => word_fields(TimestampChip::clk(row)),
        PreprocessedColumn::Reg1TsCur => word_fields(TimestampChip::register_timestamp(row, 1)),
        PreprocessedColumn::Reg2TsCur => word_fields(TimestampChip::register_timestamp(row, 2)),
        PreprocessedColumn::Reg3TsCur => word_fields(TimestampChip::register_timestamp(row, 3)),
        PreprocessedColumn::Range128 => single_field(range_entry(row, 128)),
        PreprocessedColumn::Range16 => single_field(range_entry(row, 16)),
        PreprocessedColumn::Range8 => single_field(range_entry(row, 8)),
        PreprocessedColumn::Range256 => single_field(range_entry(row, 256)),
        PreprocessedColumn::Range32 => single_field(range_entry(row, 32)),
        PreprocessedColumn::BitwiseAndA => single_field((b & c) as u32),
        PreprocessedColumn::BitwiseOrA => single_field((b | c) as u32),
        PreprocessedColumn::BitwiseXorA => single_field((b ^ c) as u32),
        PreprocessedColumn::BitwiseB => single_field(b as u32),
        PreprocessedColumn::BitwiseC => single_field(c as u32),
    }
}

} // verus!
