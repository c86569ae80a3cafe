//! The clock: every row has a clock value, and each of its register
//! accesses a timestamp of its own, all strictly increasing along the trace.

use vstd::prelude::*;

verus! {

/// The timestamps of the three register accesses of `row`: three times the
/// row's clock value, which is one more than the row's number, plus the
/// number of the access.
pub open spec fn timestamp_of(row: nat, slot: nat) -> nat {
    3 * (row + 1) + slot
}

/// The largest number of rows for which every timestamp fits a machine word.
pub const MAX_ROWS: usize = 0x4000_0000;

/// Assigns the clock values and the timestamps of the rows.
pub struct TimestampChip;

impl TimestampChip {
    /// The clock value of `row`: one more than the row's number.
    pub open spec fn clk_spec(row: nat) -> nat {
        row + 1
    }

    /// The clock value of `row_idx`, at which the row accesses memory.
    pub fn clk(row_idx: usize) -> (clk: u32)
        requires
            row_idx < MAX_ROWS,
        ensures
            clk == Self::clk_spec(row_idx as nat),
    {
        row_idx as u32 + 1
    }

    /// The timestamp of the register access number `slot`, from 1 to 3, of
    /// `row_idx`: three times the clock value plus `slot`.
    pub fn register_timestamp(row_idx: usize, slot: u32) -> (timestamp: u32)
        requires
            row_idx < MAX_ROWS,
            1 <= slot <= 3,
        ensures
            timestamp == timestamp_of(row_idx as nat, slot as nat),
            timestamp == 3 * Self::clk_spec(row_idx as nat) + slot,
    {
        3 * Self::clk(row_idx) + slot
    }

    /// Time moves forward: a later row has a larger clock value, and a later
    /// register access, in the same row or in a later one, a larger timestamp.
    pub proof fn lemma_time_increases(row: nat, slot: nat, later_row: nat, later_slot: nat)
        requires
            1 <= slot <= 3,
            1 <= later_slot <= 3,
            row < later_row || (row == later_row && slot < later_slot),
        ensures
            timestamp_of(row, slot) < timestamp_of(later_row, later_slot),
            row < later_row ==> Self::clk_spec(row) < Self::clk_spec(later_row),
    {
    }
}

} // verus!
