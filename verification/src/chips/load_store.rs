//! Loads and stores: `LB`, `LH`, `LW`, `LBU`, `LHU`, `SB`, `SH`, `SW`, and the
//! consistency of the read-write memory that they access.

use vstd::prelude::*;
use crate::chips::cpu::{is_flag, selected_flag, supports, zero_word, CpuChip};
use crate::chips::ram::{byte_in, not_after, ram_timestamp_in, touched_in, RamAccess, RamSideNote};
use crate::chips::register_mem_check::is_byte_word;
use crate::chips::timestamp::TimestampChip;
use crate::chips::utils::{
    add_with_carries,
    is_flag_word,
    is_sum_with_carries,
    lemma_limbs_of_word,
    lemma_word_limbs_are_bytes,
    lemma_word_limbs_of_zero,
    limbs,
    u32_to_word,
    word_to_nat,
    Word,
};
use crate::column::Column;
use crate::field::BaseField;
use crate::riscv::BuiltinOpcode;
use crate::step::Step;
use crate::trace::{agree_on, bit, word_limbs, word_value, Traces};

verus! {

/// Number of bytes that the instruction of `step` accesses in memory; zero
/// if it is no load and no store.
pub open spec fn access_size(step: Step) -> nat {
    match step.instruction.opcode.builtin {
        Some(BuiltinOpcode::LB) | Some(BuiltinOpcode::LBU) | Some(BuiltinOpcode::SB) => 1,
        Some(BuiltinOpcode::LH) | Some(BuiltinOpcode::LHU) | Some(BuiltinOpcode::SH) => 2,
        Some(BuiltinOpcode::LW) | Some(BuiltinOpcode::SW) => 4,
        _ => 0,
    }
}

/// Whether the instruction of `step` is a store.
pub open spec fn is_store(step: Step) -> bool {
    matches!(
        step.instruction.opcode.builtin,
        Some(BuiltinOpcode::SB) | Some(BuiltinOpcode::SH) | Some(BuiltinOpcode::SW)
    )
}

/// Whether the instruction of `step` is a load that extends the sign of
/// what it loads.
pub open spec fn extends_sign(step: Step) -> bool {
    matches!(step.instruction.opcode.builtin, Some(BuiltinOpcode::LB) | Some(BuiltinOpcode::LH))
}

/// The address that a load or store accesses, where the sum of base and
/// offset fits a word.
pub open spec fn address_of(step: Step) -> u32 {
    (step.value_b_spec() + step.value_c_spec()) as u32
}

/// Whether the access of `step` is one that the machine performs: base plus
/// offset fits a word and is a multiple of the number of bytes accessed. Every
/// step that is no load and no store passes.
pub open spec fn accessible(step: Step) -> bool {
    access_size(step) > 0 ==> {
        &&& step.value_b_spec() + step.value_c_spec() <= u32::MAX
        &&& (step.value_b_spec() + step.value_c_spec()) % (access_size(step) as int) == 0
    }
}

/// Whether the access of `step` is one that the machine performs.
pub fn is_accessible(step: &Step) -> (ok: bool)
    requires
        step.wf(),
    ensures
        ok == accessible(*step),
{
    let size: u32 = match step.opcode() {
        Some(BuiltinOpcode::LB) | Some(BuiltinOpcode::LBU) | Some(BuiltinOpcode::SB) => 1,
        Some(BuiltinOpcode::LH) | Some(BuiltinOpcode::LHU) | Some(BuiltinOpcode::SH) => 2,
        Some(BuiltinOpcode::LW) | Some(BuiltinOpcode::SW) => 4,
        _ => {
            return true;
        },
    };
    match step.get_value_b().checked_add(step.get_value_c()) {
        Some(address) => address % size == 0,
        None => false,
    }
}

/// The byte of `value` at place `k`, counted from the lowest.
pub open spec fn byte_of(value: u32, k: nat) -> u8 {
    if k == 0 {
        (value % 0x100) as u8
    } else if k == 1 {
        (value / 0x100 % 0x100) as u8
    } else if k == 2 {
        (value / 0x1_0000 % 0x100) as u8
    } else {
        (value / 0x100_0000) as u8
    }
}

/// The value that the access of `step` leaves in the byte at place `k` of
/// the accessed bytes, after the accesses of `history`: a store leaves the
/// byte of the register `op_a`, a load what was there.
pub open spec fn byte_after(history: Seq<RamAccess>, step: Step, k: nat) -> u8 {
    if is_store(step) {
        byte_of(step.value_a_spec(), k)
    } else {
        byte_in(history, (address_of(step) + k) as u32)
    }
}

/// `history` followed by the accesses of `step` to the first `count` of its bytes.
pub open spec fn ram_after_bytes(history: Seq<RamAccess>, step: Step, row: nat, count: nat) -> Seq<
    RamAccess,
>
    decreases count,
{
    if count == 0 {
        history
    } else {
        let k = (count - 1) as nat;
        ram_after_bytes(history, step, row, k).push(
            RamAccess {
                address: (address_of(step) + k) as u32,
                value: byte_after(history, step, k),
                timestamp: (row + 1) as u32,
            },
        )
    }
}

/// `history` followed by the memory accesses of the row `row` of `step`.
pub open spec fn ram_after(history: Seq<RamAccess>, step: Option<Step>, row: nat) -> Seq<RamAccess> {
    match step {
        Some(s) => ram_after_bytes(history, s, row, access_size(s)),
        None => history,
    }
}

/// The addresses accessed so far after `step`, in the order of their first access.
pub open spec fn touched_after_bytes(
    touched: Seq<u32>,
    history: Seq<RamAccess>,
    step: Step,
    count: nat,
) -> Seq<u32>
    decreases count,
{
    if count == 0 {
        touched
    } else {
        let k = (count - 1) as nat;
        let earlier = touched_after_bytes(touched, history, step, k);
        if touched_in(history, (address_of(step) + k) as u32) {
            earlier
        } else {
            earlier.push((address_of(step) + k) as u32)
        }
    }
}

/// The addresses accessed so far after the row of `step`, in the order of
/// their first access.
pub open spec fn touched_after(touched: Seq<u32>, history: Seq<RamAccess>, step: Option<Step>) -> Seq<
    u32,
> {
    match step {
        Some(s) => touched_after_bytes(touched, history, s, access_size(s)),
        None => touched,
    }
}

/// The fields that record the access to one of the up to four bytes of a row.
pub struct ByteColumns {
    /// Whether the byte is accessed.
    pub accessed: Column,
    /// The value of the byte before the access.
    pub val_prev: Column,
    /// The value of the byte after the access.
    pub val_cur: Column,
    /// The timestamp of the access before.
    pub ts_prev: Column,
    /// The clock value of the row, less one, less the timestamp of the access before.
    pub ts_gap: Column,
}

impl ByteColumns {
    /// The fields of the byte at place `k`.
    pub open spec fn at_spec(k: nat) -> ByteColumns {
        if k == 0 {
            ByteColumns {
                accessed: Column::Ram1Accessed,
                val_prev: Column::Ram1ValPrev,
                val_cur: Column::Ram1ValCur,
                ts_prev: Column::Ram1TsPrev,
                ts_gap: Column::Ram1TsPrevAux,
            }
        } else if k == 1 {
            ByteColumns {
                accessed: Column::Ram2Accessed,
                val_prev: Column::Ram2ValPrev,
                val_cur: Column::Ram2ValCur,
                ts_prev: Column::Ram2TsPrev,
                ts_gap: Column::Ram2TsPrevAux,
            }
        } else if k == 2 {
            ByteColumns {
                accessed: Column::Ram3Accessed,
                val_prev: Column::Ram3ValPrev,
                val_cur: Column::Ram3ValCur,
                ts_prev: Column::Ram3TsPrev,
                ts_gap: Column::Ram3TsPrevAux,
            }
        } else {
            ByteColumns {
                accessed: Column::Ram4Accessed,
                val_prev: Column::Ram4ValPrev,
                val_cur: Column::Ram4ValCur,
                ts_prev: Column::Ram4TsPrev,
                ts_gap: Column::Ram4TsPrevAux,
            }
        }
    }

    /// The fields of the byte at place `k`.
    pub fn at(k: usize) -> (columns: ByteColumns)
        requires
            k < 4,
        ensures
            columns == Self::at_spec(k as nat),
            columns.wf(),
    {
        if k == 0 {
            ByteColumns {
                accessed: Column::Ram1Accessed,
                val_prev: Column::Ram1ValPrev,
                val_cur: Column::Ram1ValCur,
                ts_prev: Column::Ram1TsPrev,
                ts_gap: Column::Ram1TsPrevAux,
            }
        } else if k == 1 {
            ByteColumns {
                accessed: Column::Ram2Accessed,
                val_prev: Column::Ram2ValPrev,
                val_cur: Column::Ram2ValCur,
                ts_prev: Column::Ram2TsPrev,
                ts_gap: Column::Ram2TsPrevAux,
            }
        } else if k == 2 {
            ByteColumns {
                accessed: Column::Ram3Accessed,
                val_prev: Column::Ram3ValPrev,
                val_cur: Column::Ram3ValCur,
                ts_prev: Column::Ram3TsPrev,
                ts_gap: Column::Ram3TsPrevAux,
            }
        } else {
            ByteColumns {
                accessed: Column::Ram4Accessed,
                val_prev: Column::Ram4ValPrev,
                val_cur: Column::Ram4ValCur,
                ts_prev: Column::Ram4TsPrev,
                ts_gap: Column::Ram4TsPrevAux,
            }
        }
    }

    /// The fields span one or four scalar columns as their contents ask, and
    /// no field occurs twice.
    pub open spec fn wf(&self) -> bool {
        &&& self.accessed.size_spec() == 1
        &&& self.val_prev.size_spec() == 1
        &&& self.val_cur.size_spec() == 1
        &&& self.ts_prev.size_spec() == 4
        &&& self.ts_gap.size_spec() == 4
        &&& self.accessed != self.val_prev
        &&& self.accessed != self.val_cur
        &&& self.val_prev != self.val_cur
        &&& self.ts_prev != self.ts_gap
    }

    /// The fields as a set.
    pub open spec fn all(&self) -> Set<Column> {
        set![self.accessed, self.val_prev, self.val_cur, self.ts_prev, self.ts_gap]
    }
}

/// What a row holds in `columns` about a byte that it accesses at the clock
/// value `clk`, when the access before left `prev` there at `prev_ts` and
/// this access leaves `cur`: the two values, the earlier timestamp, which
/// lies before `clk`, and the gap between the two.
pub open spec fn byte_recorded(
    traces: &Traces,
    row: int,
    columns: ByteColumns,
    prev: u8,
    cur: u8,
    prev_ts: u32,
    clk: nat,
) -> bool {
    &&& traces.field(row, columns.accessed) == seq![1nat]
    &&& traces.field(row, columns.val_prev) == seq![prev as nat]
    &&& traces.field(row, columns.val_cur) == seq![cur as nat]
    &&& traces.field(row, columns.ts_prev) == word_limbs(prev_ts)
    &&& prev_ts < clk
    &&& traces.field(row, columns.ts_gap) == word_limbs((clk - 1 - prev_ts) as u32)
}

/// What a row holds in `columns` about a byte that it does not access.
pub open spec fn byte_skipped(traces: &Traces, row: int, columns: ByteColumns) -> bool {
    &&& traces.field(row, columns.accessed) == seq![0nat]
    &&& traces.field(row, columns.val_prev) == seq![0nat]
    &&& traces.field(row, columns.val_cur) == seq![0nat]
    &&& traces.field(row, columns.ts_prev) == zero_word()
    &&& traces.field(row, columns.ts_gap) == zero_word()
}

/// What the row `row` of `step` holds about the byte at place `k` of the
/// bytes that the step accesses, after the accesses of `history`.
pub open spec fn byte_filled(
    traces: &Traces,
    row: int,
    step: Step,
    history: Seq<RamAccess>,
    k: nat,
) -> bool {
    if k < access_size(step) {
        byte_recorded(
            traces,
            row,
            ByteColumns::at_spec(k),
            byte_in(history, (address_of(step) + k) as u32),
            byte_after(history, step, k),
            ram_timestamp_in(history, (address_of(step) + k) as u32),
            (row + 1) as nat,
        )
    } else {
        byte_skipped(traces, row, ByteColumns::at_spec(k))
    }
}

/// The word that a load of `size` bytes leaves in its destination, given
/// the four bytes `bytes` at its address: the bytes that it accesses, and
/// above them copies of the sign bit of the highest of those where the load
/// extends the sign, zeros where it does not.
pub open spec fn loaded_word(bytes: Seq<nat>, size: nat, signed: bool) -> Seq<nat> {
    let top = bytes[size - 1];
    let fill: nat = if signed && top >= 0x80 {
        0xff
    } else {
        0
    };
    if size == 1 {
        seq![bytes[0], fill, fill, fill]
    } else if size == 2 {
        seq![bytes[0], bytes[1], fill, fill]
    } else {
        seq![bytes[0], bytes[1], bytes[2], bytes[3]]
    }
}

/// The four bytes from `address` on after the accesses of `history`.
pub open spec fn bytes_at(history: Seq<RamAccess>, address: u32) -> Seq<nat> {
    seq![
        byte_in(history, address) as nat,
        byte_in(history, (address + 1) as u32) as nat,
        byte_in(history, (address + 2) as u32) as nat,
        byte_in(history, (address + 3) as u32) as nat,
    ]
}

/// The values that the row holds of the four bytes before the access.
pub open spec fn prev_bytes(traces: &Traces, row: int) -> Seq<nat> {
    seq![
        traces.field(row, Column::Ram1ValPrev)[0],
        traces.field(row, Column::Ram2ValPrev)[0],
        traces.field(row, Column::Ram3ValPrev)[0],
        traces.field(row, Column::Ram4ValPrev)[0],
    ]
}

/// The values that the row holds of the four bytes after the access.
pub open spec fn cur_bytes(traces: &Traces, row: int) -> Seq<nat> {
    seq![
        traces.field(row, Column::Ram1ValCur)[0],
        traces.field(row, Column::Ram2ValCur)[0],
        traces.field(row, Column::Ram3ValCur)[0],
        traces.field(row, Column::Ram4ValCur)[0],
    ]
}

/// The identities of the byte at place `k` of a row that accesses `size`
/// bytes: an accessed byte holds bytes as its two values, and a timestamp of
/// the access before that lies before the clock value of the row, which is
/// one more than the row's number, by one more than the recorded gap; a byte
/// that is not accessed holds zeros.
pub open spec fn byte_identities(traces: &Traces, row: int, k: nat, size: nat) -> bool {
    let columns = ByteColumns::at_spec(k);
    if k < size {
        &&& traces.field(row, columns.accessed) == seq![1nat]
        &&& traces.field(row, columns.val_prev)[0] < 0x100
        &&& traces.field(row, columns.val_cur)[0] < 0x100
        &&& word_value(traces.field(row, columns.ts_prev)) + 1 + word_value(
            traces.field(row, columns.ts_gap),
        ) == row + 1
    } else {
        byte_skipped(traces, row, columns)
    }
}

/// The identities of a row that loads or stores `size` bytes.
pub open spec fn access_identities(
    traces: &Traces,
    row: int,
    size: nat,
    store: bool,
    signed: bool,
) -> bool {
    let value = traces.field(row, Column::ValueA);
    let prev = prev_bytes(traces, row);
    let cur = cur_bytes(traces, row);
    &&& is_sum_with_carries(
        traces.field(row, Column::ValueB),
        traces.field(row, Column::ValueC),
        traces.field(row, Column::RamBaseAddr),
        traces.field(row, Column::CarryFlag),
    )
    &&& is_flag_word(traces.field(row, Column::CarryFlag))
    &&& traces.field(row, Column::CarryFlag)[3] == 0
    &&& byte_identities(traces, row, 0, size)
    &&& byte_identities(traces, row, 1, size)
    &&& byte_identities(traces, row, 2, size)
    &&& byte_identities(traces, row, 3, size)
    &&& forall|k: int|
        0 <= k < size ==> #[trigger] cur[k] == if store {
            value[k]
        } else {
            prev[k]
        }
    &&& !store ==> value == loaded_word(prev, size, signed)
    &&& signed ==> {
        &&& traces.field(row, Column::SgnA)[0] <= 1
        &&& traces.field(row, Column::QtAux)[0] < 0x80
        &&& prev[size - 1] == traces.field(row, Column::QtAux)[0] + 0x80 * traces.field(
            row,
            Column::SgnA,
        )[0]
    }
}

/// Fills the address, the accessed bytes and the loaded or stored value of
/// a load or store, and keeps the state of the memory.
pub struct LoadStoreChip;

impl LoadStoreChip {
    /// Whether the chip has work to do on `step`.
    pub open spec fn applies(step: Option<Step>) -> bool {
        step matches Some(s) && access_size(s) > 0
    }

    /// The fields that the chip writes.
    pub open spec fn owned() -> Set<Column> {
        set![Column::CarryFlag, Column::RamBaseAddr, Column::ValueA, Column::SgnA, Column::QtAux].union(
            ByteColumns::at_spec(0).all(),
        ).union(ByteColumns::at_spec(1).all()).union(ByteColumns::at_spec(2).all()).union(
            ByteColumns::at_spec(3).all(),
        )
    }

    /// What the row of `step` holds of the address that the step accesses.
    pub open spec fn address_filled(traces: &Traces, row: int, step: Step) -> bool {
        &&& traces.field(row, Column::RamBaseAddr) == word_limbs(address_of(step))
        &&& is_sum_with_carries(
            word_limbs(step.value_b_spec()),
            word_limbs(step.value_c_spec()),
            traces.field(row, Column::RamBaseAddr),
            traces.field(row, Column::CarryFlag),
        )
        &&& is_flag_word(traces.field(row, Column::CarryFlag))
        &&& traces.field(row, Column::CarryFlag)[3] == 0
    }

    /// What the row of `step` holds of the value that the step loads or
    /// stores, after the memory accesses of `history`.
    pub open spec fn value_filled(
        traces: &Traces,
        row: int,
        step: Step,
        history: Seq<RamAccess>,
    ) -> bool {
        &&& is_byte_word(traces.field(row, Column::ValueA))
        &&& traces.field(row, Column::ValueA) == if is_store(step) {
            word_limbs(step.value_a_spec())
        } else {
            loaded_word(
                bytes_at(history, address_of(step)),
                access_size(step),
                extends_sign(step),
            )
        }
        &&& traces.field(row, Column::SgnA)[0] <= 1
        &&& traces.field(row, Column::QtAux)[0] < 0x80
        &&& extends_sign(step) ==> bytes_at(history, address_of(step))[access_size(step) - 1]
            == traces.field(row, Column::QtAux)[0] + 0x80 * traces.field(row, Column::SgnA)[0]
    }

    /// What the row of `step` holds once the chip has filled it, after the
    /// memory accesses of `history`.
    pub open spec fn witnessed(
        traces: &Traces,
        row: int,
        step: Step,
        history: Seq<RamAccess>,
    ) -> bool {
        &&& accessible(step)
        &&& Self::address_filled(traces, row, step)
        &&& byte_filled(traces, row, step, history, 0)
        &&& byte_filled(traces, row, step, history, 1)
        &&& byte_filled(traces, row, step, history, 2)
        &&& byte_filled(traces, row, step, history, 3)
        &&& Self::value_filled(traces, row, step, history)
    }

    /// What the chip filled holds of a row for as long as the chip's fields
    /// stay as they are.
    pub proof fn lemma_witnessed_kept(
        before: &Traces,
        after: &Traces,
        row: int,
        step: Step,
        history: Seq<RamAccess>,
    )
        requires
            Self::witnessed(before, row, step, history),
            agree_on(before, after, row, Self::owned()),
        ensures
            Self::witnessed(after, row, step, history),
    {
        assert(Self::owned().contains(Column::CarryFlag));
        assert(Self::owned().contains(Column::RamBaseAddr));
        assert(Self::owned().contains(Column::ValueA));
        assert(Self::owned().contains(Column::SgnA));
        assert(Self::owned().contains(Column::QtAux));
        Self::lemma_byte_kept(before, after, row, step, history, 0);
        Self::lemma_byte_kept(before, after, row, step, history, 1);
        Self::lemma_byte_kept(before, after, row, step, history, 2);
        Self::lemma_byte_kept(before, after, row, step, history, 3);
    }

    proof fn lemma_byte_kept(
        before: &Traces,
        after: &Traces,
        row: int,
        step: Step,
        history: Seq<RamAccess>,
        k: nat,
    )
        requires
            k < 4,
            byte_filled(before, row, step, history, k),
            agree_on(before, after, row, Self::owned()),
        ensures
            byte_filled(after, row, step, history, k),
    {
        let columns = ByteColumns::at_spec(k);
        assert(Self::owned().contains(columns.accessed));
        assert(Self::owned().contains(columns.val_prev));
        assert(Self::owned().contains(columns.val_cur));
        assert(Self::owned().contains(columns.ts_prev));
        assert(Self::owned().contains(columns.ts_gap));
    }

    /// Writes to `columns` a byte that is not accessed.
    fn skip_byte(traces: &mut Traces, row_idx: usize, columns: &ByteColumns)
        requires
            old(traces).wf(),
            row_idx < old(traces).rows(),
            columns.wf(),
        ensures
            final(traces).wf(),
            final(traces).same_outside(old(traces), row_idx as int, columns.all()),
            byte_skipped(final(traces), row_idx as int, *columns),
    {
        proof {
            lemma_word_limbs_of_zero();
        }
        traces.fill_columns_bool(row_idx, columns.accessed, false);
        traces.fill_columns_value(row_idx, columns.val_prev, BaseField::zero());
        traces.fill_columns_value(row_idx, columns.val_cur, BaseField::zero());
        traces.fill_columns_word(row_idx, columns.ts_prev, 0);
        traces.fill_columns_word(row_idx, columns.ts_gap, 0);
    }

    /// Records in `side_note` an access to the byte at `address` at the
    /// clock value `clk` and writes to `columns` what the access found and
    /// left there. Returns the value that it found.
    fn record_byte(
        traces: &mut Traces,
        row_idx: usize,
        columns: &ByteColumns,
        address: u32,
        write: Option<u8>,
        clk: u32,
        side_note: &mut RamSideNote,
    ) -> (prev: u8)
        requires
            old(traces).wf(),
            row_idx < old(traces).rows(),
            columns.wf(),
            old(side_note).wf(),
            ram_timestamp_in(old(side_note).history(), address) < clk,
        ensures
            final(traces).wf(),
            final(traces).same_outside(old(traces), row_idx as int, columns.all()),
            prev == byte_in(old(side_note).history(), address),
            byte_recorded(
                final(traces),
                row_idx as int,
                *columns,
                prev,
                match write {
                    Some(value) => value,
                    None => prev,
                },
                ram_timestamp_in(old(side_note).history(), address),
                clk as nat,
            ),
            final(side_note).wf(),
            final(side_note).history() == old(side_note).history().push(
                RamAccess {
                    address,
                    value: match write {
                        Some(value) => value,
                        None => prev,
                    },
                    timestamp: clk,
                },
            ),
            final(side_note).touched() == if touched_in(old(side_note).history(), address) {
                old(side_note).touched()
            } else {
                old(side_note).touched().push(address)
            },
    {
        let (prev, prev_ts) = side_note.access(address, write, clk);
        let cur = match write {
            Some(value) => value,
            None => prev,
        };
        traces.fill_columns_bool(row_idx, columns.accessed, true);
        traces.fill_columns_value(row_idx, columns.val_prev, BaseField::from_u32(prev as u32));
        traces.fill_columns_value(row_idx, columns.val_cur, BaseField::from_u32(cur as u32));
        traces.fill_columns_word(row_idx, columns.ts_prev, prev_ts);
        traces.fill_columns_word(row_idx, columns.ts_gap, clk - 1 - prev_ts);
        prev
    }

    /// What a row holds about a byte stays as it is for as long as the
    /// fields of the byte do.
    proof fn lemma_other_byte_kept(
        before: &Traces,
        after: &Traces,
        row: int,
        step: Step,
        history: Seq<RamAccess>,
        j: nat,
        k: nat,
    )
        requires
            before.wf(),
            0 <= row < before.rows(),
            j < 4,
            k < 4,
            j != k,
            byte_filled(before, row, step, history, j),
            after.same_outside(before, row, ByteColumns::at_spec(k).all()),
        ensures
            byte_filled(after, row, step, history, j),
    {
        let columns = ByteColumns::at_spec(j);
        let written = ByteColumns::at_spec(k).all();
        assert(!written.contains(columns.accessed));
        assert(!written.contains(columns.val_prev));
        assert(!written.contains(columns.val_cur));
        assert(!written.contains(columns.ts_prev));
        assert(!written.contains(columns.ts_gap));
    }

    /// An access to one byte leaves what is known of every other byte as it is.
    proof fn lemma_other_address(history: Seq<RamAccess>, access: RamAccess, address: u32)
        requires
            access.address != address,
        ensures
            byte_in(history.push(access), address) == byte_in(history, address),
            ram_timestamp_in(history.push(access), address) == ram_timestamp_in(history, address),
            touched_in(history.push(access), address) == touched_in(history, address),
    {
        assert(history.push(access).drop_last() =~= history);
    }

    /// The accesses of a row to the bytes before a byte leave what is known
    /// of that byte as it was before the row.
    proof fn lemma_later_byte(history: Seq<RamAccess>, step: Step, row: nat, count: nat, k: nat)
        requires
            count <= k < 4,
            address_of(step) + k <= u32::MAX,
        ensures
            byte_in(ram_after_bytes(history, step, row, count), (address_of(step) + k) as u32)
                == byte_in(history, (address_of(step) + k) as u32),
            ram_timestamp_in(
                ram_after_bytes(history, step, row, count),
                (address_of(step) + k) as u32,
            ) == ram_timestamp_in(history, (address_of(step) + k) as u32),
            touched_in(ram_after_bytes(history, step, row, count), (address_of(step) + k) as u32)
                == touched_in(history, (address_of(step) + k) as u32),
        decreases count,
    {
        if count > 0 {
            let j = (count - 1) as nat;
            Self::lemma_later_byte(history, step, row, j, k);
            Self::lemma_other_address(
                ram_after_bytes(history, step, row, j),
                RamAccess {
                    address: (address_of(step) + j) as u32,
                    value: byte_after(history, step, j),
                    timestamp: (row + 1) as u32,
                },
                (address_of(step) + k) as u32,
            );
        }
    }

    /// No access happened after the latest access to an address.
    proof fn lemma_timestamp_bound(history: Seq<RamAccess>, address: u32, limit: nat)
        requires
            not_after(history, limit),
        ensures
            ram_timestamp_in(history, address) <= limit,
    {
        crate::chips::ram::lemma_last_ram_access(history, address);
        match crate::chips::ram::last_ram_access(history, address) {
            Some(access) => {
                let k = choose|k: int| 0 <= k < history.len() && history[k] == access;
                assert(history[k].timestamp <= limit);
            },
            None => {},
        }
    }

    /// Accesses the first `size` bytes from `address` on, and fills the
    /// fields of all four bytes. Returns the values that the accesses found.
    fn access_bytes(
        traces: &mut Traces,
        row_idx: usize,
        step: &Step,
        side_note: &mut RamSideNote,
    ) -> (found: [u8; 4])
        requires
            old(traces).wf(),
            row_idx < old(traces).rows(),
            row_idx < 0x4000_0000,
            step.wf(),
            accessible(*step),
            access_size(*step) > 0,
            old(side_note).wf(),
            not_after(old(side_note).history(), row_idx as nat),
        ensures
            final(traces).wf(),
            final(traces).same_outside(
                old(traces),
                row_idx as int,
                ByteColumns::at_spec(0).all().union(ByteColumns::at_spec(1).all()).union(
                    ByteColumns::at_spec(2).all(),
                ).union(ByteColumns::at_spec(3).all()),
            ),
            forall|k: nat|
                k < 4 ==> #[trigger] byte_filled(
                    final(traces),
                    row_idx as int,
                    *step,
                    old(side_note).history(),
                    k,
                ),
            forall|k: int|
                0 <= k < access_size(*step) ==> #[trigger] found[k] == byte_in(
                    old(side_note).history(),
                    (address_of(*step) + k) as u32,
                ),
            forall|k: int| access_size(*step) <= k < 4 ==> #[trigger] found[k] == 0,
            final(side_note).wf(),
            final(side_note).history() == ram_after_bytes(
                old(side_note).history(),
                *step,
                row_idx as nat,
                access_size(*step),
            ),
            final(side_note).touched() == touched_after_bytes(
                old(side_note).touched(),
                old(side_note).history(),
                *step,
                access_size(*step),
            ),
    {
        let (size, store): (usize, bool) = match step.opcode() {
            Some(BuiltinOpcode::LB) | Some(BuiltinOpcode::LBU) => (1, false),
            Some(BuiltinOpcode::SB) => (1, true),
            Some(BuiltinOpcode::LH) | Some(BuiltinOpcode::LHU) => (2, false),
            Some(BuiltinOpcode::SH) => (2, true),
            Some(BuiltinOpcode::LW) => (4, false),
            _ => (4, true),
        };
        let address: u32 = step.get_value_b() + step.get_value_c();
        let stored = u32_to_word(step.get_value_a());
        let clk: u32 = TimestampChip::clk(row_idx);
        let ghost row = row_idx as int;
        let ghost h0 = side_note.history();
        let ghost t0 = side_note.touched();
        let ghost all = ByteColumns::at_spec(0).all().union(ByteColumns::at_spec(1).all()).union(
            ByteColumns::at_spec(2).all(),
        ).union(ByteColumns::at_spec(3).all());
        let mut found: [u8; 4] = [0u8, 0u8, 0u8, 0u8];
        let mut k: usize = 0;
        proof {
            reveal(word_limbs);
            assert(address % (size as u32) == 0 ==> address + size - 1 <= u32::MAX) by {
                if size == 2 {
                    assert(address % 2 == 0 ==> address < u32::MAX);
                } else if size == 4 {
                    assert(address % 4 == 0 ==> address + 3 <= u32::MAX);
                }
            }
        }
        while k < 4
            invariant
                k <= 4,
                traces.wf(),
                row == row_idx,
                row_idx < traces.rows(),
                row_idx < 0x4000_0000,
                clk == row_idx + 1,
                size == access_size(*step),
                store == is_store(*step),
                address == address_of(*step),
                address + size - 1 <= u32::MAX,
                limbs(stored) == word_limbs(step.value_a_spec()),
                word_to_nat(stored) == step.value_a_spec(),
                h0 == old(side_note).history(),
                t0 == old(side_note).touched(),
                not_after(h0, row_idx as nat),
                side_note.wf(),
                side_note.history() == ram_after_bytes(
                    h0,
                    *step,
                    row_idx as nat,
                    if k < size {
                        k as nat
                    } else {
                        size as nat
                    },
                ),
                side_note.touched() == touched_after_bytes(
                    t0,
                    h0,
                    *step,
                    if k < size {
                        k as nat
                    } else {
                        size as nat
                    },
                ),
                all == ByteColumns::at_spec(0).all().union(ByteColumns::at_spec(1).all()).union(
                    ByteColumns::at_spec(2).all(),
                ).union(ByteColumns::at_spec(3).all()),
                traces.same_outside(old(traces), row, all),
                forall|j: nat| j < k ==> #[trigger] byte_filled(traces, row, *step, h0, j),
                forall|j: int|
                    0 <= j < k && j < size ==> #[trigger] found[j] == byte_in(
                        h0,
                        (address + j) as u32,
                    ),
                forall|j: int| 0 <= j < 4 && (j >= size || j >= k) ==> #[trigger] found[j] == 0,
            decreases 4 - k,
        {
            let columns = ByteColumns::at(k);
            let ghost before = *traces;
            let ghost earlier = side_note.history();
            if k < size {
                proof {
                    Self::lemma_later_byte(h0, *step, row_idx as nat, k as nat, k as nat);
                    Self::lemma_timestamp_bound(h0, (address + k) as u32, row_idx as nat);
                }
                let write = if store {
                    Some(stored[k])
                } else {
                    None
                };
                let prev = Self::record_byte(
                    traces,
                    row_idx,
                    &columns,
                    address + k as u32,
                    write,
                    clk,
                    side_note,
                );
                found[k] = prev;
                proof {
                    assert(byte_of(step.value_a_spec(), k as nat) == stored[k as int]) by {
                        reveal(word_limbs);
                        assert(limbs(stored)[k as int] == word_limbs(step.value_a_spec())[
                            k as int
                        ]);
                    }
                    assert(byte_filled(traces, row, *step, h0, k as nat));
                }
            } else {
                Self::skip_byte(traces, row_idx, &columns);
            }
            proof {
                assert(all.contains(columns.accessed) && all.contains(columns.val_prev)
                    && all.contains(columns.val_cur) && all.contains(columns.ts_prev)
                    && all.contains(columns.ts_gap));
                assert(columns.all().subset_of(all));
                crate::trace::lemma_same_outside_chain(
                    old(traces),
                    &before,
                    traces,
                    row,
                    all,
                    columns.all(),
                );
                assert(all.union(columns.all()) =~= all);
                assert forall|j: nat| j < k + 1 implies #[trigger] byte_filled(
                    traces,
                    row,
                    *step,
                    h0,
                    j,
                ) by {
                    if j < k {
                        Self::lemma_other_byte_kept(&before, traces, row, *step, h0, j, k as nat);
                    }
                }
            }
            k = k + 1;
        }
        found
    }

    /// The accesses of a row happen at the clock value of the row.
    proof fn lemma_not_after(history: Seq<RamAccess>, step: Step, row: nat, count: nat)
        requires
            not_after(history, row),
            row < 0x4000_0000,
        ensures
            not_after(ram_after_bytes(history, step, row, count), row + 1),
        decreases count,
    {
        if count > 0 {
            Self::lemma_not_after(history, step, row, (count - 1) as nat);
        }
    }

    /// The word that a load leaves in its destination, with the sign bit and
    /// the rest of the highest byte that it accesses where it extends the sign.
    fn load(found: [u8; 4], size: usize, signed: bool) -> (out: (Word, bool, u8))
        requires
            size == 1 || size == 2 || size == 4,
        ensures
            limbs(out.0) == loaded_word(limbs(found), size as nat, signed),
            out.2 < 0x80,
            signed ==> found[size - 1] == out.2 + 0x80 * bit(out.1),
            !signed ==> !out.1 && out.2 == 0,
    {
        let top = found[size - 1];
        let sign = signed && top >= 0x80;
        let fill: u8 = if sign {
            0xff
        } else {
            0
        };
        let rest: u8 = if !signed {
            0
        } else if sign {
            top - 0x80
        } else {
            top
        };
        let word: Word = if size == 1 {
            [found[0], fill, fill, fill]
        } else if size == 2 {
            [found[0], found[1], fill, fill]
        } else {
            found
        };
        assert(limbs(word) =~= loaded_word(limbs(found), size as nat, signed));
        (word, sign, rest)
    }

    /// On a load or store, writes the address with its carries, the bytes
    /// that the instruction accesses, each with the value and the timestamp
    /// of the access before, and the value that is loaded or stored, and
    /// records the accesses. Leaves the trace and the memory as they are on
    /// every other step.
    pub fn fill_main_trace(
        traces: &mut Traces,
        row_idx: usize,
        vm_step: &Option<Step>,
        side_note: &mut RamSideNote,
    )
        requires
            old(traces).wf(),
            row_idx < old(traces).rows(),
            row_idx < 0x4000_0000,
            *vm_step matches Some(s) ==> s.wf() && accessible(s),
            old(side_note).wf(),
            not_after(old(side_note).history(), row_idx as nat),
        ensures
            final(traces).wf(),
            final(traces).same_outside(old(traces), row_idx as int, Self::owned()),
            !Self::applies(*vm_step) ==> final(traces)@ == old(traces)@,
            Self::applies(*vm_step) ==> Self::witnessed(
                final(traces),
                row_idx as int,
                vm_step->0,
                old(side_note).history(),
            ),
            final(side_note).wf(),
            final(side_note).history() == ram_after(
                old(side_note).history(),
                *vm_step,
                row_idx as nat,
            ),
            final(side_note).touched() == touched_after(
                old(side_note).touched(),
                old(side_note).history(),
                *vm_step,
            ),
            not_after(final(side_note).history(), (row_idx + 1) as nat),
    {
        let step = match vm_step {
            Some(step) => step,
            None => {
                return ;
            },
        };
        let (size, signed, store): (usize, bool, bool) = match step.opcode() {
            Some(BuiltinOpcode::LB) => (1, true, false),
            Some(BuiltinOpcode::LBU) => (1, false, false),
            Some(BuiltinOpcode::SB) => (1, false, true),
            Some(BuiltinOpcode::LH) => (2, true, false),
            Some(BuiltinOpcode::LHU) => (2, false, false),
            Some(BuiltinOpcode::SH) => (2, false, true),
            Some(BuiltinOpcode::LW) => (4, false, false),
            Some(BuiltinOpcode::SW) => (4, false, true),
            _ => {
                return ;
            },
        };
        let ghost row = row_idx as int;
        let ghost history = side_note.history();
        proof {
            Self::lemma_not_after(history, *step, row_idx as nat, size as nat);
        }
        Self::fill_address(traces, row_idx, step);
        let ghost addressed = *traces;
        let found = Self::access_bytes(traces, row_idx, step, side_note);
        let ghost accessed = *traces;
        Self::fill_value(traces, row_idx, step, found, size, signed, store, Ghost(history));
        proof {
            Self::lemma_filled(old(traces), &addressed, &accessed, traces, row, *step, history);
        }
    }

    /// Writes the address that `step` accesses, with the carries of the
    /// addition that gives it.
    fn fill_address(traces: &mut Traces, row_idx: usize, step: &Step)
        requires
            old(traces).wf(),
            row_idx < old(traces).rows(),
            step.wf(),
            accessible(*step),
            access_size(*step) > 0,
        ensures
            final(traces).wf(),
            final(traces).same_outside(
                old(traces),
                row_idx as int,
                set![Column::RamBaseAddr, Column::CarryFlag],
            ),
            Self::address_filled(final(traces), row_idx as int, *step),
    {
        let (address, carry) = add_with_carries(
            u32_to_word(step.get_value_b()),
            u32_to_word(step.get_value_c()),
        );
        proof {
            lemma_limbs_of_word(address);
        }
        traces.fill_columns_bytes(row_idx, Column::RamBaseAddr, address);
        traces.fill_columns_bools(row_idx, Column::CarryFlag, carry);
    }

    /// Writes the value that `step` loads or stores, given the bytes that
    /// the accesses of the step found.
    fn fill_value(
        traces: &mut Traces,
        row_idx: usize,
        step: &Step,
        found: [u8; 4],
        size: usize,
        signed: bool,
        store: bool,
        Ghost(history): Ghost<Seq<RamAccess>>,
    )
        requires
            old(traces).wf(),
            row_idx < old(traces).rows(),
            step.wf(),
            accessible(*step),
            size == access_size(*step),
            size > 0,
            signed == extends_sign(*step),
            store == is_store(*step),
            forall|k: int|
                0 <= k < size ==> #[trigger] found[k] == byte_in(
                    history,
                    (address_of(*step) + k) as u32,
                ),
        ensures
            final(traces).wf(),
            final(traces).same_outside(
                old(traces),
                row_idx as int,
                set![Column::ValueA, Column::SgnA, Column::QtAux],
            ),
            Self::value_filled(final(traces), row_idx as int, *step, history),
    {
        let (value, sign, rest) = if store {
            (u32_to_word(step.get_value_a()), false, 0u8)
        } else {
            Self::load(found, size, signed)
        };
        proof {
            if store {
                lemma_word_limbs_are_bytes(step.value_a_spec());
            } else {
                assert forall|k: int| 0 <= k < size implies #[trigger] limbs(found)[k] == bytes_at(
                    history,
                    address_of(*step),
                )[k] by {
                    assert(found[k] == byte_in(history, (address_of(*step) + k) as u32));
                }
                assert(loaded_word(limbs(found), size as nat, signed) =~= loaded_word(
                    bytes_at(history, address_of(*step)),
                    size as nat,
                    signed,
                ));
            }
        }
        traces.fill_columns_bytes(row_idx, Column::ValueA, value);
        traces.fill_columns_bool(row_idx, Column::SgnA, sign);
        traces.fill_columns_value(row_idx, Column::QtAux, BaseField::from_u32(rest as u32));
    }

    /// What the three parts of the chip's work on a row filled holds of the
    /// row once all three are done.
    proof fn lemma_filled(
        before: &Traces,
        addressed: &Traces,
        accessed: &Traces,
        valued: &Traces,
        row: int,
        step: Step,
        history: Seq<RamAccess>,
    )
        requires
            before.wf(),
            0 <= row < before.rows(),
            accessible(step),
            addressed.same_outside(before, row, set![Column::RamBaseAddr, Column::CarryFlag]),
            Self::address_filled(addressed, row, step),
            accessed.same_outside(
                addressed,
                row,
                ByteColumns::at_spec(0).all().union(ByteColumns::at_spec(1).all()).union(
                    ByteColumns::at_spec(2).all(),
                ).union(ByteColumns::at_spec(3).all()),
            ),
            forall|k: nat| k < 4 ==> #[trigger] byte_filled(accessed, row, step, history, k),
            valued.same_outside(accessed, row, set![Column::ValueA, Column::SgnA, Column::QtAux]),
            Self::value_filled(valued, row, step, history),
        ensures
            Self::witnessed(valued, row, step, history),
            valued.same_outside(before, row, Self::owned()),
    {
        let bytes = ByteColumns::at_spec(0).all().union(ByteColumns::at_spec(1).all()).union(
            ByteColumns::at_spec(2).all(),
        ).union(ByteColumns::at_spec(3).all());
        let value = set![Column::ValueA, Column::SgnA, Column::QtAux];
        assert(!bytes.contains(Column::RamBaseAddr) && !bytes.contains(Column::CarryFlag));
        assert(!value.contains(Column::RamBaseAddr) && !value.contains(Column::CarryFlag));
        assert(accessed.field(row, Column::RamBaseAddr) == addressed.field(row, Column::RamBaseAddr));
        assert(accessed.field(row, Column::CarryFlag) == addressed.field(row, Column::CarryFlag));
        assert(valued.field(row, Column::RamBaseAddr) == accessed.field(row, Column::RamBaseAddr));
        assert(valued.field(row, Column::CarryFlag) == accessed.field(row, Column::CarryFlag));
        assert forall|k: nat| k < 4 implies #[trigger] byte_filled(valued, row, step, history, k) by {
            assert(byte_filled(accessed, row, step, history, k));
            let columns = ByteColumns::at_spec(k);
            assert(!value.contains(columns.accessed));
            assert(!value.contains(columns.val_prev));
            assert(!value.contains(columns.val_cur));
            assert(!value.contains(columns.ts_prev));
            assert(!value.contains(columns.ts_gap));
        }
        assert(byte_filled(valued, row, step, history, 0));
        assert(byte_filled(valued, row, step, history, 1));
        assert(byte_filled(valued, row, step, history, 2));
        assert(byte_filled(valued, row, step, history, 3));
        crate::trace::lemma_same_outside_chain(
            before,
            addressed,
            accessed,
            row,
            set![Column::RamBaseAddr, Column::CarryFlag],
            bytes,
        );
        crate::trace::lemma_same_outside_chain(
            before,
            accessed,
            valued,
            row,
            set![Column::RamBaseAddr, Column::CarryFlag].union(bytes),
            value,
        );
        assert(set![Column::RamBaseAddr, Column::CarryFlag].union(bytes).union(value)
            =~= Self::owned());
    }

    /// The fields that the chip's identities speak of.
    pub open spec fn reads() -> Set<Column> {
        Self::owned().union(
            set![
                Column::IsLb,
                Column::IsLh,
                Column::IsLw,
                Column::IsLbu,
                Column::IsLhu,
                Column::IsSb,
                Column::IsSh,
                Column::IsSw,
                Column::ValueB,
                Column::ValueC,
            ],
        )
    }

    /// On a load or store, the address is the second operand plus the third,
    /// the bytes that the instruction accesses hold earlier timestamps, a
    /// store leaves the bytes of the first operand in them, and a load
    /// leaves them as they are and their value, with its sign extended where
    /// the instruction asks for it, in the first operand.
    pub open spec fn constraints(traces: &Traces, row: int) -> bool {
        &&& traces.field(row, Column::IsLb)[0] == 1 ==> access_identities(traces, row, 1, false, true)
        &&& traces.field(row, Column::IsLh)[0] == 1 ==> access_identities(traces, row, 2, false, true)
        &&& traces.field(row, Column::IsLw)[0] == 1 ==> access_identities(
            traces,
            row,
            4,
            false,
            false,
        )
        &&& traces.field(row, Column::IsLbu)[0] == 1 ==> access_identities(
            traces,
            row,
            1,
            false,
            false,
        )
        &&& traces.field(row, Column::IsLhu)[0] == 1 ==> access_identities(
            traces,
            row,
            2,
            false,
            false,
        )
        &&& traces.field(row, Column::IsSb)[0] == 1 ==> access_identities(traces, row, 1, true, false)
        &&& traces.field(row, Column::IsSh)[0] == 1 ==> access_identities(traces, row, 2, true, false)
        &&& traces.field(row, Column::IsSw)[0] == 1 ==> access_identities(traces, row, 4, true, false)
    }

    /// The identities hold of a row for as long as its fields stay as they are.
    pub proof fn lemma_constraints_kept(before: &Traces, after: &Traces, row: int)
        requires
            Self::constraints(before, row),
            agree_on(before, after, row, Self::reads()),
        ensures
            Self::constraints(after, row),
    {
        assert(Self::reads().contains(Column::IsLb) && Self::reads().contains(Column::IsLh)
            && Self::reads().contains(Column::IsLw) && Self::reads().contains(Column::IsLbu)
            && Self::reads().contains(Column::IsLhu) && Self::reads().contains(Column::IsSb)
            && Self::reads().contains(Column::IsSh) && Self::reads().contains(Column::IsSw));
        assert(Self::reads().contains(Column::ValueA) && Self::reads().contains(Column::ValueB)
            && Self::reads().contains(Column::ValueC) && Self::reads().contains(
            Column::RamBaseAddr,
        ) && Self::reads().contains(Column::CarryFlag) && Self::reads().contains(Column::SgnA)
            && Self::reads().contains(Column::QtAux));
        Self::lemma_reads_bytes(0);
        Self::lemma_reads_bytes(1);
        Self::lemma_reads_bytes(2);
        Self::lemma_reads_bytes(3);
        assert(prev_bytes(after, row) == prev_bytes(before, row));
        assert(cur_bytes(after, row) == cur_bytes(before, row));
        assert forall|size: nat, store: bool, signed: bool|
            access_identities(before, row, size, store, signed) implies #[trigger] access_identities(
            after,
            row,
            size,
            store,
            signed,
        ) by {}
    }

    proof fn lemma_reads_bytes(k: nat)
        requires
            k < 4,
        ensures
            Self::reads().contains(ByteColumns::at_spec(k).accessed),
            Self::reads().contains(ByteColumns::at_spec(k).val_prev),
            Self::reads().contains(ByteColumns::at_spec(k).val_cur),
            Self::reads().contains(ByteColumns::at_spec(k).ts_prev),
            Self::reads().contains(ByteColumns::at_spec(k).ts_gap),
    {
        let columns = ByteColumns::at_spec(k);
        assert(Self::owned().contains(columns.accessed));
        assert(Self::owned().contains(columns.val_prev));
        assert(Self::owned().contains(columns.val_cur));
        assert(Self::owned().contains(columns.ts_prev));
        assert(Self::owned().contains(columns.ts_gap));
    }

    /// The identities of a byte hold of what the chip filled about it.
    proof fn lemma_byte_identities(
        traces: &Traces,
        row: int,
        step: Step,
        history: Seq<RamAccess>,
        k: nat,
    )
        requires
            0 <= row < 0x4000_0000,
            k < 4,
            byte_filled(traces, row, step, history, k),
        ensures
            byte_identities(traces, row, k, access_size(step)),
            k < access_size(step) ==> traces.field(row, ByteColumns::at_spec(k).val_prev)[0]
                == byte_in(history, (address_of(step) + k) as u32),
            k < access_size(step) ==> traces.field(row, ByteColumns::at_spec(k).val_cur)[0]
                == byte_after(history, step, k),
    {
        if k < access_size(step) {
            let prev_ts = ram_timestamp_in(history, (address_of(step) + k) as u32);
            crate::chips::utils::lemma_word_value_of_limbs(prev_ts);
            crate::chips::utils::lemma_word_value_of_limbs((row - prev_ts) as u32);
        }
    }

    /// The identities of a load or store hold of what the chip filled, once
    /// the row holds the second and third operand.
    proof fn lemma_access_identities(
        traces: &Traces,
        row: int,
        step: Step,
        history: Seq<RamAccess>,
    )
        requires
            0 <= row < 0x4000_0000,
            access_size(step) > 0,
            Self::witnessed(traces, row, step, history),
            traces.field(row, Column::ValueB) == word_limbs(step.value_b_spec()),
            traces.field(row, Column::ValueC) == word_limbs(step.value_c_spec()),
        ensures
            access_identities(traces, row, access_size(step), is_store(step), extends_sign(step)),
    {
        let size = access_size(step);
        Self::lemma_byte_identities(traces, row, step, history, 0);
        Self::lemma_byte_identities(traces, row, step, history, 1);
        Self::lemma_byte_identities(traces, row, step, history, 2);
        Self::lemma_byte_identities(traces, row, step, history, 3);
        let prev = prev_bytes(traces, row);
        let cur = cur_bytes(traces, row);
        let held = bytes_at(history, address_of(step));
        assert forall|k: int| 0 <= k < size implies prev[k] == held[k] by {}
        assert forall|k: int| 0 <= k < size implies #[trigger] cur[k] == if is_store(step) {
            traces.field(row, Column::ValueA)[k]
        } else {
            prev[k]
        } by {
            if is_store(step) {
                reveal(word_limbs);
            }
        }
        if !is_store(step) {
            assert(loaded_word(prev, size, extends_sign(step)) =~= loaded_word(
                held,
                size,
                extends_sign(step),
            ));
        }
    }

    /// The identities hold of a row that the CPU chip has filled after this chip.
    pub proof fn lemma_constraints(
        traces: &Traces,
        row: int,
        step: Option<Step>,
        history: Seq<RamAccess>,
    )
        requires
            0 <= row < 0x4000_0000,
            CpuChip::filled(traces, row, step),
            step matches Some(s) ==> s.wf() && supports(s),
            Self::applies(step) ==> Self::witnessed(traces, row, step->0, history),
        ensures
            Self::constraints(traces, row),
    {
        Self::lemma_flags(traces, row, step);
        if Self::applies(step) {
            assert(traces.field(row, Column::ValueB) == word_limbs(step->0.value_b_spec())
                && traces.field(row, Column::ValueC) == word_limbs(step->0.value_c_spec())) by {
                reveal(CpuChip::filled);
            }
            Self::lemma_access_identities(traces, row, step->0, history);
        }
    }

    /// The flags of the loads and stores, as the CPU chip fills them.
    proof fn lemma_flags(traces: &Traces, row: int, step: Option<Step>)
        requires
            CpuChip::filled(traces, row, step),
            step matches Some(s) ==> s.wf() && supports(s),
        ensures
            traces.field(row, Column::IsLb)[0] == 1 ==> (step matches Some(s)
                && s.instruction.opcode.builtin == Some(BuiltinOpcode::LB)),
            traces.field(row, Column::IsLh)[0] == 1 ==> (step matches Some(s)
                && s.instruction.opcode.builtin == Some(BuiltinOpcode::LH)),
            traces.field(row, Column::IsLw)[0] == 1 ==> (step matches Some(s)
                && s.instruction.opcode.builtin == Some(BuiltinOpcode::LW)),
            traces.field(row, Column::IsLbu)[0] == 1 ==> (step matches Some(s)
                && s.instruction.opcode.builtin == Some(BuiltinOpcode::LBU)),
            traces.field(row, Column::IsLhu)[0] == 1 ==> (step matches Some(s)
                && s.instruction.opcode.builtin == Some(BuiltinOpcode::LHU)),
            traces.field(row, Column::IsSb)[0] == 1 ==> (step matches Some(s)
                && s.instruction.opcode.builtin == Some(BuiltinOpcode::SB)),
            traces.field(row, Column::IsSh)[0] == 1 ==> (step matches Some(s)
                && s.instruction.opcode.builtin == Some(BuiltinOpcode::SH)),
            traces.field(row, Column::IsSw)[0] == 1 ==> (step matches Some(s)
                && s.instruction.opcode.builtin == Some(BuiltinOpcode::SW)),
    {
        reveal(CpuChip::filled);
        assert(is_flag(Column::IsLb) && is_flag(Column::IsLh) && is_flag(Column::IsLw) && is_flag(
            Column::IsLbu,
        ) && is_flag(Column::IsLhu) && is_flag(Column::IsSb) && is_flag(Column::IsSh) && is_flag(
            Column::IsSw,
        ));
        let selected = selected_flag(step);
        assert(traces.field(row, Column::IsLb) == seq![bit(Column::IsLb == selected)]);
        assert(traces.field(row, Column::IsLh) == seq![bit(Column::IsLh == selected)]);
        assert(traces.field(row, Column::IsLw) == seq![bit(Column::IsLw == selected)]);
        assert(traces.field(row, Column::IsLbu) == seq![bit(Column::IsLbu == selected)]);
        assert(traces.field(row, Column::IsLhu) == seq![bit(Column::IsLhu == selected)]);
        assert(traces.field(row, Column::IsSb) == seq![bit(Column::IsSb == selected)]);
        assert(traces.field(row, Column::IsSh) == seq![bit(Column::IsSh == selected)]);
        assert(traces.field(row, Column::IsSw) == seq![bit(Column::IsSw == selected)]);
    }

    /// The fields that the chip writes once all rows are filled.
    pub open spec fn owned_final() -> Set<Column> {
        set![
            Column::RamInitFinalAddr,
            Column::RamInitFinalFlag,
            Column::RamFinalValue,
            Column::RamFinalCounter,
        ]
    }

    /// Whether `row` holds the final state of the byte at `address`: the
    /// address, the flag of such rows, and the value and the timestamp that
    /// the latest access to the byte left.
    pub open spec fn final_row(
        traces: &Traces,
        row: int,
        address: u32,
        value: u8,
        timestamp: u32,
    ) -> bool {
        &&& traces.field(row, Column::RamInitFinalAddr) == word_limbs(address)
        &&& traces.field(row, Column::RamInitFinalFlag) == seq![1nat]
        &&& traces.field(row, Column::RamFinalValue) == seq![value as nat]
        &&& traces.field(row, Column::RamFinalCounter) == word_limbs(timestamp)
    }

    /// What the trace holds about the memory once the chip has closed it:
    /// for each byte that was accessed, in the order of the first accesses,
    /// a row with the final state of the byte.
    pub open spec fn finalized(traces: &Traces, history: Seq<RamAccess>, touched: Seq<u32>) -> bool {
        forall|i: int|
            0 <= i < touched.len() ==> #[trigger] Self::final_row(
                traces,
                i,
                touched[i],
                byte_in(history, touched[i]),
                ram_timestamp_in(history, touched[i]),
            )
    }

    /// A row holds the final state of a byte for as long as its fields stay
    /// as they are.
    pub proof fn lemma_final_row_kept(
        before: &Traces,
        after: &Traces,
        row: int,
        address: u32,
        value: u8,
        timestamp: u32,
    )
        requires
            Self::final_row(before, row, address, value, timestamp),
            agree_on(before, after, row, Self::owned_final()),
        ensures
            Self::final_row(after, row, address, value, timestamp),
    {
        assert(Self::owned_final().contains(Column::RamInitFinalAddr));
        assert(Self::owned_final().contains(Column::RamInitFinalFlag));
        assert(Self::owned_final().contains(Column::RamFinalValue));
        assert(Self::owned_final().contains(Column::RamFinalCounter));
    }

    /// Writes the final state of each byte of memory that was accessed to a
    /// row of its own. The trace must have a row for each such byte.
    pub fn fill_final(traces: &mut Traces, side_note: &RamSideNote)
        requires
            old(traces).wf(),
            side_note.wf(),
            side_note.touched().len() <= old(traces).rows(),
        ensures
            final(traces).wf(),
            final(traces).same_outside_fields(old(traces), Self::owned_final()),
            Self::finalized(final(traces), side_note.history(), side_note.touched()),
    {
        let count = side_note.num_touched();
        let ghost history = side_note.history();
        let ghost touched = side_note.touched();
        let mut row: usize = 0;
        while row < count
            invariant
                row <= count,
                count == touched.len(),
                count <= traces.rows(),
                traces.wf(),
                traces.rows() == old(traces).rows(),
                side_note.wf(),
                history == side_note.history(),
                touched == side_note.touched(),
                traces.same_outside_fields(old(traces), Self::owned_final()),
                forall|i: int|
                    0 <= i < row ==> #[trigger] Self::final_row(
                        traces,
                        i,
                        touched[i],
                        byte_in(history, touched[i]),
                        ram_timestamp_in(history, touched[i]),
                    ),
            decreases count - row,
        {
            let (address, value, timestamp) = side_note.final_state(row);
            let ghost before = *traces;
            Self::fill_final_row(traces, row, address, value, timestamp);
            proof {
                assert forall|i: int| 0 <= i < row + 1 implies #[trigger] Self::final_row(
                    traces,
                    i,
                    touched[i],
                    byte_in(history, touched[i]),
                    ram_timestamp_in(history, touched[i]),
                ) by {
                    if i < row {
                        crate::trace::lemma_agree_after_row_change(
                            &before,
                            traces,
                            row as int,
                            Self::owned_final(),
                            i,
                            Self::owned_final(),
                        );
                        Self::lemma_final_row_kept(
                            &before,
                            traces,
                            i,
                            touched[i],
                            byte_in(history, touched[i]),
                            ram_timestamp_in(history, touched[i]),
                        );
                    }
                }
                assert forall|r: int, col: Column|
                    0 <= r < old(traces).rows() && !Self::owned_final().contains(
                        col,
                    ) implies #[trigger] traces.field(r, col) == old(traces).field(r, col) by {
                    assert(traces.field(r, col) == before.field(r, col));
                    assert(before.field(r, col) == old(traces).field(r, col));
                }
            }
            row = row + 1;
        }
    }

    /// Writes the final state of one byte of memory to `row`.
    fn fill_final_row(traces: &mut Traces, row: usize, address: u32, value: u8, timestamp: u32)
        requires
            old(traces).wf(),
            row < old(traces).rows(),
        ensures
            final(traces).wf(),
            final(traces).same_outside(old(traces), row as int, Self::owned_final()),
            Self::final_row(final(traces), row as int, address, value, timestamp),
    {
        traces.fill_columns_word(row, Column::RamInitFinalAddr, address);
        traces.fill_columns_bool(row, Column::RamInitFinalFlag, true);
        traces.fill_columns_value(row, Column::RamFinalValue, BaseField::from_u32(value as u32));
        traces.fill_columns_word(row, Column::RamFinalCounter, timestamp);
    }

    /// Records the memory accesses of `step` in `side_note`, without writing
    /// to a trace.
    pub fn record_accesses(step: &Step, row_idx: usize, side_note: &mut RamSideNote)
        requires
            step.wf(),
            accessible(*step),
            row_idx < 0x4000_0000,
            old(side_note).wf(),
        ensures
            final(side_note).wf(),
            final(side_note).history() == ram_after(
                old(side_note).history(),
                Some(*step),
                row_idx as nat,
            ),
            final(side_note).touched() == touched_after(
                old(side_note).touched(),
                old(side_note).history(),
                Some(*step),
            ),
    {
        let (size, store): (usize, bool) = match step.opcode() {
            Some(BuiltinOpcode::LB) | Some(BuiltinOpcode::LBU) => (1, false),
            Some(BuiltinOpcode::SB) => (1, true),
            Some(BuiltinOpcode::LH) | Some(BuiltinOpcode::LHU) => (2, false),
            Some(BuiltinOpcode::SH) => (2, true),
            Some(BuiltinOpcode::LW) => (4, false),
            Some(BuiltinOpcode::SW) => (4, true),
            _ => {
                return ;
            },
        };
        let address: u32 = step.get_value_b() + step.get_value_c();
        let stored = u32_to_word(step.get_value_a());
        let clk: u32 = TimestampChip::clk(row_idx);
        let ghost h0 = side_note.history();
        let ghost t0 = side_note.touched();
        let mut k: usize = 0;
        proof {
            assert(address % (size as u32) == 0 ==> address + size - 1 <= u32::MAX) by {
                if size == 2 {
                    assert(address % 2 == 0 ==> address < u32::MAX);
                } else if size == 4 {
                    assert(address % 4 == 0 ==> address + 3 <= u32::MAX);
                }
            }
        }
        while k < size
            invariant
                k <= size <= 4,
                clk == row_idx + 1,
                size == access_size(*step),
                store == is_store(*step),
                address == address_of(*step),
                address + size - 1 <= u32::MAX,
                limbs(stored) == word_limbs(step.value_a_spec()),
                side_note.wf(),
                side_note.history() == ram_after_bytes(h0, *step, row_idx as nat, k as nat),
                side_note.touched() == touched_after_bytes(t0, h0, *step, k as nat),
            decreases size - k,
        {
            proof {
                Self::lemma_later_byte(h0, *step, row_idx as nat, k as nat, k as nat);
                assert(byte_of(step.value_a_spec(), k as nat) == stored[k as int]) by {
                    reveal(word_limbs);
                    assert(limbs(stored)[k as int] == word_limbs(step.value_a_spec())[k as int]);
                }
            }
            let write = if store {
                Some(stored[k])
            } else {
                None
            };
            side_note.access(address + k as u32, write, clk);
            k = k + 1;
        }
    }
}

} // verus!
