//! Consistency of the register file: every access to a register records the
//! value and the timestamp that the access before it left there, and a
//! timestamp of its own that is strictly larger.

use vstd::prelude::*;
use crate::chips::cpu::zero_word;
use crate::chips::timestamp::{timestamp_of, TimestampChip};
use crate::chips::utils::{
    is_difference_with_borrows,
    lemma_limbs_of_word,
    limbs,
    subtract_with_borrow,
    u32_to_word,
    word_to_nat,
    BoolWord,
    Word,
};
use crate::column::Column;
use crate::field::BaseField;
use crate::riscv::{InstructionType, Register};
use crate::step::Step;
use crate::trace::{word_limbs, Traces};

verus! {

/// One access to a register: the value that the register holds after it, and
/// the time at which it happened.
pub struct RegisterAccess {
    pub reg: Register,
    pub value: u32,
    pub timestamp: u32,
}

/// The latest access to `reg` among `history`, if there is one.
pub open spec fn last_access(history: Seq<RegisterAccess>, reg: Register) -> Option<
    RegisterAccess,
>
    decreases history.len(),
{
    if history.len() == 0 {
        None
    } else if history.last().reg == reg {
        Some(history.last())
    } else {
        last_access(history.drop_last(), reg)
    }
}

/// The timestamp of the latest access of `history`, zero if there is none.
pub open spec fn clock(history: Seq<RegisterAccess>) -> nat {
    if history.len() == 0 {
        0
    } else {
        history.last().timestamp as nat
    }
}

/// Whether every access of `history` happened after the one before it.
pub open spec fn strictly_increasing(history: Seq<RegisterAccess>) -> bool {
    forall|i: int, j: int|
        0 <= i < j < history.len() ==> (#[trigger] history[i]).timestamp < (
        #[trigger] history[j]).timestamp
}

/// The witness that `prev_ts` lies before `cur_ts`: the bytes of
/// `cur_ts - 1 - prev_ts` and the borrows of that subtraction, of which the
/// highest is clear. There is none when `prev_ts` does not lie before `cur_ts`.
pub fn timestamp_witness(prev_ts: u32, cur_ts: u32) -> (witness: Option<(Word, BoolWord)>)
    ensures
        witness is Some <==> prev_ts < cur_ts,
        witness matches Some((gap, borrow)) ==> {
            &&& word_to_nat(gap) == cur_ts - 1 - prev_ts
            &&& is_difference_with_borrows(
                word_limbs((cur_ts - 1) as u32),
                word_limbs(prev_ts),
                limbs(gap),
                crate::chips::utils::bits(borrow),
            )
            &&& !borrow[3]
        },
{
    if cur_ts == 0 {
        return None;
    }
    let (gap, borrow) = subtract_with_borrow(u32_to_word(cur_ts - 1), u32_to_word(prev_ts));
    if borrow[3] {
        None
    } else {
        Some((gap, borrow))
    }
}

/// The value and the timestamp of the latest access to each register.
pub struct RegisterMemCheckSideNote {
    last_access_timestamp: [u32; 32],
    last_access_value: [u32; 32],
    history: Ghost<Seq<RegisterAccess>>,
}

impl RegisterMemCheckSideNote {
    /// All accesses so far, in the order in which they happened.
    pub closed spec fn history(&self) -> Seq<RegisterAccess> {
        self.history@
    }

    /// The value that the latest access left in `reg`; zero before the first.
    pub closed spec fn value(&self, reg: Register) -> u32 {
        self.last_access_value[reg.index_spec() as int]
    }

    /// The timestamp of the latest access to `reg`; zero before the first.
    pub closed spec fn timestamp(&self, reg: Register) -> u32 {
        self.last_access_timestamp[reg.index_spec() as int]
    }

    /// The recorded values and timestamps are those of the latest access to
    /// each register, and time only moves forward.
    pub open spec fn wf(&self) -> bool {
        &&& strictly_increasing(self.history())
        &&& forall|reg: Register|
            match #[trigger] last_access(self.history(), reg) {
                Some(access) => self.value(reg) == access.value && self.timestamp(reg)
                    == access.timestamp,
                None => self.value(reg) == 0 && self.timestamp(reg) == 0,
            }
    }

    /// The state before any access.
    pub fn new() -> (note: Self)
        ensures
            note.wf(),
            note.history() == Seq::<RegisterAccess>::empty(),
    {
        RegisterMemCheckSideNote {
            last_access_timestamp: [0u32;32],
            last_access_value: [0u32;32],
            history: Ghost(Seq::empty()),
        }
    }

    /// The value that the latest access left in `reg`.
    pub fn last_value(&self, reg: Register) -> (value: u32)
        ensures
            value == self.value(reg),
    {
        self.last_access_value[reg.index()]
    }

    /// The timestamp of the latest access to `reg`.
    pub fn last_timestamp(&self, reg: Register) -> (timestamp: u32)
        ensures
            timestamp == self.timestamp(reg),
    {
        self.last_access_timestamp[reg.index()]
    }

    /// Records an access to `reg` at `timestamp`, which must lie after every
    /// access so far. A write leaves `write` in the register, a read what was
    /// there. Returns the value and the timestamp of the access before.
    pub fn access(&mut self, reg: Register, write: Option<u32>, timestamp: u32) -> (prev: (u32, u32))
        requires
            old(self).wf(),
            clock(old(self).history()) < timestamp,
        ensures
            final(self).wf(),
            prev == (old(self).value(reg), old(self).timestamp(reg)),
            prev.1 < timestamp,
            final(self).history() == old(self).history().push(
                RegisterAccess {
                    reg,
                    value: match write {
                        Some(value) => value,
                        None => prev.0,
                    },
                    timestamp,
                },
            ),
            clock(final(self).history()) == timestamp,
    {
        let index = reg.index();
        let prev_value = self.last_access_value[index];
        let prev_ts = self.last_access_timestamp[index];
        let value = match write {
            Some(value) => value,
            None => prev_value,
        };
        let ghost before = self.history@;
        let ghost access = RegisterAccess { reg, value, timestamp };
        proof {
            lemma_clock_bounds(before, reg);
        }
        self.last_access_value[index] = value;
        self.last_access_timestamp[index] = timestamp;
        self.history = Ghost(before.push(access));
        proof {
            let after = before.push(access);
            assert(after.drop_last() =~= before);
            assert(after.last() == access);
            assert forall|other: Register|
                match #[trigger] last_access(after, other) {
                    Some(found) => self.value(other) == found.value && self.timestamp(other)
                        == found.timestamp,
                    None => self.value(other) == 0 && self.timestamp(other) == 0,
                } by {
                if other != reg {
                    assert(last_access(after, other) == last_access(before, other));
                    assert(other.index_spec() != reg.index_spec());
                }
            }
            assert forall|i: int, j: int| 0 <= i < j < after.len() implies (#[trigger] after[i]).timestamp
                < (#[trigger] after[j]).timestamp by {
                if j == before.len() {
                    lemma_clock_is_latest(before, i);
                }
            }
        }
        (prev_value, prev_ts)
    }
}

/// No access happened after the latest one.
pub proof fn lemma_clock_is_latest(history: Seq<RegisterAccess>, i: int)
    requires
        strictly_increasing(history),
        0 <= i < history.len(),
    ensures
        history[i].timestamp <= clock(history),
{
    if i < history.len() - 1 {
        assert(history[i].timestamp < history[history.len() - 1].timestamp);
    }
}

/// The latest access to a register did not happen after the latest access of all.
pub proof fn lemma_clock_bounds(history: Seq<RegisterAccess>, reg: Register)
    requires
        strictly_increasing(history),
    ensures
        match last_access(history, reg) {
            Some(access) => access.reg == reg && access.timestamp <= clock(history)
                && history.contains(access),
            None => forall|i: int| 0 <= i < history.len() ==> (#[trigger] history[i]).reg != reg,
        },
    decreases history.len(),
{
    if history.len() > 0 {
        let earlier = history.drop_last();
        if history.last().reg == reg {
            assert(history[history.len() - 1] == history.last());
        } else {
            assert forall|i: int, j: int| 0 <= i < j < earlier.len() implies (#[trigger] earlier[i]).timestamp
                < (#[trigger] earlier[j]).timestamp by {
                assert(earlier[i] == history[i]);
                assert(earlier[j] == history[j]);
            }
            lemma_clock_bounds(earlier, reg);
            match last_access(earlier, reg) {
                Some(access) => {
                    let k = choose|k: int| 0 <= k < earlier.len() && earlier[k] == access;
                    assert(history[k] == access);
                    lemma_clock_is_latest(history, k);
                },
                None => {
                    assert forall|i: int| 0 <= i < history.len() implies (#[trigger] history[i]).reg
                        != reg by {
                        if i < earlier.len() {
                            assert(earlier[i] == history[i]);
                        }
                    }
                },
            }
        }
    }
}

/// The value that `reg` holds after the accesses of `history`.
pub open spec fn value_in(history: Seq<RegisterAccess>, reg: Register) -> u32 {
    match last_access(history, reg) {
        Some(access) => access.value,
        None => 0,
    }
}

/// The timestamp of the latest access to `reg` in `history`, zero if there is none.
pub open spec fn timestamp_in(history: Seq<RegisterAccess>, reg: Register) -> u32 {
    match last_access(history, reg) {
        Some(access) => access.timestamp,
        None => 0,
    }
}

/// `history` followed by a read of `reg` at `timestamp`.
pub open spec fn with_read(history: Seq<RegisterAccess>, reg: Register, timestamp: nat) -> Seq<
    RegisterAccess,
> {
    history.push(
        RegisterAccess { reg, value: value_in(history, reg), timestamp: timestamp as u32 },
    )
}

/// `history` followed by the first access of the row `row` of `step`, if it takes place.
pub open spec fn after_first(history: Seq<RegisterAccess>, step: Step, row: nat) -> Seq<
    RegisterAccess,
> {
    if reads_op_b(step) {
        with_read(history, step.instruction.op_b, timestamp_of(row, 1))
    } else {
        history
    }
}

/// `history` followed by the first two accesses of the row `row` of `step`,
/// as far as they take place.
pub open spec fn after_second(history: Seq<RegisterAccess>, step: Step, row: nat) -> Seq<
    RegisterAccess,
> {
    let earlier = after_first(history, step, row);
    if reads_op_c(step) {
        with_read(earlier, step.register_c_spec(), timestamp_of(row, 2))
    } else {
        earlier
    }
}

/// `history` followed by the accesses of the row `row` of `step`, of which
/// the last leaves `written` in the register `op_a` if it is a write.
pub open spec fn after_third(
    history: Seq<RegisterAccess>,
    step: Step,
    row: nat,
    written: u32,
) -> Seq<RegisterAccess> {
    let earlier = after_second(history, step, row);
    if !accesses_op_a(step) {
        earlier
    } else if writes_op_a(step) {
        earlier.push(
            RegisterAccess {
                reg: step.instruction.op_a,
                value: written,
                timestamp: timestamp_of(row, 3) as u32,
            },
        )
    } else {
        with_read(earlier, step.instruction.op_a, timestamp_of(row, 3))
    }
}

/// What the row `row` holds in `columns` about an access that takes place,
/// or not, after the accesses of `history`.
pub open spec fn slot_filled(
    traces: &Traces,
    row: int,
    columns: AccessColumns,
    takes_place: bool,
    reg: Register,
    history: Seq<RegisterAccess>,
    timestamp: nat,
) -> bool {
    if takes_place {
        access_recorded(
            traces,
            row,
            columns,
            reg,
            value_in(history, reg),
            timestamp_in(history, reg),
            timestamp as u32,
        )
    } else {
        access_skipped(traces, row, columns)
    }
}

/// The fields that record one of the three register accesses of a row.
pub struct AccessColumns {
    /// Whether the access takes place.
    pub accessed: Column,
    /// The number of the register.
    pub address: Column,
    /// The value that the access before left in the register.
    pub val_prev: Column,
    /// The timestamp of the access before.
    pub ts_prev: Column,
    /// The access's own timestamp, less one, less the timestamp of the access before.
    pub ts_gap: Column,
    /// The borrows of the subtraction that gives `ts_gap`.
    pub ts_borrow: Column,
}

impl AccessColumns {
    /// The fields span one or four scalar columns as their contents ask, and
    /// no field occurs twice.
    pub open spec fn wf(&self) -> bool {
        &&& self.accessed.size_spec() == 1
        &&& self.address.size_spec() == 1
        &&& self.val_prev.size_spec() == 4
        &&& self.ts_prev.size_spec() == 4
        &&& self.ts_gap.size_spec() == 4
        &&& self.ts_borrow.size_spec() == 4
        &&& self.accessed != self.address
        &&& self.val_prev != self.ts_prev
        &&& self.val_prev != self.ts_gap
        &&& self.val_prev != self.ts_borrow
        &&& self.ts_prev != self.ts_gap
        &&& self.ts_prev != self.ts_borrow
        &&& self.ts_gap != self.ts_borrow
    }

    /// The fields as a set.
    pub open spec fn all(&self) -> Set<Column> {
        set![
            self.accessed,
            self.address,
            self.val_prev,
            self.ts_prev,
            self.ts_gap,
            self.ts_borrow,
        ]
    }

    /// The fields of the first access of a row, a read of the register `op_b`.
    pub open spec fn first_spec() -> AccessColumns {
        AccessColumns {
            accessed: Column::Reg1Accessed,
            address: Column::Reg1Address,
            val_prev: Column::Reg1ValPrev,
            ts_prev: Column::Reg1TsPrev,
            ts_gap: Column::CReg1TsPrev,
            ts_borrow: Column::CH1Minus,
        }
    }

    /// The fields of the second access of a row, a read of the register that `op_c` names.
    pub open spec fn second_spec() -> AccessColumns {
        AccessColumns {
            accessed: Column::Reg2Accessed,
            address: Column::Reg2Address,
            val_prev: Column::Reg2ValPrev,
            ts_prev: Column::Reg2TsPrev,
            ts_gap: Column::CReg2TsPrev,
            ts_borrow: Column::CH2Minus,
        }
    }

    /// The fields of the third access of a row, to the register `op_a`.
    pub open spec fn third_spec() -> AccessColumns {
        AccessColumns {
            accessed: Column::Reg3Accessed,
            address: Column::Reg3Address,
            val_prev: Column::Reg3ValPrev,
            ts_prev: Column::Reg3TsPrev,
            ts_gap: Column::CReg3TsPrev,
            ts_borrow: Column::CH3Minus,
        }
    }

    #[verifier::when_used_as_spec(first_spec)]
    pub fn first() -> (columns: AccessColumns)
        ensures
            columns == Self::first_spec(),
            columns.wf(),
    {
        AccessColumns {
            accessed: Column::Reg1Accessed,
            address: Column::Reg1Address,
            val_prev: Column::Reg1ValPrev,
            ts_prev: Column::Reg1TsPrev,
            ts_gap: Column::CReg1TsPrev,
            ts_borrow: Column::CH1Minus,
        }
    }

    #[verifier::when_used_as_spec(second_spec)]
    pub fn second() -> (columns: AccessColumns)
        ensures
            columns == Self::second_spec(),
            columns.wf(),
    {
        AccessColumns {
            accessed: Column::Reg2Accessed,
            address: Column::Reg2Address,
            val_prev: Column::Reg2ValPrev,
            ts_prev: Column::Reg2TsPrev,
            ts_gap: Column::CReg2TsPrev,
            ts_borrow: Column::CH2Minus,
        }
    }

    #[verifier::when_used_as_spec(third_spec)]
    pub fn third() -> (columns: AccessColumns)
        ensures
            columns == Self::third_spec(),
            columns.wf(),
    {
        AccessColumns {
            accessed: Column::Reg3Accessed,
            address: Column::Reg3Address,
            val_prev: Column::Reg3ValPrev,
            ts_prev: Column::Reg3TsPrev,
            ts_gap: Column::CReg3TsPrev,
            ts_borrow: Column::CH3Minus,
        }
    }
}

/// What a row holds in `columns` when it accesses `reg` at `timestamp` and
/// the access before left `prev_value` there at `prev_timestamp`.
pub open spec fn access_recorded(
    traces: &Traces,
    row: int,
    columns: AccessColumns,
    reg: Register,
    prev_value: u32,
    prev_timestamp: u32,
    timestamp: u32,
) -> bool {
    &&& traces.field(row, columns.accessed) == seq![1nat]
    &&& traces.field(row, columns.address) == seq![reg.index_spec()]
    &&& traces.field(row, columns.val_prev) == word_limbs(prev_value)
    &&& traces.field(row, columns.ts_prev) == word_limbs(prev_timestamp)
    &&& prev_timestamp < timestamp
    &&& traces.field(row, columns.ts_gap) == word_limbs((timestamp - 1 - prev_timestamp) as u32)
    &&& is_difference_with_borrows(
        word_limbs((timestamp - 1) as u32),
        traces.field(row, columns.ts_prev),
        traces.field(row, columns.ts_gap),
        traces.field(row, columns.ts_borrow),
    )
    &&& traces.field(row, columns.ts_borrow)[3] == 0
}

/// What a row holds in `columns` when the access does not take place.
pub open spec fn access_skipped(traces: &Traces, row: int, columns: AccessColumns) -> bool {
    &&& traces.field(row, columns.accessed) == seq![0nat]
    &&& traces.field(row, columns.address) == seq![0nat]
    &&& traces.field(row, columns.val_prev) == zero_word()
    &&& traces.field(row, columns.ts_prev) == zero_word()
    &&& traces.field(row, columns.ts_gap) == zero_word()
    &&& traces.field(row, columns.ts_borrow) == zero_word()
}

/// Whether the row `row` records in `columns` a timestamp that lies strictly
/// before `timestamp`, with the witnesses of that comparison: the bytes of
/// `timestamp - 1` less the recorded timestamp, and the borrows of that
/// subtraction, of which the highest is clear.
pub open spec fn timestamp_ordered(
    traces: &Traces,
    row: int,
    columns: AccessColumns,
    timestamp: nat,
) -> bool {
    &&& crate::trace::word_value(traces.field(row, columns.ts_prev)) < timestamp
    &&& crate::trace::word_value(traces.field(row, columns.ts_gap)) == timestamp - 1
        - crate::trace::word_value(traces.field(row, columns.ts_prev))
    &&& is_difference_with_borrows(
        word_limbs((timestamp - 1) as u32),
        traces.field(row, columns.ts_prev),
        traces.field(row, columns.ts_gap),
        traces.field(row, columns.ts_borrow),
    )
    &&& traces.field(row, columns.ts_borrow)[3] == 0
}

/// A row that records an access records an earlier timestamp with it.
pub proof fn lemma_slot_ordered(
    traces: &Traces,
    row: int,
    columns: AccessColumns,
    takes_place: bool,
    reg: Register,
    history: Seq<RegisterAccess>,
    timestamp: nat,
)
    requires
        slot_filled(traces, row, columns, takes_place, reg, history, timestamp),
        traces.field(row, columns.accessed)[0] != 0,
        0 < timestamp <= u32::MAX,
    ensures
        timestamp_ordered(traces, row, columns, timestamp),
{
    crate::chips::utils::lemma_word_value_of_limbs(timestamp_in(history, reg));
    crate::chips::utils::lemma_word_value_of_limbs(
        (timestamp - 1 - timestamp_in(history, reg)) as u32,
    );
}

/// Whether `step` reads the register `op_b`.
pub open spec fn reads_op_b(step: Step) -> bool {
    !matches!(
        step.instruction.ins_type,
        InstructionType::UType | InstructionType::JType | InstructionType::Unimpl
    )
}

/// Whether `step` reads a register that `op_c` names.
pub open spec fn reads_op_c(step: Step) -> bool {
    step.instruction.ins_type == InstructionType::RType
}

/// Whether `step` accesses the register `op_a`.
pub open spec fn accesses_op_a(step: Step) -> bool {
    step.instruction.ins_type != InstructionType::Unimpl
}

/// Whether `step` writes the register `op_a`; stores and branches read it.
pub open spec fn writes_op_a(step: Step) -> bool {
    !matches!(
        step.instruction.ins_type,
        InstructionType::SType | InstructionType::BType | InstructionType::Unimpl
    )
}

/// Whether each of the four numbers is below 256.
pub open spec fn is_byte_word(word: Seq<nat>) -> bool {
    word.len() == 4 && word[0] < 0x100 && word[1] < 0x100 && word[2] < 0x100 && word[3] < 0x100
}

/// Records the register accesses of every row.
pub struct RegisterMemCheckChip;

impl RegisterMemCheckChip {
    /// The fields that the chip writes row by row.
    pub open spec fn owned() -> Set<Column> {
        AccessColumns::first_spec().all().union(AccessColumns::second_spec().all()).union(
            AccessColumns::third_spec().all(),
        )
    }

    /// Writes to `columns` an access that does not take place.
    fn skip_access(traces: &mut Traces, row_idx: usize, columns: &AccessColumns)
        requires
            old(traces).wf(),
            row_idx < old(traces).rows(),
            columns.wf(),
        ensures
            final(traces).wf(),
            final(traces).same_outside(old(traces), row_idx as int, columns.all()),
            access_skipped(final(traces), row_idx as int, *columns),
    {
        proof {
            crate::chips::utils::lemma_word_limbs_of_zero();
        }
        traces.fill_columns_bool(row_idx, columns.accessed, false);
        traces.fill_columns_value(row_idx, columns.address, BaseField::zero());
        traces.fill_columns_word(row_idx, columns.val_prev, 0);
        traces.fill_columns_word(row_idx, columns.ts_prev, 0);
        traces.fill_columns_word(row_idx, columns.ts_gap, 0);
        traces.fill_columns_word(row_idx, columns.ts_borrow, 0);
    }

    /// Records in `side_note` an access to `reg` at `timestamp` and writes to
    /// `columns` what the access found there.
    fn record_access(
        traces: &mut Traces,
        row_idx: usize,
        columns: &AccessColumns,
        reg: Register,
        write: Option<u32>,
        timestamp: u32,
        side_note: &mut RegisterMemCheckSideNote,
    )
        requires
            old(traces).wf(),
            row_idx < old(traces).rows(),
            columns.wf(),
            old(side_note).wf(),
            clock(old(side_note).history()) < timestamp,
        ensures
            final(traces).wf(),
            final(traces).same_outside(old(traces), row_idx as int, columns.all()),
            access_recorded(
                final(traces),
                row_idx as int,
                *columns,
                reg,
                old(side_note).value(reg),
                old(side_note).timestamp(reg),
                timestamp,
            ),
            final(side_note).wf(),
            clock(final(side_note).history()) == timestamp,
            final(side_note).history() == old(side_note).history().push(
                RegisterAccess {
                    reg,
                    value: match write {
                        Some(value) => value,
                        None => old(side_note).value(reg),
                    },
                    timestamp,
                },
            ),
    {
        let (prev_value, prev_ts) = side_note.access(reg, write, timestamp);
        let (gap, borrow) = subtract_with_borrow(u32_to_word(timestamp - 1), u32_to_word(prev_ts));
        proof {
            lemma_limbs_of_word(gap);
        }
        traces.fill_columns_bool(row_idx, columns.accessed, true);
        traces.fill_columns_value(
            row_idx,
            columns.address,
            BaseField::from_u32(reg.index() as u32),
        );
        traces.fill_columns_word(row_idx, columns.val_prev, prev_value);
        traces.fill_columns_word(row_idx, columns.ts_prev, prev_ts);
        traces.fill_columns_bytes(row_idx, columns.ts_gap, gap);
        traces.fill_columns_bools(row_idx, columns.ts_borrow, borrow);
    }

    /// What the row of `step` holds once the chip has filled it, after the
    /// accesses of `history`.
    #[verifier::opaque]
    pub open spec fn filled(
        traces: &Traces,
        row: int,
        step: Option<Step>,
        history: Seq<RegisterAccess>,
    ) -> bool {
        match step {
            Some(s) => {
                &&& slot_filled(
                    traces,
                    row,
                    AccessColumns::first_spec(),
                    reads_op_b(s),
                    s.instruction.op_b,
                    history,
                    timestamp_of(row as nat, 1),
                )
                &&& slot_filled(
                    traces,
                    row,
                    AccessColumns::second_spec(),
                    reads_op_c(s),
                    s.register_c_spec(),
                    after_first(history, s, row as nat),
                    timestamp_of(row as nat, 2),
                )
                &&& slot_filled(
                    traces,
                    row,
                    AccessColumns::third_spec(),
                    accesses_op_a(s),
                    s.instruction.op_a,
                    after_second(history, s, row as nat),
                    timestamp_of(row as nat, 3),
                )
            },
            None => {
                &&& access_skipped(traces, row, AccessColumns::first_spec())
                &&& access_skipped(traces, row, AccessColumns::second_spec())
                &&& access_skipped(traces, row, AccessColumns::third_spec())
            },
        }
    }

    /// What the chip filled holds of a row for as long as its fields stay as they are.
    pub proof fn lemma_filled_kept(
        before: &Traces,
        after: &Traces,
        row: int,
        step: Option<Step>,
        history: Seq<RegisterAccess>,
    )
        requires
            Self::filled(before, row, step, history),
            crate::trace::agree_on(before, after, row, Self::owned()),
        ensures
            Self::filled(after, row, step, history),
    {
        reveal(RegisterMemCheckChip::filled);
        let first = AccessColumns::first_spec();
        let second = AccessColumns::second_spec();
        let third = AccessColumns::third_spec();
        assert(Self::owned().contains(first.accessed) && Self::owned().contains(first.address)
            && Self::owned().contains(first.val_prev) && Self::owned().contains(first.ts_prev)
            && Self::owned().contains(first.ts_gap) && Self::owned().contains(first.ts_borrow));
        assert(Self::owned().contains(second.accessed) && Self::owned().contains(second.address)
            && Self::owned().contains(second.val_prev) && Self::owned().contains(second.ts_prev)
            && Self::owned().contains(second.ts_gap) && Self::owned().contains(second.ts_borrow));
        assert(Self::owned().contains(third.accessed) && Self::owned().contains(third.address)
            && Self::owned().contains(third.val_prev) && Self::owned().contains(third.ts_prev)
            && Self::owned().contains(third.ts_gap) && Self::owned().contains(third.ts_borrow));
    }

    /// What a filled row holds, access by access.
    pub proof fn lemma_filled_slots(
        traces: &Traces,
        row: int,
        step: Option<Step>,
        history: Seq<RegisterAccess>,
    )
        requires
            Self::filled(traces, row, step, history),
        ensures
            match step {
                Some(s) => {
                    &&& slot_filled(
                        traces,
                        row,
                        AccessColumns::first_spec(),
                        reads_op_b(s),
                        s.instruction.op_b,
                        history,
                        timestamp_of(row as nat, 1),
                    )
                    &&& slot_filled(
                        traces,
                        row,
                        AccessColumns::second_spec(),
                        reads_op_c(s),
                        s.register_c_spec(),
                        after_first(history, s, row as nat),
                        timestamp_of(row as nat, 2),
                    )
                    &&& slot_filled(
                        traces,
                        row,
                        AccessColumns::third_spec(),
                        accesses_op_a(s),
                        s.instruction.op_a,
                        after_second(history, s, row as nat),
                        timestamp_of(row as nat, 3),
                    )
                },
                None => {
                    &&& access_skipped(traces, row, AccessColumns::first_spec())
                    &&& access_skipped(traces, row, AccessColumns::second_spec())
                    &&& access_skipped(traces, row, AccessColumns::third_spec())
                },
            },
    {
        reveal(RegisterMemCheckChip::filled);
    }

    /// The accesses after the row `row` of `step` in a trace that held
    /// `traces` before the chip filled the row.
    pub open spec fn history_after(
        traces: &Traces,
        row: int,
        step: Option<Step>,
        history: Seq<RegisterAccess>,
    ) -> Seq<RegisterAccess> {
        match step {
            Some(s) => after_third(
                history,
                s,
                row as nat,
                crate::trace::word_value(traces.field(row, Column::ValueAEffective)) as u32,
            ),
            None => history,
        }
    }

    /// Records the register accesses of one row: a read of `op_b`, a read of
    /// the register that `op_c` names, and a write to `op_a`, or a read where
    /// the instruction is a store or a branch. The value written is the
    /// row's `ValueAEffective`, which must have been filled before.
    pub fn fill_main_trace(
        traces: &mut Traces,
        row_idx: usize,
        vm_step: &Option<Step>,
        side_note: &mut RegisterMemCheckSideNote,
    )
        requires
            old(traces).wf(),
            row_idx < old(traces).rows(),
            row_idx < 0x4000_0000,
            old(side_note).wf(),
            clock(old(side_note).history()) < timestamp_of(row_idx as nat, 1),
            *vm_step matches Some(s) ==> s.wf() && is_byte_word(
                old(traces).field(row_idx as int, Column::ValueAEffective),
            ),
        ensures
            final(traces).wf(),
            final(traces).same_outside(old(traces), row_idx as int, Self::owned()),
            Self::filled(final(traces), row_idx as int, *vm_step, old(side_note).history()),
            final(side_note).wf(),
            final(side_note).history() == Self::history_after(
                old(traces),
                row_idx as int,
                *vm_step,
                old(side_note).history(),
            ),
            clock(final(side_note).history()) < timestamp_of((row_idx + 1) as nat, 1),
    {
        proof {
            reveal(RegisterMemCheckChip::filled);
        }
        let first = AccessColumns::first();
        let second = AccessColumns::second();
        let third = AccessColumns::third();
        let step = match vm_step {
            Some(step) => step,
            None => {
                Self::skip_access(traces, row_idx, &first);
                Self::skip_access(traces, row_idx, &second);
                Self::skip_access(traces, row_idx, &third);
                return ;
            },
        };
        let written = Self::written_value(traces, row_idx);
        let (uses_b, uses_c, uses_a, writes_a) = match step.instruction.ins_type {
            InstructionType::RType => (true, true, true, true),
            InstructionType::IType | InstructionType::IShamtType => (true, false, true, true),
            InstructionType::SType | InstructionType::BType => (true, false, true, false),
            InstructionType::UType | InstructionType::JType => (false, false, true, true),
            InstructionType::Unimpl => (false, false, false, false),
        };
        let ghost h0 = side_note.history();
        if uses_b {
            Self::record_access(
                traces,
                row_idx,
                &first,
                step.instruction.op_b,
                None,
                TimestampChip::register_timestamp(row_idx, 1),
                side_note,
            );
        } else {
            Self::skip_access(traces, row_idx, &first);
        }
        let ghost h1 = side_note.history();
        assert(h1 == after_first(h0, *step, row_idx as nat));
        if uses_c {
            Self::record_access(
                traces,
                row_idx,
                &second,
                step.register_c(),
                None,
                TimestampChip::register_timestamp(row_idx, 2),
                side_note,
            );
        } else {
            Self::skip_access(traces, row_idx, &second);
        }
        let ghost h2 = side_note.history();
        assert(h2 == after_second(h0, *step, row_idx as nat));
        if uses_a {
            Self::record_access(
                traces,
                row_idx,
                &third,
                step.instruction.op_a,
                if writes_a {
                    Some(written)
                } else {
                    None
                },
                TimestampChip::register_timestamp(row_idx, 3),
                side_note,
            );
        } else {
            Self::skip_access(traces, row_idx, &third);
        }
    }

    /// The fields that the chip writes once all rows are filled.
    pub open spec fn owned_final() -> Set<Column> {
        set![Column::FinalRegValue, Column::FinalRegTs]
    }

    /// What the trace holds about the registers once the chip has closed it:
    /// the row with the number of a register holds the value and the
    /// timestamp of the latest access to that register, zeros if there was none.
    pub open spec fn finalized(traces: &Traces, history: Seq<RegisterAccess>) -> bool {
        forall|reg: Register|
            {
                &&& #[trigger] traces.field(reg.index_spec() as int, Column::FinalRegValue)
                    == word_limbs(value_in(history, reg))
                &&& traces.field(reg.index_spec() as int, Column::FinalRegTs) == word_limbs(
                    timestamp_in(history, reg),
                )
            }
    }

    /// Writes the final value and timestamp of each of the 32 registers to
    /// the row with the register's number. The trace must have 32 rows.
    pub fn fill_final(traces: &mut Traces, side_note: &RegisterMemCheckSideNote)
        requires
            old(traces).wf(),
            old(traces).rows() >= 32,
            side_note.wf(),
        ensures
            final(traces).wf(),
            final(traces).same_outside_fields(old(traces), Self::owned_final()),
            Self::finalized(final(traces), side_note.history()),
    {
        let ghost history = side_note.history();
        let mut index: u8 = 0;
        while index < 32
            invariant
                index <= 32,
                traces.wf(),
                traces.rows() >= 32,
                side_note.wf(),
                history == side_note.history(),
                traces.same_outside_fields(old(traces), Self::owned_final()),
                forall|reg: Register|
                    reg.index_spec() < index ==> {
                        &&& #[trigger] traces.field(reg.index_spec() as int, Column::FinalRegValue)
                            == word_limbs(value_in(history, reg))
                        &&& traces.field(reg.index_spec() as int, Column::FinalRegTs)
                            == word_limbs(timestamp_in(history, reg))
                    },
            decreases 32 - index,
        {
            let reg = Register::from_index(index);
            let row = index as usize;
            let ghost before = *traces;
            traces.fill_columns_word(row, Column::FinalRegValue, side_note.last_value(reg));
            traces.fill_columns_word(row, Column::FinalRegTs, side_note.last_timestamp(reg));
            proof {
                assert forall|other: Register| other.index_spec() < index + 1 implies {
                    &&& #[trigger] traces.field(other.index_spec() as int, Column::FinalRegValue)
                        == word_limbs(value_in(history, other))
                    &&& traces.field(other.index_spec() as int, Column::FinalRegTs) == word_limbs(
                        timestamp_in(history, other),
                    )
                } by {
                    if other.index_spec() < index {
                        assert(before.field(other.index_spec() as int, Column::FinalRegValue)
                            == word_limbs(value_in(history, other)));
                    } else {
                        assert(other == reg);
                    }
                }
            }
            index = index + 1;
        }
        proof {
            assert forall|reg: Register|
                {
                    &&& #[trigger] traces.field(reg.index_spec() as int, Column::FinalRegValue)
                        == word_limbs(value_in(history, reg))
                    &&& traces.field(reg.index_spec() as int, Column::FinalRegTs) == word_limbs(
                        timestamp_in(history, reg),
                    )
                } by {
                assert(reg.index_spec() < 32);
            }
        }
    }

    /// The number that the bytes of the row's `ValueAEffective` stand for.
    fn written_value(traces: &Traces, row_idx: usize) -> (value: u32)
        requires
            traces.wf(),
            row_idx < traces.rows(),
            is_byte_word(traces.field(row_idx as int, Column::ValueAEffective)),
        ensures
            value == crate::trace::word_value(traces.field(row_idx as int, Column::ValueAEffective)),
    {
        let bytes = traces.column(row_idx, Column::ValueAEffective);
        assert(crate::trace::numbers(bytes@)[0] == bytes@[0]@);
        assert(crate::trace::numbers(bytes@)[1] == bytes@[1]@);
        assert(crate::trace::numbers(bytes@)[2] == bytes@[2]@);
        assert(crate::trace::numbers(bytes@)[3] == bytes@[3]@);
        bytes[0].value() + 0x100 * bytes[1].value() + 0x1_0000 * bytes[2].value() + 0x100_0000
            * bytes[3].value()
    }
}

} // verus!
