//! The machine: runs the chips over the steps of an execution, one row per
//! step, pads the rest of the trace, and closes the arguments that span rows.

use vstd::prelude::*;
use vstd::arithmetic::power2::{lemma2_to64, lemma_pow2_strictly_increases, pow2};
use crate::chips::decoding::{decodes, identities, is_decodable, DecodingCheckChip};
use crate::chips::instructions::InstructionChips;
use crate::chips::load_store::{
    access_size,
    accessible,
    address_of,
    byte_after,
    byte_filled,
    byte_recorded,
    is_accessible,
    ram_after,
    touched_after,
    ByteColumns,
    LoadStoreChip,
};
use crate::chips::prog_mem_check::{
    executions,
    lemma_executions_bound,
    lemma_program,
    program_of,
    ProgramMemCheckChip,
};
use crate::chips::ram::{byte_in, not_after, ram_timestamp_in, RamAccess, RamSideNote};
use crate::chips::cpu::{
    is_control_flow,
    is_flag,
    is_supported,
    selected_flag,
    supports,
    zero_word,
    CpuChip,
};
use crate::chips::range_check::{
    bytes_in_range,
    checked_words,
    in_table,
    lemma_occurrences_add_up,
    lemma_row_lookups_kept,
    lookup_reads,
    lookups_in_range,
    multiplicity_columns,
    occurrences,
    occurrences_below,
    row_lookups,
    LookupTable,
    RangeCheckChip,
    RangeCheckSideNote,
};
use crate::chips::register_mem_check::{
    accesses_op_a,
    after_first,
    after_second,
    clock,
    is_byte_word,
    last_access,
    lemma_clock_bounds,
    reads_op_b,
    reads_op_c,
    lemma_slot_ordered,
    slot_filled,
    strictly_increasing,
    timestamp_ordered,
    timestamp_in,
    value_in,
    AccessColumns,
    RegisterAccess,
    RegisterMemCheckChip,
    RegisterMemCheckSideNote,
};
use crate::chips::timestamp::timestamp_of;
use crate::chips::utils::{
    is_sum_with_carries,
    lemma_word_limbs_are_bytes,
    lemma_word_value_of_limbs,
};
use crate::field::P;
use crate::column::Column;
use crate::riscv::{Register};
use crate::step::Step;
use crate::trace::{
    agree_on,
    bit,
    lemma_agree_after_field_change,
    lemma_agree_after_row_change,
    lemma_same_outside_chain,
    word_limbs,
    word_value,
    Traces,
};

verus! {

/// What the chips carry from row to row.
pub struct SideNote {
    /// The latest access to each register.
    pub register_mem_check: RegisterMemCheckSideNote,
    /// The multiplicities of the range checks.
    pub range_check: RangeCheckSideNote,
    /// The latest access to each byte of memory.
    pub ram: RamSideNote,
}

impl SideNote {
    pub open spec fn wf(&self) -> bool {
        self.register_mem_check.wf() && self.range_check.wf() && self.ram.wf()
    }

    /// The state before the first row.
    pub fn new() -> (note: Self)
        ensures
            note.wf(),
            note.register_mem_check.history() == Seq::<RegisterAccess>::empty(),
            note.ram.history() == Seq::<RamAccess>::empty(),
            note.ram.touched() == Seq::<u32>::empty(),
            forall|table: LookupTable|
                #[trigger] note.range_check.looked_up(table) == Seq::<nat>::empty(),
    {
        SideNote {
            register_mem_check: RegisterMemCheckSideNote::new(),
            range_check: RangeCheckSideNote::new(),
            ram: RamSideNote::new(),
        }
    }
}

/// A trace of `2^log_size` rows has more rows the larger `log_size` is.
proof fn lemma_rows_bound(log_size: nat)
    ensures
        log_size >= 8 ==> pow2(log_size) >= 256,
        log_size <= 30 ==> pow2(log_size) <= 0x4000_0000,
{
    lemma2_to64();
    if log_size > 8 {
        lemma_pow2_strictly_increases(8, log_size);
    }
    if log_size < 30 {
        lemma_pow2_strictly_increases(log_size, 30);
    }
}

/// Padding rows access no memory.
proof fn lemma_padding_is_idle(steps: Seq<Step>, rows: nat)
    requires
        steps.len() <= rows,
    ensures
        ram_upto(steps, rows) == ram_upto(steps, steps.len()),
        touched_upto(steps, rows) == touched_upto(steps, steps.len()),
    decreases rows,
{
    if rows > steps.len() {
        lemma_padding_is_idle(steps, (rows - 1) as nat);
    }
}

/// The step that row `row` arithmetizes; the rows after the last step are padding.
pub open spec fn step_at(steps: Seq<Step>, row: int) -> Option<Step> {
    if 0 <= row < steps.len() {
        Some(steps[row])
    } else {
        None
    }
}

/// The register accesses of the first `rows` rows of `traces`, which
/// arithmetizes `steps`.
pub open spec fn history_upto(traces: &Traces, steps: Seq<Step>, rows: nat) -> Seq<RegisterAccess>
    decreases rows,
{
    if rows == 0 {
        Seq::empty()
    } else {
        RegisterMemCheckChip::history_after(
            traces,
            rows - 1,
            step_at(steps, rows - 1),
            history_upto(traces, steps, (rows - 1) as nat),
        )
    }
}

/// The memory accesses of the first `rows` rows of a trace that arithmetizes `steps`.
pub open spec fn ram_upto(steps: Seq<Step>, rows: nat) -> Seq<RamAccess>
    decreases rows,
{
    if rows == 0 {
        Seq::empty()
    } else {
        ram_after(ram_upto(steps, (rows - 1) as nat), step_at(steps, rows - 1), (rows - 1) as nat)
    }
}

/// The bytes of memory that the first `rows` rows of a trace that
/// arithmetizes `steps` access, in the order of their first access.
pub open spec fn touched_upto(steps: Seq<Step>, rows: nat) -> Seq<u32>
    decreases rows,
{
    if rows == 0 {
        Seq::empty()
    } else {
        touched_after(
            touched_upto(steps, (rows - 1) as nat),
            ram_upto(steps, (rows - 1) as nat),
            step_at(steps, rows - 1),
        )
    }
}

/// The values that the first `rows` rows of `traces` look up in `table`.
pub open spec fn lookups_upto(traces: &Traces, rows: nat, table: LookupTable) -> Seq<nat>
    decreases rows,
{
    if rows == 0 {
        Seq::empty()
    } else {
        lookups_upto(traces, (rows - 1) as nat, table) + row_lookups(traces, rows - 1, table)
    }
}

/// The program counters of `steps`, in their order.
pub open spec fn pcs_of(steps: Seq<Step>) -> Seq<u32> {
    Seq::new(steps.len(), |i: int| steps[i].pc)
}

/// The set of chips that fills a trace.
pub struct Machine;

impl Machine {
    /// Whether the machine can arithmetize `step`: the step is well formed,
    /// one of the instruction chips computes its instruction, the memory
    /// that it accesses can be addressed, and its instruction word is the
    /// encoding of its instruction.
    pub open spec fn accepts(step: Step) -> bool {
        &&& step.wf()
        &&& supports(step)
        &&& InstructionChips::computes(step)
        &&& accessible(step)
        &&& decodes(step)
    }

    /// Whether the machine can arithmetize `step`.
    pub fn is_accepted(step: &Step) -> (accepted: bool)
        ensures
            accepted == Self::accepts(*step),
    {
        step.is_wf() && InstructionChips::is_computed(step) && is_supported(step) && is_accessible(
            step,
        ) && is_decodable(step)
    }

    /// Number of bytes of memory that `steps` access: the trace has a row
    /// for the final state of each.
    pub fn ram_footprint(steps: &Vec<Step>) -> (count: usize)
        requires
            steps@.len() <= 0x4000_0000,
            forall|i: int| 0 <= i < steps@.len() ==> Self::accepts(#[trigger] steps@[i]),
        ensures
            count == touched_upto(steps@, steps@.len()).len(),
    {
        let mut side_note = RamSideNote::new();
        let mut row: usize = 0;
        while row < steps.len()
            invariant
                row <= steps@.len() <= 0x4000_0000,
                forall|i: int| 0 <= i < steps@.len() ==> Self::accepts(#[trigger] steps@[i]),
                side_note.wf(),
                side_note.history() == ram_upto(steps@, row as nat),
                side_note.touched() == touched_upto(steps@, row as nat),
            decreases steps@.len() - row,
        {
            assert(step_at(steps@, row as int) == Some(steps@[row as int]));
            LoadStoreChip::record_accesses(&steps[row], row, &mut side_note);
            row = row + 1;
        }
        side_note.num_touched()
    }

    /// What the row of `step` holds once every chip has filled it, after the
    /// register accesses of `history`.
    #[verifier::opaque]
    pub open spec fn row_filled(
        traces: &Traces,
        row: int,
        step: Option<Step>,
        history: Seq<RegisterAccess>,
        ram: Seq<RamAccess>,
    ) -> bool {
        &&& CpuChip::filled(traces, row, step)
        &&& InstructionChips::witnessed(traces, row, step, ram)
        &&& InstructionChips::constraints(traces, row)
        &&& RegisterMemCheckChip::filled(traces, row, step, history)
        &&& lookups_in_range(traces, row)
        &&& DecodingCheckChip::filled(traces, row, step)
        &&& DecodingCheckChip::constraints(traces, row)
    }

    /// The fields that the statements about a row speak of before its
    /// operands are cut into slices.
    pub open spec fn reads_unsliced() -> Set<Column> {
        CpuChip::reads().union(InstructionChips::reads()).union(InstructionChips::owned()).union(
            RegisterMemCheckChip::owned(),
        )
    }

    /// The fields that the statements about a filled row speak of.
    pub open spec fn reads() -> Set<Column> {
        Self::reads_unsliced().union(DecodingCheckChip::reads()).union(lookup_reads())
    }

    /// What the chips before the decoding chip filled holds of a row for as
    /// long as its fields stay as they are.
    proof fn lemma_unsliced_kept(
        before: &Traces,
        after: &Traces,
        row: int,
        step: Option<Step>,
        history: Seq<RegisterAccess>,
        ram: Seq<RamAccess>,
    )
        requires
            CpuChip::filled(before, row, step),
            InstructionChips::witnessed(before, row, step, ram),
            InstructionChips::constraints(before, row),
            RegisterMemCheckChip::filled(before, row, step, history),
            agree_on(before, after, row, Self::reads_unsliced()),
        ensures
            CpuChip::filled(after, row, step),
            InstructionChips::witnessed(after, row, step, ram),
            InstructionChips::constraints(after, row),
            RegisterMemCheckChip::filled(after, row, step, history),
            after.field(row, Column::ValueA) == before.field(row, Column::ValueA),
            after.field(row, Column::ValueAEffective) == before.field(row, Column::ValueAEffective),
    {
        assert(agree_on(before, after, row, CpuChip::reads()));
        assert(agree_on(before, after, row, InstructionChips::reads()));
        assert(agree_on(before, after, row, InstructionChips::owned()));
        assert(agree_on(before, after, row, RegisterMemCheckChip::owned()));
        assert(agree_on(before, after, row, InstructionChips::owned_by(step))) by {
            assert(InstructionChips::owned_by(step).subset_of(InstructionChips::owned()));
        }
        CpuChip::lemma_filled_kept(before, after, row, step);
        InstructionChips::lemma_witnessed_kept(before, after, row, step, ram);
        InstructionChips::lemma_constraints_kept(before, after, row);
        RegisterMemCheckChip::lemma_filled_kept(before, after, row, step, history);
        assert(CpuChip::reads().contains(Column::ValueA));
        assert(CpuChip::reads().contains(Column::ValueAEffective));
    }

    /// What the chips filled holds of a row for as long as its fields stay as they are.
    pub proof fn lemma_row_filled_kept(
        before: &Traces,
        after: &Traces,
        row: int,
        step: Option<Step>,
        history: Seq<RegisterAccess>,
        ram: Seq<RamAccess>,
    )
        requires
            Self::row_filled(before, row, step, history, ram),
            agree_on(before, after, row, Self::reads()),
        ensures
            Self::row_filled(after, row, step, history, ram),
            forall|table: LookupTable|
                #[trigger] row_lookups(after, row, table) == row_lookups(before, row, table),
            after.field(row, Column::ValueAEffective) == before.field(row, Column::ValueAEffective),
    {
        reveal(Machine::row_filled);
        assert(agree_on(before, after, row, Self::reads_unsliced()));
        assert(agree_on(before, after, row, DecodingCheckChip::reads()));
        assert(agree_on(before, after, row, DecodingCheckChip::owned())) by {
            assert(DecodingCheckChip::owned().subset_of(DecodingCheckChip::reads()));
        }
        Self::lemma_unsliced_kept(before, after, row, step, history, ram);
        DecodingCheckChip::lemma_filled_kept(before, after, row, step);
        DecodingCheckChip::lemma_constraints_kept(before, after, row);
        assert(agree_on(before, after, row, lookup_reads()));
        lemma_row_lookups_kept(before, after, row);
    }

    /// Fills one row: the chip of the step's instruction computes the value
    /// of the first operand, the CPU chip fills what every row holds, the
    /// register chip records the accesses to the register file, the decoding
    /// chip cuts the operands into slices, and the range check looks up the
    /// bytes of the row. A row without a step is padding.
    /// The row must not have been filled before.
    pub fn fill_row(
        traces: &mut Traces,
        row_idx: usize,
        vm_step: &Option<Step>,
        side_note: &mut SideNote,
    )
        requires
            old(traces).wf(),
            row_idx < old(traces).rows(),
            row_idx < 0x4000_0000,
            old(traces).blank(row_idx as int),
            *vm_step matches Some(s) ==> Self::accepts(s),
            old(side_note).wf(),
            clock(old(side_note).register_mem_check.history()) < timestamp_of(row_idx as nat, 1),
            not_after(old(side_note).ram.history(), row_idx as nat),
            forall|table: LookupTable|
                (#[trigger] old(side_note).range_check.looked_up(table)).len() + 64 <= u64::MAX,
        ensures
            final(traces).wf(),
            final(traces).same_outside(old(traces), row_idx as int, Set::full()),
            Self::row_filled(
                final(traces),
                row_idx as int,
                *vm_step,
                old(side_note).register_mem_check.history(),
                old(side_note).ram.history(),
            ),
            final(side_note).ram.history() == ram_after(
                old(side_note).ram.history(),
                *vm_step,
                row_idx as nat,
            ),
            final(side_note).ram.touched() == touched_after(
                old(side_note).ram.touched(),
                old(side_note).ram.history(),
                *vm_step,
            ),
            not_after(final(side_note).ram.history(), (row_idx + 1) as nat),
            final(side_note).wf(),
            final(side_note).register_mem_check.history() == RegisterMemCheckChip::history_after(
                final(traces),
                row_idx as int,
                *vm_step,
                old(side_note).register_mem_check.history(),
            ),
            clock(final(side_note).register_mem_check.history()) < timestamp_of(
                (row_idx + 1) as nat,
                1,
            ),
            forall|table: LookupTable|
                #[trigger] final(side_note).range_check.looked_up(table) == old(
                    side_note,
                ).range_check.looked_up(table) + row_lookups(final(traces), row_idx as int, table),
            forall|table: LookupTable|
                (#[trigger] row_lookups(final(traces), row_idx as int, table)).len() <= 64,
    {
        let ghost row = row_idx as int;
        let ghost history = side_note.register_mem_check.history();
        let ghost ram = side_note.ram.history();
        InstructionChips::fill_main_trace(traces, row_idx, vm_step, &mut side_note.ram);
        let ghost computed = *traces;
        proof {
            Self::lemma_value_a(old(traces), &computed, row, *vm_step, ram);
        }
        CpuChip::fill_main_trace(traces, row_idx, vm_step);
        let ghost decoded = *traces;
        proof {
            Self::lemma_decoded(&computed, &decoded, row, *vm_step, ram);
        }
        RegisterMemCheckChip::fill_main_trace(
            traces,
            row_idx,
            vm_step,
            &mut side_note.register_mem_check,
        );
        let ghost recorded = *traces;
        proof {
            Self::lemma_row_filled(&decoded, &recorded, row, *vm_step, history, ram);
        }
        DecodingCheckChip::fill_main_trace(traces, row_idx, vm_step);
        proof {
            Self::lemma_sliced(&recorded, traces, row, *vm_step, history, ram);
            Self::lemma_only_row_changed(
                old(traces),
                &computed,
                &decoded,
                &recorded,
                traces,
                row,
                *vm_step,
            );
            reveal(Machine::row_filled);
        }
        RangeCheckChip::fill_main_trace(traces, row_idx, &mut side_note.range_check);
    }

    /// Changes of one row, one after the other, change that row only.
    proof fn lemma_only_row_changed(
        before: &Traces,
        computed: &Traces,
        decoded: &Traces,
        recorded: &Traces,
        sliced: &Traces,
        row: int,
        step: Option<Step>,
    )
        requires
            computed.same_outside(before, row, InstructionChips::owned_by(step)),
            decoded.same_outside(computed, row, CpuChip::written(step)),
            recorded.same_outside(decoded, row, RegisterMemCheckChip::owned()),
            sliced.same_outside(recorded, row, DecodingCheckChip::owned()),
        ensures
            sliced.same_outside(before, row, Set::full()),
    {
        lemma_same_outside_chain(
            before,
            computed,
            decoded,
            row,
            InstructionChips::owned_by(step),
            CpuChip::written(step),
        );
        lemma_same_outside_chain(
            before,
            decoded,
            recorded,
            row,
            InstructionChips::owned_by(step).union(CpuChip::written(step)),
            RegisterMemCheckChip::owned(),
        );
        lemma_same_outside_chain(
            before,
            recorded,
            sliced,
            row,
            InstructionChips::owned_by(step).union(CpuChip::written(step)).union(
                RegisterMemCheckChip::owned(),
            ),
            DecodingCheckChip::owned(),
        );
    }

    /// After the chip of the row's instruction, `ValueA` holds the value that
    /// the instruction computes, and zeros in a padding row; and the row of
    /// a branch or a jump holds the next address.
    proof fn lemma_value_a(
        before: &Traces,
        computed: &Traces,
        row: int,
        step: Option<Step>,
        ram: Seq<RamAccess>,
    )
        requires
            before.wf(),
            0 <= row < before.rows(),
            before.blank(row),
            step matches Some(s) ==> Self::accepts(s),
            step is None ==> computed@ == before@,
            InstructionChips::witnessed(computed, row, step, ram),
        ensures
            is_byte_word(computed.field(row, Column::ValueA)),
            step matches Some(s) ==> (is_control_flow(s.instruction.opcode.builtin->0)
                ==> computed.field(row, Column::PcNext) == word_limbs(s.next_pc_spec())),
    {
        match step {
            Some(s) => {
                InstructionChips::lemma_result(computed, row, s, ram);
            },
            None => {
                reveal(Traces::field);
                assert(before.field(row, Column::ValueA)[0] == 0);
                assert(before.field(row, Column::ValueA)[1] == 0);
                assert(before.field(row, Column::ValueA)[2] == 0);
                assert(before.field(row, Column::ValueA)[3] == 0);
            },
        }
    }

    /// Once the CPU chip has filled a row, what the chip of the row's
    /// instruction filled still holds, the identities of the instruction
    /// chips hold, and the value that the row writes back consists of bytes.
    proof fn lemma_decoded(
        computed: &Traces,
        decoded: &Traces,
        row: int,
        step: Option<Step>,
        ram: Seq<RamAccess>,
    )
        requires
            computed.wf(),
            0 <= row < computed.rows(),
            row < 0x4000_0000,
            step matches Some(s) ==> Self::accepts(s),
            InstructionChips::witnessed(computed, row, step, ram),
            is_byte_word(computed.field(row, Column::ValueA)),
            decoded.same_outside(computed, row, CpuChip::written(step)),
            CpuChip::filled(decoded, row, step),
        ensures
            InstructionChips::witnessed(decoded, row, step, ram),
            InstructionChips::constraints(decoded, row),
            is_byte_word(decoded.field(row, Column::ValueA)),
            is_byte_word(decoded.field(row, Column::ValueAEffective)),
    {
        InstructionChips::lemma_cpu_leaves_fields(step);
        lemma_agree_after_row_change(
            computed,
            decoded,
            row,
            CpuChip::written(step),
            row,
            InstructionChips::owned_by(step),
        );
        InstructionChips::lemma_witnessed_kept(computed, decoded, row, step, ram);
        InstructionChips::lemma_constraints(decoded, row, step, ram);
        assert(decoded.field(row, Column::ValueA) == computed.field(row, Column::ValueA));
        reveal(CpuChip::filled);
    }

    /// Once the register chip has recorded the accesses of a row, all that
    /// the chips before it filled still holds.
    proof fn lemma_row_filled(
        decoded: &Traces,
        recorded: &Traces,
        row: int,
        step: Option<Step>,
        history: Seq<RegisterAccess>,
        ram: Seq<RamAccess>,
    )
        requires
            decoded.wf(),
            0 <= row < decoded.rows(),
            CpuChip::filled(decoded, row, step),
            InstructionChips::witnessed(decoded, row, step, ram),
            InstructionChips::constraints(decoded, row),
            is_byte_word(decoded.field(row, Column::ValueA)),
            recorded.same_outside(decoded, row, RegisterMemCheckChip::owned()),
            RegisterMemCheckChip::filled(recorded, row, step, history),
        ensures
            CpuChip::filled(recorded, row, step),
            InstructionChips::witnessed(recorded, row, step, ram),
            InstructionChips::constraints(recorded, row),
            RegisterMemCheckChip::filled(recorded, row, step, history),
            is_byte_word(recorded.field(row, Column::ValueA)),
            recorded.field(row, Column::ValueAEffective) == decoded.field(
                row,
                Column::ValueAEffective,
            ),
    {
        lemma_agree_after_row_change(
            decoded,
            recorded,
            row,
            RegisterMemCheckChip::owned(),
            row,
            CpuChip::reads().union(InstructionChips::reads()).union(InstructionChips::owned()),
        );
        assert(agree_on(decoded, recorded, row, CpuChip::reads()));
        assert(agree_on(decoded, recorded, row, InstructionChips::reads()));
        assert(agree_on(decoded, recorded, row, InstructionChips::owned_by(step))) by {
            assert(InstructionChips::owned_by(step).subset_of(InstructionChips::owned()));
        }
        CpuChip::lemma_filled_kept(decoded, recorded, row, step);
        InstructionChips::lemma_witnessed_kept(decoded, recorded, row, step, ram);
        InstructionChips::lemma_constraints_kept(decoded, recorded, row);
        assert(CpuChip::reads().contains(Column::ValueA));
        assert(CpuChip::reads().contains(Column::ValueAEffective));
        assert(recorded.field(row, Column::ValueA) == decoded.field(row, Column::ValueA));
    }

    /// Once the decoding chip has cut the operands of a row into slices, all
    /// that the chips before it filled still holds, and so do the
    /// identities of the decoding chip.
    proof fn lemma_sliced(
        recorded: &Traces,
        sliced: &Traces,
        row: int,
        step: Option<Step>,
        history: Seq<RegisterAccess>,
        ram: Seq<RamAccess>,
    )
        requires
            recorded.wf(),
            0 <= row < recorded.rows(),
            step matches Some(s) ==> Self::accepts(s),
            CpuChip::filled(recorded, row, step),
            InstructionChips::witnessed(recorded, row, step, ram),
            InstructionChips::constraints(recorded, row),
            RegisterMemCheckChip::filled(recorded, row, step, history),
            is_byte_word(recorded.field(row, Column::ValueA)),
            sliced.same_outside(recorded, row, DecodingCheckChip::owned()),
            DecodingCheckChip::filled(sliced, row, step),
        ensures
            Self::row_filled(sliced, row, step, history, ram),
            sliced.field(row, Column::ValueAEffective) == recorded.field(
                row,
                Column::ValueAEffective,
            ),
    {
        reveal(Machine::row_filled);
        lemma_agree_after_row_change(
            recorded,
            sliced,
            row,
            DecodingCheckChip::owned(),
            row,
            Self::reads_unsliced(),
        );
        Self::lemma_unsliced_kept(recorded, sliced, row, step, history, ram);
        DecodingCheckChip::lemma_constraints(sliced, row, step);
        Self::lemma_bytes_in_range(sliced, row, step, history);
        Self::lemma_lookups_in_range(sliced, row, step);
    }

    /// What a row records about a register access consists of bytes.
    proof fn lemma_slot_bytes(
        traces: &Traces,
        row: int,
        columns: AccessColumns,
        takes_place: bool,
        reg: Register,
        history: Seq<RegisterAccess>,
        timestamp: nat,
    )
        requires
            slot_filled(traces, row, columns, takes_place, reg, history, timestamp),
        ensures
            is_byte_word(traces.field(row, columns.val_prev)),
            is_byte_word(traces.field(row, columns.ts_prev)),
            is_byte_word(traces.field(row, columns.ts_gap)),
    {
        if takes_place {
            lemma_word_limbs_are_bytes(value_in(history, reg));
            lemma_word_limbs_are_bytes(timestamp_in(history, reg));
            lemma_word_limbs_are_bytes((timestamp as u32 - 1 - timestamp_in(history, reg)) as u32);
        }
    }

    /// Every value that a filled row looks up is one of its table.
    proof fn lemma_lookups_in_range(traces: &Traces, row: int, step: Option<Step>)
        requires
            CpuChip::filled(traces, row, step),
            InstructionChips::constraints(traces, row),
            DecodingCheckChip::filled(traces, row, step),
            bytes_in_range(traces, row),
        ensures
            lookups_in_range(traces, row),
    {
        reveal(lookups_in_range);
        reveal(in_table);
        InstructionChips::lemma_looked_up_in_range(traces, row);
        DecodingCheckChip::lemma_slices_in_range(traces, row, step);
        assert(traces.field(row, Column::OpA)[0] < 32 && traces.field(row, Column::OpB)[0] < 32) by {
            reveal(CpuChip::filled);
        }
        assert forall|table: LookupTable|
            in_table(#[trigger] row_lookups(traces, row, table), table.size_spec()) by {
            match table {
                LookupTable::Range256 => {
                    Self::lemma_byte_lookups_in_table(traces, row, checked_words().len());
                },
                _ => {},
            }
        }
    }

    /// The values of the first fields that are looked up in the table of
    /// bytes are bytes.
    proof fn lemma_byte_lookups_in_table(traces: &Traces, row: int, count: nat)
        requires
            bytes_in_range(traces, row),
            count <= checked_words().len(),
        ensures
            in_table(crate::chips::range_check::values_of(traces, row, checked_words(), count), 256),
            crate::chips::range_check::values_of(traces, row, checked_words(), count).len() == 4
                * count,
        decreases count,
    {
        reveal(in_table);
        reveal(bytes_in_range);
        if count > 0 {
            Self::lemma_byte_lookups_in_table(traces, row, (count - 1) as nat);
            assert(is_byte_word(traces.field(row, checked_words()[count - 1])));
        }
    }

    /// What the CPU chip fills of the fields that are looked up in the table
    /// of bytes consists of bytes.
    proof fn lemma_cpu_bytes(traces: &Traces, row: int, step: Option<Step>)
        requires
            CpuChip::filled(traces, row, step),
            is_byte_word(traces.field(row, Column::ValueA)),
        ensures
            is_byte_word(traces.field(row, Column::Pc)),
            is_byte_word(traces.field(row, Column::PcNext)),
            is_byte_word(traces.field(row, Column::InstrVal)),
            is_byte_word(traces.field(row, Column::ValueB)),
            is_byte_word(traces.field(row, Column::ValueC)),
            is_byte_word(traces.field(row, Column::ValueAEffective)),
    {
        reveal(CpuChip::filled);
        match step {
            Some(s) => {
                lemma_word_limbs_are_bytes(s.pc);
                lemma_word_limbs_are_bytes(s.next_pc_spec());
                lemma_word_limbs_are_bytes(s.raw_instruction);
                lemma_word_limbs_are_bytes(s.value_b_spec());
                lemma_word_limbs_are_bytes(s.value_c_spec());
            },
            None => {},
        }
    }

    /// What the register chip fills of the fields that are looked up in the
    /// table of bytes consists of bytes.
    proof fn lemma_register_bytes(
        traces: &Traces,
        row: int,
        step: Option<Step>,
        history: Seq<RegisterAccess>,
    )
        requires
            RegisterMemCheckChip::filled(traces, row, step, history),
        ensures
            is_byte_word(traces.field(row, Column::Reg1ValPrev)),
            is_byte_word(traces.field(row, Column::Reg2ValPrev)),
            is_byte_word(traces.field(row, Column::Reg3ValPrev)),
            is_byte_word(traces.field(row, Column::Reg1TsPrev)),
            is_byte_word(traces.field(row, Column::Reg2TsPrev)),
            is_byte_word(traces.field(row, Column::Reg3TsPrev)),
            is_byte_word(traces.field(row, Column::CReg1TsPrev)),
            is_byte_word(traces.field(row, Column::CReg2TsPrev)),
            is_byte_word(traces.field(row, Column::CReg3TsPrev)),
    {
        RegisterMemCheckChip::lemma_filled_slots(traces, row, step, history);
        match step {
            Some(s) => {
                Self::lemma_slot_bytes(
                    traces,
                    row,
                    AccessColumns::first_spec(),
                    reads_op_b(s),
                    s.instruction.op_b,
                    history,
                    timestamp_of(row as nat, 1),
                );
                Self::lemma_slot_bytes(
                    traces,
                    row,
                    AccessColumns::second_spec(),
                    reads_op_c(s),
                    s.register_c_spec(),
                    after_first(history, s, row as nat),
                    timestamp_of(row as nat, 2),
                );
                Self::lemma_slot_bytes(
                    traces,
                    row,
                    AccessColumns::third_spec(),
                    accesses_op_a(s),
                    s.instruction.op_a,
                    after_second(history, s, row as nat),
                    timestamp_of(row as nat, 3),
                );
            },
            None => {},
        }
    }

    /// Every value of a filled row that is looked up in the table of bytes is a byte.
    proof fn lemma_bytes_in_range(
        traces: &Traces,
        row: int,
        step: Option<Step>,
        history: Seq<RegisterAccess>,
    )
        requires
            CpuChip::filled(traces, row, step),
            RegisterMemCheckChip::filled(traces, row, step, history),
            is_byte_word(traces.field(row, Column::ValueA)),
        ensures
            bytes_in_range(traces, row),
    {
        Self::lemma_cpu_bytes(traces, row, step);
        Self::lemma_register_bytes(traces, row, step, history);
        reveal(bytes_in_range);
        let words = checked_words();
        assert forall|i: int| 0 <= i < words.len() implies is_byte_word(
            traces.field(row, #[trigger] words[i]),
        ) by {
            assert(words.len() == 16);
            if i == 0 {
            } else if i == 1 {
            } else if i == 2 {
            } else if i == 3 {
            } else if i == 4 {
            } else if i == 5 {
            } else if i == 6 {
            } else if i == 7 {
            } else if i == 8 {
            } else if i == 9 {
            } else if i == 10 {
            } else if i == 11 {
            } else if i == 12 {
            } else if i == 13 {
            } else if i == 14 {
            } else {
            }
        }
    }

    /// The register accesses and the lookups of the first rows of a trace stay
    /// the same for as long as the fields of those rows stay as they are.
    proof fn lemma_prefix_kept(before: &Traces, after: &Traces, steps: Seq<Step>, rows: nat)
        requires
            forall|r: int| 0 <= r < rows ==> agree_on(before, after, r, Self::reads()),
        ensures
            history_upto(after, steps, rows) == history_upto(before, steps, rows),
            forall|table: LookupTable|
                #[trigger] lookups_upto(after, rows, table) == lookups_upto(before, rows, table),
        decreases rows,
    {
        if rows > 0 {
            Self::lemma_prefix_kept(before, after, steps, (rows - 1) as nat);
            let row = rows - 1;
            assert(agree_on(before, after, row, Self::reads()));
            assert(agree_on(before, after, row, lookup_reads()));
            lemma_row_lookups_kept(before, after, row);
            assert forall|table: LookupTable|
                #[trigger] lookups_upto(after, rows, table) == lookups_upto(
                    before,
                    rows,
                    table,
                ) by {
                assert(row_lookups(after, row, table) == row_lookups(before, row, table));
                assert(lookups_upto(after, (rows - 1) as nat, table) == lookups_upto(
                    before,
                    (rows - 1) as nat,
                    table,
                ));
            }
            assert(Self::reads().contains(Column::ValueAEffective)) by {
                assert(CpuChip::reads().contains(Column::ValueAEffective));
            }
            assert(after.field(row, Column::ValueAEffective) == before.field(
                row,
                Column::ValueAEffective,
            ));
        }
    }

    /// What a trace holds once the machine has filled it from `steps`: every
    /// row holds what the chips fill for its step after the register accesses
    /// of the rows before it, and the first rows hold the final state of the
    /// registers and the multiplicities of the table of bytes.
    pub open spec fn trace_filled(traces: &Traces, steps: Seq<Step>) -> bool {
        &&& 8 <= traces.log_size_spec() <= 30
        &&& steps.len() <= traces.rows()
        &&& forall|i: int| 0 <= i < steps.len() ==> Self::accepts(#[trigger] steps[i])
        &&& forall|row: int|
            0 <= row < traces.rows() ==> #[trigger] Self::row_filled(
                traces,
                row,
                step_at(steps, row),
                history_upto(traces, steps, row as nat),
                ram_upto(steps, row as nat),
            )
        &&& RegisterMemCheckChip::finalized(traces, history_upto(traces, steps, traces.rows()))
        &&& strictly_increasing(history_upto(traces, steps, traces.rows()))
        &&& LoadStoreChip::finalized(
            traces,
            ram_upto(steps, traces.rows()),
            touched_upto(steps, traces.rows()),
        )
        &&& forall|table: LookupTable|
            #[trigger] RangeCheckChip::finalized(
                traces,
                table,
                lookups_upto(traces, traces.rows(), table),
            )
        &&& forall|table: LookupTable|
            in_table(#[trigger] lookups_upto(traces, traces.rows(), table), table.size_spec())
        &&& ProgramMemCheckChip::filled(traces, pcs_of(steps))
    }

    /// Fills the rows from `first` on with padding.
    fn fill_padding(traces: &mut Traces, first: usize, side_note: &mut SideNote, steps: Ghost<Seq<Step>>)
        requires
            old(traces).wf(),
            old(traces).log_size_spec() <= 30,
            first <= old(traces).rows(),
            steps@.len() <= first,
            forall|r: int| first <= r < old(traces).rows() ==> old(traces).blank(r),
            forall|r: int|
                0 <= r < first ==> #[trigger] Self::row_filled(
                    old(traces),
                    r,
                    step_at(steps@, r),
                    history_upto(old(traces), steps@, r as nat),
                    ram_upto(steps@, r as nat),
                ),
            old(side_note).wf(),
            old(side_note).register_mem_check.history() == history_upto(
                old(traces),
                steps@,
                first as nat,
            ),
            clock(old(side_note).register_mem_check.history()) < timestamp_of(first as nat, 1),
            old(side_note).ram.history() == ram_upto(steps@, first as nat),
            old(side_note).ram.touched() == touched_upto(steps@, first as nat),
            not_after(old(side_note).ram.history(), first as nat),
            forall|table: LookupTable|
                #[trigger] old(side_note).range_check.looked_up(table) == lookups_upto(
                    old(traces),
                    first as nat,
                    table,
                ),
            forall|table: LookupTable|
                (#[trigger] old(side_note).range_check.looked_up(table)).len() <= 64 * first,
        ensures
            final(traces).wf(),
            final(traces).log_size_spec() == old(traces).log_size_spec(),
            forall|r: int|
                0 <= r < final(traces).rows() ==> #[trigger] Self::row_filled(
                    final(traces),
                    r,
                    step_at(steps@, r),
                    history_upto(final(traces), steps@, r as nat),
                    ram_upto(steps@, r as nat),
                ),
            final(side_note).wf(),
            final(side_note).register_mem_check.history() == history_upto(
                final(traces),
                steps@,
                final(traces).rows(),
            ),
            final(side_note).ram.history() == ram_upto(steps@, final(traces).rows()),
            final(side_note).ram.touched() == touched_upto(steps@, final(traces).rows()),
            forall|table: LookupTable|
                #[trigger] final(side_note).range_check.looked_up(table) == lookups_upto(
                    final(traces),
                    final(traces).rows(),
                    table,
                ),
    {
        let rows = traces.num_rows();
        proof {
            lemma_rows_bound(traces.log_size_spec());
        }
        let mut row: usize = first;
        while row < rows
            invariant
                traces.wf(),
                traces.log_size_spec() == old(traces).log_size_spec(),
                rows == traces.rows(),
                rows <= 0x4000_0000,
                steps@.len() <= first <= row <= rows,
                forall|r: int| row <= r < rows ==> traces.blank(r),
                forall|r: int|
                    0 <= r < row ==> #[trigger] Self::row_filled(
                        traces,
                        r,
                        step_at(steps@, r),
                        history_upto(traces, steps@, r as nat),
                        ram_upto(steps@, r as nat),
                    ),
                side_note.wf(),
                side_note.register_mem_check.history() == history_upto(traces, steps@, row as nat),
                clock(side_note.register_mem_check.history()) < timestamp_of(row as nat, 1),
                side_note.ram.history() == ram_upto(steps@, row as nat),
                side_note.ram.touched() == touched_upto(steps@, row as nat),
                not_after(side_note.ram.history(), row as nat),
                forall|table: LookupTable|
                    #[trigger] side_note.range_check.looked_up(table) == lookups_upto(
                        traces,
                        row as nat,
                        table,
                    ),
                forall|table: LookupTable|
                    (#[trigger] side_note.range_check.looked_up(table)).len() <= 64 * row,
            decreases rows - row,
        {
            let ghost before = *traces;
            let ghost history = side_note.register_mem_check.history();
            Self::fill_row(traces, row, &None, side_note);
            proof {
                Self::lemma_next_row(&before, traces, steps@, row as int, history);
            }
            row = row + 1;
        }
    }

    /// Filling one row keeps the rows before it as they are and the rows
    /// after it blank.
    proof fn lemma_next_row(
        before: &Traces,
        after: &Traces,
        steps: Seq<Step>,
        row: int,
        history: Seq<RegisterAccess>,
    )
        requires
            before.wf(),
            0 <= row < before.rows(),
            after.same_outside(before, row, Set::full()),
            forall|r: int| row <= r < before.rows() ==> before.blank(r),
            forall|r: int|
                0 <= r < row ==> #[trigger] Self::row_filled(
                    before,
                    r,
                    step_at(steps, r),
                    history_upto(before, steps, r as nat),
                    ram_upto(steps, r as nat),
                ),
            history == history_upto(before, steps, row as nat),
            Self::row_filled(after, row, step_at(steps, row), history, ram_upto(steps, row as nat)),
        ensures
            forall|r: int| row + 1 <= r < after.rows() ==> after.blank(r),
            forall|r: int|
                0 <= r < row + 1 ==> #[trigger] Self::row_filled(
                    after,
                    r,
                    step_at(steps, r),
                    history_upto(after, steps, r as nat),
                    ram_upto(steps, r as nat),
                ),
            history_upto(after, steps, row as nat) == history,
            history_upto(after, steps, (row + 1) as nat) == RegisterMemCheckChip::history_after(
                after,
                row,
                step_at(steps, row),
                history,
            ),
            forall|table: LookupTable|
                #[trigger] lookups_upto(after, (row + 1) as nat, table) == lookups_upto(
                    before,
                    row as nat,
                    table,
                ) + row_lookups(after, row, table),
    {
        assert forall|r: int| 0 <= r < before.rows() && r != row implies agree_on(
            before,
            after,
            r,
            Self::reads(),
        ) by {
            lemma_agree_after_row_change(before, after, row, Set::full(), r, Self::reads());
        }
        Self::lemma_prefix_kept(before, after, steps, row as nat);
        assert forall|table: LookupTable|
            #[trigger] lookups_upto(after, (row + 1) as nat, table) == lookups_upto(
                before,
                row as nat,
                table,
            ) + row_lookups(after, row, table) by {
            assert(lookups_upto(after, row as nat, table) == lookups_upto(
                before,
                row as nat,
                table,
            ));
        }
        assert forall|r: int| row + 1 <= r < after.rows() implies after.blank(r) by {
            assert(before.blank(r));
            assert forall|col: Column, i: int| 0 <= i < col.size_spec() implies #[trigger] after.field(
                r,
                col,
            )[i] == 0 by {
                assert(after.field(r, col) == before.field(r, col));
                assert(before.field(r, col)[i] == 0);
            }
        }
        assert forall|r: int| 0 <= r < row + 1 implies #[trigger] Self::row_filled(
            after,
            r,
            step_at(steps, r),
            history_upto(after, steps, r as nat),
            ram_upto(steps, r as nat),
        ) by {
            if r < row {
                assert forall|q: int| 0 <= q < r implies agree_on(
                    before,
                    after,
                    q,
                    Self::reads(),
                ) by {}
                Self::lemma_prefix_kept(before, after, steps, r as nat);
                Self::lemma_row_filled_kept(
                    before,
                    after,
                    r,
                    step_at(steps, r),
                    history_upto(before, steps, r as nat),
                    ram_upto(steps, r as nat),
                );
            }
        }
    }

    /// Arithmetizes an execution: fills a trace of `2^log_size` rows with one
    /// row for each of `steps`, in their order, and padding after them, then
    /// counts the executions of each instruction, and writes the final state
    /// of the registers and of the memory and the multiplicities of the
    /// lookup tables. The trace must have 256 rows at least, for the table
    /// of bytes, and `2^30` at most, for the timestamps to fit a word, and
    /// a row for every step.
    pub fn fill_trace(log_size: u32, steps: Vec<Step>) -> (traces: Traces)
        requires
            8 <= log_size <= 30,
            steps@.len() <= pow2(log_size as nat),
            forall|i: int| 0 <= i < steps@.len() ==> Self::accepts(#[trigger] steps@[i]),
            touched_upto(steps@, steps@.len()).len() <= pow2(log_size as nat),
        ensures
            traces.wf(),
            traces.log_size_spec() == log_size,
            Self::trace_filled(&traces, steps@),
    {
        let mut traces = Traces::new(log_size);
        let mut side_note = SideNote::new();
        let pcs = Self::program_counters(&steps);
        let ghost all = steps@;
        let ghost rows = traces.rows();
        proof {
            lemma_rows_bound(log_size as nat);
        }
        let mut row: usize = 0;
        for step in iter: steps
            invariant
                iter.seq() == all,
                row == iter.index(),
                traces.wf(),
                traces.log_size_spec() == log_size,
                rows == traces.rows(),
                256 <= rows <= 0x4000_0000,
                all.len() <= rows,
                forall|i: int| 0 <= i < all.len() ==> Self::accepts(#[trigger] all[i]),
                forall|r: int| row <= r < rows ==> traces.blank(r),
                forall|r: int|
                    0 <= r < row ==> #[trigger] Self::row_filled(
                        &traces,
                        r,
                        step_at(all, r),
                        history_upto(&traces, all, r as nat),
                        ram_upto(all, r as nat),
                    ),
                side_note.wf(),
                side_note.register_mem_check.history() == history_upto(&traces, all, row as nat),
                clock(side_note.register_mem_check.history()) < timestamp_of(row as nat, 1),
                side_note.ram.history() == ram_upto(all, row as nat),
                side_note.ram.touched() == touched_upto(all, row as nat),
                not_after(side_note.ram.history(), row as nat),
                forall|table: LookupTable|
                    #[trigger] side_note.range_check.looked_up(table) == lookups_upto(
                        &traces,
                        row as nat,
                        table,
                    ),
                forall|table: LookupTable|
                    (#[trigger] side_note.range_check.looked_up(table)).len() <= 64 * row,
        {
            let ghost before = traces;
            let ghost history = side_note.register_mem_check.history();
            let vm_step = Some(step);
            assert(vm_step == step_at(all, row as int));
            Self::fill_row(&mut traces, row, &vm_step, &mut side_note);
            proof {
                Self::lemma_next_row(&before, &traces, all, row as int, history);
            }
            row = row + 1;
        }
        Self::fill_padding(&mut traces, row, &mut side_note, Ghost(all));
        Self::fill_program(&mut traces, &pcs, Ghost(all));
        let ghost filled = traces;
        RegisterMemCheckChip::fill_final(&mut traces, &side_note.register_mem_check);
        let ghost closed = traces;
        proof {
            lemma_padding_is_idle(all, rows);
        }
        LoadStoreChip::fill_final(&mut traces, &side_note.ram);
        let ghost stored = traces;
        RangeCheckChip::fill_final(&mut traces, &side_note.range_check);
        proof {
            assert forall|table: LookupTable|
                in_table(
                    #[trigger] lookups_upto(&filled, filled.rows(), table),
                    table.size_spec(),
                ) by {
                assert(side_note.range_check.table(table).wf());
                assert(side_note.range_check.looked_up(table) == lookups_upto(
                    &filled,
                    filled.rows(),
                    table,
                ));
            }
            assert forall|table: LookupTable|
                #[trigger] RangeCheckChip::finalized(
                    &traces,
                    table,
                    lookups_upto(&filled, filled.rows(), table),
                ) by {
                assert(RangeCheckChip::finalized(
                    &traces,
                    table,
                    side_note.range_check.looked_up(table),
                ));
            }
            Self::lemma_closed(&filled, &closed, &stored, &traces, all);
        }
        traces
    }

    /// The program counters of `steps`, in their order.
    fn program_counters(steps: &Vec<Step>) -> (pcs: Vec<u32>)
        ensures
            pcs@ == pcs_of(steps@),
    {
        let mut pcs: Vec<u32> = Vec::new();
        let mut i: usize = 0;
        while i < steps.len()
            invariant
                i <= steps@.len(),
                pcs@.len() == i,
                forall|k: int| 0 <= k < i ==> #[trigger] pcs@[k] == steps@[k].pc,
            decreases steps@.len() - i,
        {
            pcs.push(steps[i].pc);
            i = i + 1;
        }
        assert(pcs@ =~= pcs_of(steps@));
        pcs
    }

    /// Counts the executions of each instruction, which leaves what the
    /// rows hold otherwise as it is.
    fn fill_program(traces: &mut Traces, pcs: &Vec<u32>, steps: Ghost<Seq<Step>>)
        requires
            old(traces).wf(),
            old(traces).rows() <= 0x4000_0000,
            pcs@.len() <= old(traces).rows(),
            forall|r: int|
                0 <= r < old(traces).rows() ==> #[trigger] Self::row_filled(
                    old(traces),
                    r,
                    step_at(steps@, r),
                    history_upto(old(traces), steps@, r as nat),
                    ram_upto(steps@, r as nat),
                ),
        ensures
            final(traces).wf(),
            final(traces).log_size_spec() == old(traces).log_size_spec(),
            forall|r: int|
                0 <= r < final(traces).rows() ==> #[trigger] Self::row_filled(
                    final(traces),
                    r,
                    step_at(steps@, r),
                    history_upto(final(traces), steps@, r as nat),
                    ram_upto(steps@, r as nat),
                ),
            history_upto(final(traces), steps@, final(traces).rows()) == history_upto(
                old(traces),
                steps@,
                old(traces).rows(),
            ),
            forall|table: LookupTable|
                #[trigger] lookups_upto(final(traces), final(traces).rows(), table) == lookups_upto(
                    old(traces),
                    old(traces).rows(),
                    table,
                ),
            ProgramMemCheckChip::filled(final(traces), pcs@),
    {
        ProgramMemCheckChip::fill(traces, pcs);
        proof {
            Self::lemma_reads_are_not_closed();
            assert forall|r: int| 0 <= r < old(traces).rows() implies agree_on(
                old(traces),
                traces,
                r,
                Self::reads(),
            ) by {
                lemma_agree_after_field_change(
                    old(traces),
                    traces,
                    ProgramMemCheckChip::owned(),
                    r,
                    Self::reads(),
                );
            }
            assert forall|r: int| 0 <= r < traces.rows() implies #[trigger] Self::row_filled(
                traces,
                r,
                step_at(steps@, r),
                history_upto(traces, steps@, r as nat),
                ram_upto(steps@, r as nat),
            ) by {
                Self::lemma_prefix_kept(old(traces), traces, steps@, r as nat);
                Self::lemma_row_filled_kept(
                    old(traces),
                    traces,
                    r,
                    step_at(steps@, r),
                    history_upto(old(traces), steps@, r as nat),
                    ram_upto(steps@, r as nat),
                );
            }
            Self::lemma_prefix_kept(old(traces), traces, steps@, old(traces).rows());
        }
    }

    /// Closing the arguments that span rows leaves what the rows hold as it is.
    proof fn lemma_closed(
        filled: &Traces,
        closed: &Traces,
        stored: &Traces,
        counted: &Traces,
        steps: Seq<Step>,
    )
        requires
            filled.wf(),
            filled.rows() >= 32,
            closed.same_outside_fields(filled, RegisterMemCheckChip::owned_final()),
            stored.same_outside_fields(closed, LoadStoreChip::owned_final()),
            counted.same_outside_fields(stored, multiplicity_columns()),
            LoadStoreChip::finalized(
                stored,
                ram_upto(steps, filled.rows()),
                touched_upto(steps, filled.rows()),
            ),
            touched_upto(steps, filled.rows()).len() <= filled.rows(),
            forall|r: int|
                0 <= r < filled.rows() ==> #[trigger] Self::row_filled(
                    filled,
                    r,
                    step_at(steps, r),
                    history_upto(filled, steps, r as nat),
                    ram_upto(steps, r as nat),
                ),
            RegisterMemCheckChip::finalized(closed, history_upto(filled, steps, filled.rows())),
            strictly_increasing(history_upto(filled, steps, filled.rows())),
            forall|table: LookupTable|
                #[trigger] RangeCheckChip::finalized(
                    counted,
                    table,
                    lookups_upto(filled, filled.rows(), table),
                ),
            forall|table: LookupTable|
                in_table(#[trigger] lookups_upto(filled, filled.rows(), table), table.size_spec()),
            8 <= filled.log_size_spec() <= 30,
            steps.len() <= filled.rows(),
            forall|i: int| 0 <= i < steps.len() ==> Self::accepts(#[trigger] steps[i]),
            ProgramMemCheckChip::filled(filled, pcs_of(steps)),
        ensures
            Self::trace_filled(counted, steps),
    {
        assert forall|r: int| 0 <= r < counted.rows() implies #[trigger] ProgramMemCheckChip::counted(
            counted,
            r,
            pcs_of(steps),
        ) && ProgramMemCheckChip::closed(counted, r, pcs_of(steps)) by {
            assert(ProgramMemCheckChip::counted(filled, r, pcs_of(steps)));
            assert forall|col: Column|
                ProgramMemCheckChip::owned().contains(col) implies #[trigger] counted.field(r, col)
                == filled.field(r, col) by {
                assert(counted.field(r, col) == stored.field(r, col));
                assert(stored.field(r, col) == closed.field(r, col));
                assert(closed.field(r, col) == filled.field(r, col));
            }
            ProgramMemCheckChip::lemma_kept(filled, counted, r, pcs_of(steps));
        }
        assert forall|r: int| 0 <= r < filled.rows() implies agree_on(
            filled,
            counted,
            r,
            Self::reads(),
        ) by {
            Self::lemma_reads_are_not_closed();
            assert forall|col: Column| Self::reads().contains(col) implies #[trigger] counted.field(
                r,
                col,
            ) == filled.field(r, col) by {
                assert(counted.field(r, col) == stored.field(r, col));
                assert(stored.field(r, col) == closed.field(r, col));
                assert(closed.field(r, col) == filled.field(r, col));
            }
        }
        assert forall|row: int| 0 <= row < counted.rows() implies #[trigger] Self::row_filled(
            counted,
            row,
            step_at(steps, row),
            history_upto(counted, steps, row as nat),
            ram_upto(steps, row as nat),
        ) by {
            Self::lemma_prefix_kept(filled, counted, steps, row as nat);
            Self::lemma_row_filled_kept(
                filled,
                counted,
                row,
                step_at(steps, row),
                history_upto(filled, steps, row as nat),
                ram_upto(steps, row as nat),
            );
        }
        Self::lemma_prefix_kept(filled, counted, steps, filled.rows());
        assert(RegisterMemCheckChip::finalized(
            counted,
            history_upto(filled, steps, filled.rows()),
        )) by {
            assert forall|reg: Register|
                {
                    &&& #[trigger] counted.field(reg.index_spec() as int, Column::FinalRegValue)
                        == closed.field(reg.index_spec() as int, Column::FinalRegValue)
                    &&& counted.field(reg.index_spec() as int, Column::FinalRegTs) == closed.field(
                        reg.index_spec() as int,
                        Column::FinalRegTs,
                    )
                } by {
                assert(reg.index_spec() < 32);
                assert(closed.rows() == filled.rows());
                assert(stored.rows() == filled.rows());
                assert(stored.field(reg.index_spec() as int, Column::FinalRegValue)
                    == closed.field(reg.index_spec() as int, Column::FinalRegValue));
                assert(stored.field(reg.index_spec() as int, Column::FinalRegTs) == closed.field(
                    reg.index_spec() as int,
                    Column::FinalRegTs,
                ));
            }
        }
        assert(LoadStoreChip::finalized(
            counted,
            ram_upto(steps, filled.rows()),
            touched_upto(steps, filled.rows()),
        )) by {
            let touched = touched_upto(steps, filled.rows());
            let history = ram_upto(steps, filled.rows());
            assert forall|i: int| 0 <= i < touched.len() implies #[trigger] LoadStoreChip::final_row(
                counted,
                i,
                touched[i],
                byte_in(history, touched[i]),
                ram_timestamp_in(history, touched[i]),
            ) by {
                assert(stored.rows() == filled.rows());
                assert(LoadStoreChip::final_row(
                    stored,
                    i,
                    touched[i],
                    byte_in(history, touched[i]),
                    ram_timestamp_in(history, touched[i]),
                ));
                lemma_agree_after_field_change(
                    stored,
                    counted,
                    multiplicity_columns(),
                    i,
                    LoadStoreChip::owned_final(),
                );
                LoadStoreChip::lemma_final_row_kept(
                    stored,
                    counted,
                    i,
                    touched[i],
                    byte_in(history, touched[i]),
                    ram_timestamp_in(history, touched[i]),
                );
            }
        }
    }

    /// No statement about a filled row speaks of a field that is written
    /// when the arguments that span rows are closed.
    proof fn lemma_reads_are_not_closed()
        ensures
            !Self::reads().contains(Column::FinalRegValue),
            !Self::reads().contains(Column::FinalRegTs),
            Self::reads().disjoint(LoadStoreChip::owned_final()),
            Self::reads().disjoint(multiplicity_columns()),
            Self::reads().disjoint(ProgramMemCheckChip::owned()),
    {
    }

    /// Every row of a filled trace sets exactly one flag: that of its
    /// instruction, or the padding flag where it has no step. So a padding
    /// row sets no flag of an instruction.
    pub proof fn lemma_one_flag_per_row(traces: &Traces, steps: Seq<Step>, row: int, flag: Column)
        requires
            Self::trace_filled(traces, steps),
            0 <= row < traces.rows(),
            is_flag(flag),
        ensures
            is_flag(selected_flag(step_at(steps, row))),
            traces.field(row, flag) == seq![bit(flag == selected_flag(step_at(steps, row)))],
            step_at(steps, row) is None <==> selected_flag(step_at(steps, row))
                == Column::IsPadding,
    {
        let step = step_at(steps, row);
        assert(Self::row_filled(
            traces,
            row,
            step,
            history_upto(traces, steps, row as nat),
            ram_upto(steps, row as nat),
        ));
        reveal(Machine::row_filled);
        reveal(CpuChip::filled);
        if step is Some {
            assert(Self::accepts(steps[row]));
        }
    }

    /// In a row whose instruction is no branch and no jump, the next address
    /// is the address of the instruction plus four, modulo `2^32`, and the
    /// carries of the row are those of that addition.
    pub proof fn lemma_next_pc(traces: &Traces, steps: Seq<Step>, row: int)
        requires
            Self::trace_filled(traces, steps),
            0 <= row < traces.rows(),
            step_at(steps, row) matches Some(s) && s.instruction.opcode.builtin matches Some(
                opcode,
            ) && !is_control_flow(opcode),
        ensures
            word_value(traces.field(row, Column::PcNext)) == (word_value(
                traces.field(row, Column::Pc),
            ) + 4) % 0x1_0000_0000,
            word_value(traces.field(row, Column::Pc)) == step_at(steps, row)->0.pc,
            is_sum_with_carries(
                traces.field(row, Column::Pc),
                word_limbs(4),
                traces.field(row, Column::PcNext),
                traces.field(row, Column::PcCarry),
            ),
    {
        let step = step_at(steps, row);
        assert(Self::row_filled(
            traces,
            row,
            step,
            history_upto(traces, steps, row as nat),
            ram_upto(steps, row as nat),
        ));
        let s = step->0;
        Self::lemma_cpu_filled(
            traces,
            row,
            step,
            history_upto(traces, steps, row as nat),
            ram_upto(steps, row as nat),
        );
        Self::lemma_pc_fields(traces, row, s);
    }

    /// The timestamps of every row of a trace fit a machine word.
    /// Every row with a step holds the word of its instruction, and the
    /// slices from which the word and the operands are put together as the
    /// encoding shape of the instruction has it.
    pub proof fn lemma_instruction_decoded(traces: &Traces, steps: Seq<Step>, row: int)
        requires
            Self::trace_filled(traces, steps),
            0 <= row < traces.rows(),
            step_at(steps, row) is Some,
        ensures
            traces.field(row, Column::InstrVal) == word_limbs(step_at(steps, row)->0.raw_instruction),
            identities(traces, row, step_at(steps, row)->0.instruction.ins_type),
    {
        let step = step_at(steps, row);
        assert(Self::row_filled(
            traces,
            row,
            step,
            history_upto(traces, steps, row as nat),
            ram_upto(steps, row as nat),
        ));
        reveal(Machine::row_filled);
        reveal(CpuChip::filled);
        DecodingCheckChip::lemma_identities(traces, row, step->0);
    }

    /// Every row with a step holds how often its instruction was executed
    /// before, and that number plus one: the counter of an instruction
    /// grows with each execution.
    pub proof fn lemma_program_counter(traces: &Traces, steps: Seq<Step>, row: int)
        requires
            Self::trace_filled(traces, steps),
            0 <= row < steps.len(),
        ensures
            word_value(traces.field(row, Column::ProgCtrPrev)) == executions(
                pcs_of(steps).take(row),
                steps[row].pc,
            ),
            word_value(traces.field(row, Column::ProgCtrCur)) == word_value(
                traces.field(row, Column::ProgCtrPrev),
            ) + 1,
    {
        lemma_rows_bound(traces.log_size_spec());
        let pcs = pcs_of(steps);
        assert(ProgramMemCheckChip::counted(traces, row, pcs));
        let before = executions(pcs.take(row), pcs[row]);
        lemma_executions_bound(pcs.take(row), pcs[row]);
        lemma_word_value_of_limbs(before as u32);
        lemma_word_value_of_limbs((before + 1) as u32);
    }

    /// Once the trace is closed, the row with the number of an instruction,
    /// in the order in which the instructions were first executed, holds
    /// how often the instruction was executed in all, which is once at
    /// least.
    pub proof fn lemma_final_program_counter(traces: &Traces, steps: Seq<Step>, i: int)
        requires
            Self::trace_filled(traces, steps),
            0 <= i < program_of(pcs_of(steps)).len(),
        ensures
            i < traces.rows(),
            word_value(traces.field(i, Column::FinalPrgMemoryCtr)) == executions(
                pcs_of(steps),
                program_of(pcs_of(steps))[i],
            ),
            executions(pcs_of(steps), program_of(pcs_of(steps))[i]) > 0,
    {
        lemma_rows_bound(traces.log_size_spec());
        let pcs = pcs_of(steps);
        lemma_program(pcs);
        assert(ProgramMemCheckChip::counted(traces, i, pcs));
        let count = executions(pcs, program_of(pcs)[i]);
        lemma_executions_bound(pcs, program_of(pcs)[i]);
        lemma_word_value_of_limbs(count as u32);
    }

    proof fn lemma_timestamps_fit(traces: &Traces, row: int)
        requires
            0 <= row < traces.rows(),
            traces.log_size_spec() <= 30,
        ensures
            timestamp_of(row as nat, 3) <= u32::MAX,
    {
        lemma_rows_bound(traces.log_size_spec());
    }

    /// The CPU chip's part of what a filled row holds.
    proof fn lemma_cpu_filled(
        traces: &Traces,
        row: int,
        step: Option<Step>,
        history: Seq<RegisterAccess>,
        ram: Seq<RamAccess>,
    )
        requires
            Self::row_filled(traces, row, step, history, ram),
        ensures
            CpuChip::filled(traces, row, step),
            RegisterMemCheckChip::filled(traces, row, step, history),
    {
        reveal(Machine::row_filled);
    }

    proof fn lemma_pc_fields(traces: &Traces, row: int, s: Step)
        requires
            CpuChip::filled(traces, row, Some(s)),
            !is_control_flow(s.instruction.opcode.builtin->0),
        ensures
            word_value(traces.field(row, Column::PcNext)) == (word_value(
                traces.field(row, Column::Pc),
            ) + 4) % 0x1_0000_0000,
            word_value(traces.field(row, Column::Pc)) == s.pc,
            is_sum_with_carries(
                traces.field(row, Column::Pc),
                word_limbs(4),
                traces.field(row, Column::PcNext),
                traces.field(row, Column::PcCarry),
            ),
    {
        reveal(CpuChip::filled);
        lemma_word_value_of_limbs(s.pc);
        lemma_word_value_of_limbs(s.next_pc_spec());
    }

    /// The value that a row writes back is zero where the destination is the
    /// zero register, and the value of the first operand everywhere else.
    pub proof fn lemma_value_written_back(traces: &Traces, steps: Seq<Step>, row: int)
        requires
            Self::trace_filled(traces, steps),
            0 <= row < traces.rows(),
        ensures
            traces.field(row, Column::OpA)[0] == 0 ==> traces.field(row, Column::ValueAEffective)
                == zero_word(),
            traces.field(row, Column::OpA)[0] != 0 ==> traces.field(row, Column::ValueAEffective)
                == traces.field(row, Column::ValueA),
    {
        let step = step_at(steps, row);
        assert(Self::row_filled(
            traces,
            row,
            step,
            history_upto(traces, steps, row as nat),
            ram_upto(steps, row as nat),
        ));
        reveal(Machine::row_filled);
        reveal(CpuChip::filled);
    }

    /// An access to a register records a timestamp of the access before that
    /// lies strictly before its own, with the witnesses of that comparison.
    /// This is stated of the first access of a row; the second and third
    /// follow below.
    pub proof fn lemma_first_access(traces: &Traces, steps: Seq<Step>, row: int)
        requires
            Self::trace_filled(traces, steps),
            0 <= row < traces.rows(),
            traces.field(row, Column::Reg1Accessed)[0] != 0,
        ensures
            timestamp_ordered(traces, row, AccessColumns::first_spec(), timestamp_of(row as nat, 1)),
    {
        let step = step_at(steps, row);
        let history = history_upto(traces, steps, row as nat);
        assert(Self::row_filled(traces, row, step, history, ram_upto(steps, row as nat)));
        Self::lemma_cpu_filled(traces, row, step, history, ram_upto(steps, row as nat));
        RegisterMemCheckChip::lemma_filled_slots(traces, row, step, history);
        Self::lemma_timestamps_fit(traces, row);
        match step {
            Some(s) => {
                lemma_slot_ordered(
                    traces,
                    row,
                    AccessColumns::first_spec(),
                    reads_op_b(s),
                    s.instruction.op_b,
                    history,
                    timestamp_of(row as nat, 1),
                );
            },
            None => {},
        }
    }

    /// The second access of a row records a timestamp of the access before
    /// that lies strictly before its own.
    pub proof fn lemma_second_access(traces: &Traces, steps: Seq<Step>, row: int)
        requires
            Self::trace_filled(traces, steps),
            0 <= row < traces.rows(),
            traces.field(row, Column::Reg2Accessed)[0] != 0,
        ensures
            timestamp_ordered(
                traces,
                row,
                AccessColumns::second_spec(),
                timestamp_of(row as nat, 2),
            ),
    {
        let step = step_at(steps, row);
        let history = history_upto(traces, steps, row as nat);
        assert(Self::row_filled(traces, row, step, history, ram_upto(steps, row as nat)));
        Self::lemma_cpu_filled(traces, row, step, history, ram_upto(steps, row as nat));
        RegisterMemCheckChip::lemma_filled_slots(traces, row, step, history);
        Self::lemma_timestamps_fit(traces, row);
        match step {
            Some(s) => {
                lemma_slot_ordered(
                    traces,
                    row,
                    AccessColumns::second_spec(),
                    reads_op_c(s),
                    s.register_c_spec(),
                    after_first(history, s, row as nat),
                    timestamp_of(row as nat, 2),
                );
            },
            None => {},
        }
    }

    /// The third access of a row records a timestamp of the access before
    /// that lies strictly before its own.
    pub proof fn lemma_third_access(traces: &Traces, steps: Seq<Step>, row: int)
        requires
            Self::trace_filled(traces, steps),
            0 <= row < traces.rows(),
            traces.field(row, Column::Reg3Accessed)[0] != 0,
        ensures
            timestamp_ordered(traces, row, AccessColumns::third_spec(), timestamp_of(row as nat, 3)),
    {
        let step = step_at(steps, row);
        let history = history_upto(traces, steps, row as nat);
        assert(Self::row_filled(traces, row, step, history, ram_upto(steps, row as nat)));
        Self::lemma_cpu_filled(traces, row, step, history, ram_upto(steps, row as nat));
        RegisterMemCheckChip::lemma_filled_slots(traces, row, step, history);
        Self::lemma_timestamps_fit(traces, row);
        match step {
            Some(s) => {
                lemma_slot_ordered(
                    traces,
                    row,
                    AccessColumns::third_spec(),
                    accesses_op_a(s),
                    s.instruction.op_a,
                    after_second(history, s, row as nat),
                    timestamp_of(row as nat, 3),
                );
            },
            None => {},
        }
    }

    /// The accesses to the registers happen one after the other, and the row
    /// with the number of a register holds the value and the timestamp of
    /// the last of them that went to that register.
    pub proof fn lemma_final_registers(traces: &Traces, steps: Seq<Step>, reg: Register)
        requires
            Self::trace_filled(traces, steps),
        ensures
            strictly_increasing(history_upto(traces, steps, traces.rows())),
            match last_access(history_upto(traces, steps, traces.rows()), reg) {
                Some(access) => {
                    &&& access.reg == reg
                    &&& traces.field(reg.index_spec() as int, Column::FinalRegValue) == word_limbs(
                        access.value,
                    )
                    &&& traces.field(reg.index_spec() as int, Column::FinalRegTs) == word_limbs(
                        access.timestamp,
                    )
                },
                None => {
                    &&& traces.field(reg.index_spec() as int, Column::FinalRegValue) == word_limbs(0)
                    &&& traces.field(reg.index_spec() as int, Column::FinalRegTs) == word_limbs(0)
                },
            },
    {
        lemma_clock_bounds(history_upto(traces, steps, traces.rows()), reg);
    }

    /// Conservation: the multiplicities of a lookup table add up to the
    /// number of values that the rows of the trace look up in it, and the row
    /// with the number of a value of the table holds the multiplicity of
    /// that value.
    pub proof fn lemma_multiplicities_add_up(
        traces: &Traces,
        steps: Seq<Step>,
        table: LookupTable,
        value: int,
    )
        requires
            Self::trace_filled(traces, steps),
            0 <= value < table.size_spec(),
        ensures
            occurrences_below(lookups_upto(traces, traces.rows(), table), table.size_spec())
                == lookups_upto(traces, traces.rows(), table).len(),
            traces.field(value, table.multiplicity_spec()) == seq![
                occurrences(lookups_upto(traces, traces.rows(), table), value as nat) % (P as nat),
            ],
    {
        let looked_up = lookups_upto(traces, traces.rows(), table);
        assert(in_table(looked_up, table.size_spec()));
        assert(RangeCheckChip::finalized(traces, table, looked_up));
        lemma_occurrences_add_up(looked_up, table.size_spec());
    }

    /// A load or store records, for each byte that it accesses, the value
    /// that the latest access before it left in the byte, and a timestamp of
    /// that access that lies strictly before the clock value of the row.
    pub proof fn lemma_memory_access(traces: &Traces, steps: Seq<Step>, row: int, k: nat)
        requires
            Self::trace_filled(traces, steps),
            0 <= row < traces.rows(),
            step_at(steps, row) matches Some(s) && k < access_size(s),
        ensures
            byte_recorded(
                traces,
                row,
                ByteColumns::at_spec(k),
                byte_in(ram_upto(steps, row as nat), (address_of(steps[row]) + k) as u32),
                byte_after(ram_upto(steps, row as nat), steps[row], k),
                ram_timestamp_in(ram_upto(steps, row as nat), (address_of(steps[row]) + k) as u32),
                (row + 1) as nat,
            ),
            word_value(traces.field(row, ByteColumns::at_spec(k).ts_prev)) + 1 + word_value(
                traces.field(row, ByteColumns::at_spec(k).ts_gap),
            ) == row + 1,
    {
        let step = steps[row];
        let ram = ram_upto(steps, row as nat);
        assert(Self::row_filled(
            traces,
            row,
            Some(step),
            history_upto(traces, steps, row as nat),
            ram,
        ));
        assert(InstructionChips::witnessed(traces, row, Some(step), ram)) by {
            reveal(Machine::row_filled);
        }
        InstructionChips::lemma_memory_access(traces, row, step, ram);
        assert(byte_filled(traces, row, step, ram, k));
        Self::lemma_timestamps_fit(traces, row);
        let prev_ts = ram_timestamp_in(ram, (address_of(step) + k) as u32);
        lemma_word_value_of_limbs(prev_ts);
        lemma_word_value_of_limbs((row - prev_ts) as u32);
    }

    /// The rows from the first on hold the final state of the bytes of
    /// memory that were accessed, one byte per row and each byte once: the
    /// value and the timestamp of the latest access to the byte.
    pub proof fn lemma_final_memory(traces: &Traces, steps: Seq<Step>, i: int)
        requires
            Self::trace_filled(traces, steps),
            0 <= i < touched_upto(steps, traces.rows()).len(),
        ensures
            ({
                let address = touched_upto(steps, traces.rows())[i];
                let history = ram_upto(steps, traces.rows());
                LoadStoreChip::final_row(
                    traces,
                    i,
                    address,
                    byte_in(history, address),
                    ram_timestamp_in(history, address),
                )
            }),
    {
    }
}

} // verus!
