//! Addition: `ADD` and `ADDI`.

use vstd::prelude::*;
use crate::chips::cpu::{is_flag, selected_flag, supports, CpuChip};
use crate::column::Column;
use crate::riscv::BuiltinOpcode;
use crate::step::Step;
use crate::trace::{agree_on, bit, word_limbs, Traces};
use crate::chips::utils::{
    add_with_carries,
    is_flag_word,
    is_sum_with_carries,
    lemma_limbs_of_word,
    u32_to_word,
};

verus! {

/// Fills the sum and the carries of an addition.
pub struct AddChip;

impl AddChip {
    /// Whether the chip has work to do on `step`.
    pub open spec fn applies(step: Option<Step>) -> bool {
        step matches Some(s) && matches!(
            s.instruction.opcode.builtin,
            Some(BuiltinOpcode::ADD)
            | Some(BuiltinOpcode::ADDI)
        )
    }

    /// The fields that the chip writes.
    pub open spec fn owned() -> Set<Column> {
        set![
            Column::CarryFlag,
            Column::ValueA,
        ]
    }

    /// The fields that the chip's identities speak of.
    pub open spec fn reads() -> Set<Column> {
        set![
            Column::IsAdd,
            Column::ValueA,
            Column::ValueB,
            Column::ValueC,
            Column::CarryFlag,
        ]
    }

    /// What the row of `step` holds once the chip has filled it.
    pub open spec fn witnessed(traces: &Traces, row: int, step: Step) -> bool {
        &&& traces.field(row, Column::ValueA) == word_limbs(step.result_spec())
        &&& is_sum_with_carries(
            word_limbs(step.value_b_spec()),
            word_limbs(step.value_c_spec()),
            traces.field(row, Column::ValueA),
            traces.field(row, Column::CarryFlag),
        )
        &&& is_flag_word(traces.field(row, Column::CarryFlag))
    }

    /// On an addition, the bytes of the second and third operand add up to the
    /// bytes of the first, with the carries of the row.
    pub open spec fn constraints(traces: &Traces, row: int) -> bool {
        traces.field(row, Column::IsAdd)[0] == 1 ==> {
            &&& is_sum_with_carries(
                traces.field(row, Column::ValueB),
                traces.field(row, Column::ValueC),
                traces.field(row, Column::ValueA),
                traces.field(row, Column::CarryFlag),
            )
            &&& is_flag_word(traces.field(row, Column::CarryFlag))
        }
    }

    /// What the chip filled holds of a row for as long as the chip's fields
    /// stay as they are.
    pub proof fn lemma_witnessed_kept(before: &Traces, after: &Traces, row: int, step: Step)
        requires
            Self::witnessed(before, row, step),
            agree_on(before, after, row, Self::owned()),
        ensures
            Self::witnessed(after, row, step),
    {
        assert(Self::owned().contains(Column::CarryFlag));
        assert(Self::owned().contains(Column::ValueA));
    }

    /// The identities hold of a row for as long as its fields stay as they are.
    pub proof fn lemma_constraints_kept(before: &Traces, after: &Traces, row: int)
        requires
            Self::constraints(before, row),
            agree_on(before, after, row, Self::reads()),
        ensures
            Self::constraints(after, row),
    {
        assert(Self::reads().contains(Column::IsAdd));
        assert(Self::reads().contains(Column::ValueA));
        assert(Self::reads().contains(Column::ValueB));
        assert(Self::reads().contains(Column::ValueC));
        assert(Self::reads().contains(Column::CarryFlag));
    }

    /// The identities hold of a row that the CPU chip has filled after this chip.
    pub proof fn lemma_constraints(traces: &Traces, row: int, step: Option<Step>)
        requires
            CpuChip::filled(traces, row, step),
            step matches Some(s) ==> s.wf() && supports(s),
            Self::applies(step) ==> Self::witnessed(traces, row, step->0),
        ensures
            Self::constraints(traces, row),
    {
        reveal(CpuChip::filled);
        assert(is_flag(Column::IsAdd));
        assert(traces.field(row, Column::IsAdd) == seq![
            bit(Column::IsAdd == selected_flag(step)),
        ]);
    }

    /// On an addition, writes the sum of the second and third operand,
    /// modulo `2^32`, to `ValueA` and the carry out of each byte to
    /// `CarryFlag`. Leaves the trace as it is on every other step.
    pub fn fill_main_trace(traces: &mut Traces, row_idx: usize, vm_step: &Option<Step>)
        requires
            old(traces).wf(),
            row_idx < old(traces).rows(),
            *vm_step matches Some(s) ==> s.wf(),
        ensures
            final(traces).wf(),
            final(traces).same_outside(old(traces), row_idx as int, Self::owned()),
            !Self::applies(*vm_step) ==> final(traces)@ == old(traces)@,
            Self::applies(*vm_step) ==> Self::witnessed(final(traces), row_idx as int, vm_step->0),
    {
        let step = match vm_step {
            Some(step) => step,
            None => {
                return ;
            },
        };
        match step.opcode() {
            Some(BuiltinOpcode::ADD) | Some(BuiltinOpcode::ADDI) => {},
            _ => {
                return ;
            },
        }
        let value_b = u32_to_word(step.get_value_b());
        let value_c = u32_to_word(step.get_value_c());
        let (sum_bytes, carry_bits) = add_with_carries(value_b, value_c);
        traces.fill_columns_bools(row_idx, Column::CarryFlag, carry_bits);
        traces.fill_columns_bytes(row_idx, Column::ValueA, sum_bytes);
        proof {
            lemma_limbs_of_word(sum_bytes);
        }
    }
}

} // verus!
