//! Jump and link: `JAL`.

use vstd::prelude::*;
use crate::chips::cpu::{is_flag, selected_flag, supports, CpuChip};
use crate::column::Column;
use crate::riscv::BuiltinOpcode;
use crate::step::Step;
use crate::trace::{agree_on, bit, word_limbs, Traces};
use crate::chips::utils::{
    add_with_carries,
    is_flag_word,
    is_sum_with_carries,
    lemma_limbs_of_word,
    u32_to_word,
};

verus! {

/// Fills the return address and the target of a jump.
pub struct JalChip;

impl JalChip {
    /// Whether the chip has work to do on `step`.
    pub open spec fn applies(step: Option<Step>) -> bool {
        step matches Some(s) && matches!(
            s.instruction.opcode.builtin,
            Some(BuiltinOpcode::JAL)
        )
    }

    /// The fields that the chip writes.
    pub open spec fn owned() -> Set<Column> {
        set![
            Column::CarryFlag,
            Column::ValueA,
            Column::PcNext,
            Column::PcCarry,
        ]
    }

    /// The fields that the chip's identities speak of.
    pub open spec fn reads() -> Set<Column> {
        set![
            Column::IsJal,
            Column::ValueA,
            Column::ValueC,
            Column::Pc,
            Column::PcNext,
            Column::PcCarry,
            Column::CarryFlag,
        ]
    }

    /// What the row of `step` holds once the chip has filled it.
    pub open spec fn witnessed(traces: &Traces, row: int, step: Step) -> bool {
        &&& traces.field(row, Column::ValueA) == word_limbs(step.result_spec())
        &&& traces.field(row, Column::PcNext) == word_limbs(step.next_pc_spec())
        &&& is_sum_with_carries(
            word_limbs(step.pc),
            word_limbs(4),
            traces.field(row, Column::ValueA),
            traces.field(row, Column::CarryFlag),
        )
        &&& is_sum_with_carries(
            word_limbs(step.pc),
            word_limbs(step.value_c_spec()),
            traces.field(row, Column::PcNext),
            traces.field(row, Column::PcCarry),
        )
        &&& is_flag_word(traces.field(row, Column::CarryFlag))
        &&& is_flag_word(traces.field(row, Column::PcCarry))
    }

    /// On a jump, the first operand is the program counter plus four and the
    /// next program counter is the program counter plus the third operand,
    /// each with the carries of the row.
    pub open spec fn constraints(traces: &Traces, row: int) -> bool {
        traces.field(row, Column::IsJal)[0] == 1 ==> {
            &&& is_sum_with_carries(
                traces.field(row, Column::Pc),
                word_limbs(4),
                traces.field(row, Column::ValueA),
                traces.field(row, Column::CarryFlag),
            )
            &&& is_sum_with_carries(
                traces.field(row, Column::Pc),
                traces.field(row, Column::ValueC),
                traces.field(row, Column::PcNext),
                traces.field(row, Column::PcCarry),
            )
            &&& is_flag_word(traces.field(row, Column::CarryFlag))
            &&& is_flag_word(traces.field(row, Column::PcCarry))
        }
    }

    /// What the chip filled holds of a row for as long as the chip's fields
    /// stay as they are.
    pub proof fn lemma_witnessed_kept(before: &Traces, after: &Traces, row: int, step: Step)
        requires
            Self::witnessed(before, row, step),
            agree_on(before, after, row, Self::owned()),
        ensures
            Self::witnessed(after, row, step),
    {
        assert(Self::owned().contains(Column::CarryFlag));
        assert(Self::owned().contains(Column::ValueA));
        assert(Self::owned().contains(Column::PcNext));
        assert(Self::owned().contains(Column::PcCarry));
    }

    /// The identities hold of a row for as long as its fields stay as they are.
    pub proof fn lemma_constraints_kept(before: &Traces, after: &Traces, row: int)
        requires
            Self::constraints(before, row),
            agree_on(before, after, row, Self::reads()),
        ensures
            Self::constraints(after, row),
    {
        assert(Self::reads().contains(Column::IsJal));
        assert(Self::reads().contains(Column::ValueA));
        assert(Self::reads().contains(Column::ValueC));
        assert(Self::reads().contains(Column::Pc));
        assert(Self::reads().contains(Column::PcNext));
        assert(Self::reads().contains(Column::PcCarry));
        assert(Self::reads().contains(Column::CarryFlag));
    }

    /// The identities hold of a row that the CPU chip has filled after this chip.
    pub proof fn lemma_constraints(traces: &Traces, row: int, step: Option<Step>)
        requires
            CpuChip::filled(traces, row, step),
            step matches Some(s) ==> s.wf() && supports(s),
            Self::applies(step) ==> Self::witnessed(traces, row, step->0),
        ensures
            Self::constraints(traces, row),
    {
        reveal(CpuChip::filled);
        assert(is_flag(Column::IsJal));
        assert(traces.field(row, Column::IsJal) == seq![
            bit(Column::IsJal == selected_flag(step)),
        ]);
    }

    /// On a jump, writes the address of the following instruction to
    /// `ValueA` and the target of the jump to `PcNext`, each with its carries.
    /// Leaves the trace as it is on every other step.
    pub fn fill_main_trace(traces: &mut Traces, row_idx: usize, vm_step: &Option<Step>)
        requires
            old(traces).wf(),
            row_idx < old(traces).rows(),
            *vm_step matches Some(s) ==> s.wf(),
        ensures
            final(traces).wf(),
            final(traces).same_outside(old(traces), row_idx as int, Self::owned()),
            !Self::applies(*vm_step) ==> final(traces)@ == old(traces)@,
            Self::applies(*vm_step) ==> Self::witnessed(final(traces), row_idx as int, vm_step->0),
    {
        let step = match vm_step {
            Some(step) => step,
            None => {
                return ;
            },
        };
        match step.opcode() {
            Some(BuiltinOpcode::JAL) => {},
            _ => {
                return ;
            },
        }
        let pc = u32_to_word(step.pc);
        let offset = u32_to_word(step.get_value_c());
        let (link, link_carry) = add_with_carries(pc, u32_to_word(4));
        let (target, target_carry) = add_with_carries(pc, offset);
        traces.fill_columns_bools(row_idx, Column::CarryFlag, link_carry);
        traces.fill_columns_bytes(row_idx, Column::ValueA, link);
        traces.fill_columns_bools(row_idx, Column::PcCarry, target_carry);
        traces.fill_columns_bytes(row_idx, Column::PcNext, target);
        proof {
            lemma_limbs_of_word(link);
            lemma_limbs_of_word(target);
        }
    }
}

} // verus!
