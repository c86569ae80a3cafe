//! Branch on equality: `BEQ`.

use vstd::prelude::*;
use crate::chips::cpu::{is_flag, selected_flag, supports, CpuChip};
use crate::column::Column;
use crate::riscv::BuiltinOpcode;
use crate::step::Step;
use crate::trace::{agree_on, bit, word_limbs, Traces};
use crate::chips::utils::{
    add_with_carries,
    bits,
    differ_witness,
    halves_compared,
    is_flag_word,
    is_sum_with_carries,
    lemma_limbs_of_word,
    limbs,
    u32_to_word,
    BoolWord,
    Word,
};
use crate::field::BaseField;

verus! {

/// Fills the comparison and the target of a `BEQ`.
pub struct BeqChip;

impl BeqChip {
    /// Whether the chip has work to do on `step`.
    pub open spec fn applies(step: Option<Step>) -> bool {
        step matches Some(s) && matches!(
            s.instruction.opcode.builtin,
            Some(BuiltinOpcode::BEQ)
        )
    }

    /// The fields that the chip writes.
    pub open spec fn owned() -> Set<Column> {
        set![
            Column::Neq12,
            Column::Neq34,
            Column::Neq,
            Column::Neq12Aux,
            Column::Neq34Aux,
            Column::Neq12AuxInv,
            Column::Neq34AuxInv,
            Column::ValueA,
            Column::PcNext,
            Column::PcCarry,
        ]
    }

    /// The fields that the chip's identities speak of.
    pub open spec fn reads() -> Set<Column> {
        set![
            Column::IsBeq,
            Column::ValueA,
            Column::ValueB,
            Column::ValueC,
            Column::Pc,
            Column::PcNext,
            Column::PcCarry,
            Column::Neq12,
            Column::Neq34,
            Column::Neq,
            Column::Neq12Aux,
            Column::Neq34Aux,
            Column::Neq12AuxInv,
            Column::Neq34AuxInv,
        ]
    }

    /// What the row of `step` holds once the chip has filled it.
    pub open spec fn witnessed(traces: &Traces, row: int, step: Step) -> bool {
        &&& traces.field(row, Column::ValueA) == word_limbs(step.result_spec())
        &&& traces.field(row, Column::PcNext) == word_limbs(step.next_pc_spec())
        &&& traces.field(row, Column::Neq) == seq![
            bit(step.value_a_spec() != step.value_b_spec()),
        ]
        &&& halves_compared(
            traces,
            row,
            word_limbs(step.value_a_spec()),
            word_limbs(step.value_b_spec()),
        )
        &&& is_sum_with_carries(
            word_limbs(step.pc),
            if traces.field(row, Column::Neq)[0] == 0 {
                word_limbs(step.value_c_spec())
            } else {
                word_limbs(4)
            },
            traces.field(row, Column::PcNext),
            traces.field(row, Column::PcCarry),
        )
        &&& is_flag_word(traces.field(row, Column::PcCarry))
    }

    /// On a `BEQ`, `Neq12` and `Neq34` are the witnessed flags of
    /// whether the lower and the upper halves of the first two operands
    /// differ, `Neq` is 1 where either does, and the next program counter is
    /// the program counter plus the third operand where the first two operands are equal,
    /// and plus four where they do not, with the carries of the row.
    pub open spec fn constraints(traces: &Traces, row: int) -> bool {
        traces.field(row, Column::IsBeq)[0] == 1 ==> {
            &&& halves_compared(
                traces,
                row,
                traces.field(row, Column::ValueA),
                traces.field(row, Column::ValueB),
            )
            &&& is_sum_with_carries(
                traces.field(row, Column::Pc),
                if traces.field(row, Column::Neq)[0] == 0 {
                    traces.field(row, Column::ValueC)
                } else {
                    word_limbs(4)
                },
                traces.field(row, Column::PcNext),
                traces.field(row, Column::PcCarry),
            )
            &&& is_flag_word(traces.field(row, Column::PcCarry))
        }
    }

    /// What the chip filled holds of a row for as long as the chip's fields
    /// stay as they are.
    pub proof fn lemma_witnessed_kept(before: &Traces, after: &Traces, row: int, step: Step)
        requires
            Self::witnessed(before, row, step),
            agree_on(before, after, row, Self::owned()),
        ensures
            Self::witnessed(after, row, step),
    {
        assert(Self::owned().contains(Column::Neq12));
        assert(Self::owned().contains(Column::Neq34));
        assert(Self::owned().contains(Column::Neq));
        assert(Self::owned().contains(Column::Neq12Aux));
        assert(Self::owned().contains(Column::Neq34Aux));
        assert(Self::owned().contains(Column::Neq12AuxInv));
        assert(Self::owned().contains(Column::Neq34AuxInv));
        assert(Self::owned().contains(Column::ValueA));
        assert(Self::owned().contains(Column::PcNext));
        assert(Self::owned().contains(Column::PcCarry));
    }

    /// The identities hold of a row for as long as its fields stay as they are.
    pub proof fn lemma_constraints_kept(before: &Traces, after: &Traces, row: int)
        requires
            Self::constraints(before, row),
            agree_on(before, after, row, Self::reads()),
        ensures
            Self::constraints(after, row),
    {
        assert(Self::reads().contains(Column::IsBeq));
        assert(Self::reads().contains(Column::ValueA));
        assert(Self::reads().contains(Column::ValueB));
        assert(Self::reads().contains(Column::ValueC));
        assert(Self::reads().contains(Column::Pc));
        assert(Self::reads().contains(Column::PcNext));
        assert(Self::reads().contains(Column::PcCarry));
        assert(Self::reads().contains(Column::Neq12));
        assert(Self::reads().contains(Column::Neq34));
        assert(Self::reads().contains(Column::Neq));
        assert(Self::reads().contains(Column::Neq12Aux));
        assert(Self::reads().contains(Column::Neq34Aux));
        assert(Self::reads().contains(Column::Neq12AuxInv));
        assert(Self::reads().contains(Column::Neq34AuxInv));
    }

    /// The identities hold of a row that the CPU chip has filled after this chip.
    pub proof fn lemma_constraints(traces: &Traces, row: int, step: Option<Step>)
        requires
            CpuChip::filled(traces, row, step),
            step matches Some(s) ==> s.wf() && supports(s),
            Self::applies(step) ==> Self::witnessed(traces, row, step->0),
        ensures
            Self::constraints(traces, row),
    {
        reveal(CpuChip::filled);
        assert(is_flag(Column::IsBeq));
        assert(traces.field(row, Column::IsBeq) == seq![
            bit(Column::IsBeq == selected_flag(step)),
        ]);
    }

    /// Writes the comparison, the first operand and the target to `row_idx`.
    fn write(
        traces: &mut Traces,
        row_idx: usize,
        flags: (bool, bool, bool),
        low: (BaseField, BaseField),
        high: (BaseField, BaseField),
        value_a: Word,
        target: Word,
        target_carry: BoolWord,
    )
        requires
            old(traces).wf(),
            row_idx < old(traces).rows(),
        ensures
            final(traces).wf(),
            final(traces).same_outside(old(traces), row_idx as int, Self::owned()),
            final(traces).field(row_idx as int, Column::Neq12) == seq![bit(flags.0)],
            final(traces).field(row_idx as int, Column::Neq34) == seq![bit(flags.1)],
            final(traces).field(row_idx as int, Column::Neq) == seq![bit(flags.2)],
            final(traces).field(row_idx as int, Column::Neq12Aux) == seq![low.0@],
            final(traces).field(row_idx as int, Column::Neq12AuxInv) == seq![low.1@],
            final(traces).field(row_idx as int, Column::Neq34Aux) == seq![high.0@],
            final(traces).field(row_idx as int, Column::Neq34AuxInv) == seq![high.1@],
            final(traces).field(row_idx as int, Column::ValueA) == limbs(value_a),
            final(traces).field(row_idx as int, Column::PcCarry) == bits(target_carry),
            final(traces).field(row_idx as int, Column::PcNext) == limbs(target),
    {
        traces.fill_columns_bool(row_idx, Column::Neq12, flags.0);
        traces.fill_columns_bool(row_idx, Column::Neq34, flags.1);
        traces.fill_columns_bool(row_idx, Column::Neq, flags.2);
        traces.fill_columns_value(row_idx, Column::Neq12Aux, low.0);
        traces.fill_columns_value(row_idx, Column::Neq34Aux, high.0);
        traces.fill_columns_value(row_idx, Column::Neq12AuxInv, low.1);
        traces.fill_columns_value(row_idx, Column::Neq34AuxInv, high.1);
        traces.fill_columns_bytes(row_idx, Column::ValueA, value_a);
        traces.fill_columns_bools(row_idx, Column::PcCarry, target_carry);
        traces.fill_columns_bytes(row_idx, Column::PcNext, target);
    }

    /// On a `BEQ`, writes the value of the register `op_a` to `ValueA`,
    /// whether the two registers differ, with the witnesses of that, to the
    /// `Neq` fields, and the address that execution goes on at to `PcNext`,
    /// with its carries. Leaves the trace as it is on every other step.
    pub fn fill_main_trace(traces: &mut Traces, row_idx: usize, vm_step: &Option<Step>)
        requires
            old(traces).wf(),
            row_idx < old(traces).rows(),
            *vm_step matches Some(s) ==> s.wf(),
        ensures
            final(traces).wf(),
            final(traces).same_outside(old(traces), row_idx as int, Self::owned()),
            !Self::applies(*vm_step) ==> final(traces)@ == old(traces)@,
            Self::applies(*vm_step) ==> Self::witnessed(final(traces), row_idx as int, vm_step->0),
    {
        let step = match vm_step {
            Some(step) => step,
            None => {
                return ;
            },
        };
        match step.opcode() {
            Some(BuiltinOpcode::BEQ) => {},
            _ => {
                return ;
            },
        }
        let value_a = u32_to_word(step.get_value_a());
        let value_b = u32_to_word(step.get_value_b());
        let (low, low_aux, low_inv) = differ_witness(
            value_a[0] as u32 + 0x100 * (value_a[1] as u32),
            value_b[0] as u32 + 0x100 * (value_b[1] as u32),
        );
        let (high, high_aux, high_inv) = differ_witness(
            value_a[2] as u32 + 0x100 * (value_a[3] as u32),
            value_b[2] as u32 + 0x100 * (value_b[3] as u32),
        );
        let differ = low || high;
        let offset = if !differ {
            step.get_value_c()
        } else {
            4
        };
        let (target, target_carry) = add_with_carries(u32_to_word(step.pc), u32_to_word(offset));
        Self::write(
            traces,
            row_idx,
            (low, high, differ),
            (low_aux, low_inv),
            (high_aux, high_inv),
            value_a,
            target,
            target_carry,
        );
        proof {
            lemma_limbs_of_word(target);
            let row = row_idx as int;
            let (l, h, d) = (bit(low), bit(high), bit(differ));
            assert(d + l * h == l + h) by (nonlinear_arith)
                requires
                    l <= 1,
                    h <= 1,
                    l == 0 && h == 0 ==> d == 0,
                    l + h >= 1 ==> d == 1,
            ;
            assert(step.result_spec() == step.value_a_spec());
            assert(differ == (step.value_a_spec() != step.value_b_spec()));
            assert(traces.field(row, Column::ValueA) == word_limbs(step.result_spec()));
            assert(traces.field(row, Column::PcNext) == word_limbs(step.next_pc_spec()));
            assert(halves_compared(
                traces,
                row,
                word_limbs(step.value_a_spec()),
                word_limbs(step.value_b_spec()),
            ));
        }
    }
}

} // verus!
