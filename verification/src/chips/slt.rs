//! Signed comparison: `SLT` and `SLTI`.

use vstd::prelude::*;
use crate::chips::cpu::{is_flag, selected_flag, supports, CpuChip};
use crate::column::Column;
use crate::riscv::BuiltinOpcode;
use crate::step::Step;
use crate::trace::{agree_on, bit, word_limbs, Traces};
use crate::chips::utils::{
    compare_signed,
    is_difference_with_borrows,
    is_flag_word,
    lemma_limbs_of_word,
    signed_less,
    signs_witnessed,
    u32_to_word,
};

verus! {

/// Fills the result of a signed comparison, the subtraction and the sign bits that decide it.
pub struct SltChip;

impl SltChip {
    /// Whether the chip has work to do on `step`.
    pub open spec fn applies(step: Option<Step>) -> bool {
        step matches Some(s) && matches!(
            s.instruction.opcode.builtin,
            Some(BuiltinOpcode::SLT)
            | Some(BuiltinOpcode::SLTI)
        )
    }

    /// The fields that the chip writes.
    pub open spec fn owned() -> Set<Column> {
        set![
            Column::BorrowFlag,
            Column::Helper1,
            Column::Helper2,
            Column::SgnB,
            Column::SgnC,
            Column::LtFlag,
            Column::ValueA,
        ]
    }

    /// The fields that the chip's identities speak of.
    pub open spec fn reads() -> Set<Column> {
        set![
            Column::IsSlt,
            Column::ValueA,
            Column::ValueB,
            Column::ValueC,
            Column::BorrowFlag,
            Column::Helper1,
            Column::Helper2,
            Column::SgnB,
            Column::SgnC,
            Column::LtFlag,
        ]
    }

    /// What the row of `step` holds once the chip has filled it.
    pub open spec fn witnessed(traces: &Traces, row: int, step: Step) -> bool {
        &&& traces.field(row, Column::ValueA) == word_limbs(step.result_spec())
        &&& is_difference_with_borrows(
            word_limbs(step.value_b_spec()),
            word_limbs(step.value_c_spec()),
            traces.field(row, Column::Helper1),
            traces.field(row, Column::BorrowFlag),
        )
        &&& is_flag_word(traces.field(row, Column::BorrowFlag))
        &&& signs_witnessed(
            word_limbs(step.value_b_spec()),
            word_limbs(step.value_c_spec()),
            traces.field(row, Column::SgnB)[0],
            traces.field(row, Column::SgnC)[0],
            traces.field(row, Column::Helper2),
        )
        &&& traces.field(row, Column::LtFlag) == seq![
            signed_less(
                traces.field(row, Column::SgnB)[0],
                traces.field(row, Column::SgnC)[0],
                traces.field(row, Column::BorrowFlag)[3],
            ),
        ]
        &&& traces.field(row, Column::ValueA) == seq![
            traces.field(row, Column::LtFlag)[0],
            0nat,
            0nat,
            0nat,
        ]
    }

    /// On a signed comparison, `Helper1` and `BorrowFlag` hold the bytes and the
    /// borrows of the second operand less the third, `SgnB` and `SgnC` their
    /// sign bits, with the rests of their highest bytes in `Helper2`, and
    /// `LtFlag` and the first operand whether the second operand is the
    /// smaller one.
    pub open spec fn constraints(traces: &Traces, row: int) -> bool {
        traces.field(row, Column::IsSlt)[0] == 1 ==> {
            &&& is_difference_with_borrows(
                traces.field(row, Column::ValueB),
                traces.field(row, Column::ValueC),
                traces.field(row, Column::Helper1),
                traces.field(row, Column::BorrowFlag),
            )
            &&& is_flag_word(traces.field(row, Column::BorrowFlag))
            &&& signs_witnessed(
                traces.field(row, Column::ValueB),
                traces.field(row, Column::ValueC),
                traces.field(row, Column::SgnB)[0],
                traces.field(row, Column::SgnC)[0],
                traces.field(row, Column::Helper2),
            )
            &&& traces.field(row, Column::LtFlag) == seq![
                signed_less(
                    traces.field(row, Column::SgnB)[0],
                    traces.field(row, Column::SgnC)[0],
                    traces.field(row, Column::BorrowFlag)[3],
                ),
            ]
            &&& traces.field(row, Column::ValueA) == seq![
                traces.field(row, Column::LtFlag)[0],
                0nat,
                0nat,
                0nat,
            ]
        }
    }

    /// What the chip filled holds of a row for as long as the chip's fields
    /// stay as they are.
    pub proof fn lemma_witnessed_kept(before: &Traces, after: &Traces, row: int, step: Step)
        requires
            Self::witnessed(before, row, step),
            agree_on(before, after, row, Self::owned()),
        ensures
            Self::witnessed(after, row, step),
    {
        assert(Self::owned().contains(Column::BorrowFlag));
        assert(Self::owned().contains(Column::Helper1));
        assert(Self::owned().contains(Column::Helper2));
        assert(Self::owned().contains(Column::SgnB));
        assert(Self::owned().contains(Column::SgnC));
        assert(Self::owned().contains(Column::LtFlag));
        assert(Self::owned().contains(Column::ValueA));
    }

    /// The identities hold of a row for as long as its fields stay as they are.
    pub proof fn lemma_constraints_kept(before: &Traces, after: &Traces, row: int)
        requires
            Self::constraints(before, row),
            agree_on(before, after, row, Self::reads()),
        ensures
            Self::constraints(after, row),
    {
        assert(Self::reads().contains(Column::IsSlt));
        assert(Self::reads().contains(Column::ValueA));
        assert(Self::reads().contains(Column::ValueB));
        assert(Self::reads().contains(Column::ValueC));
        assert(Self::reads().contains(Column::BorrowFlag));
        assert(Self::reads().contains(Column::Helper1));
        assert(Self::reads().contains(Column::Helper2));
        assert(Self::reads().contains(Column::SgnB));
        assert(Self::reads().contains(Column::SgnC));
        assert(Self::reads().contains(Column::LtFlag));
    }

    /// The identities hold of a row that the CPU chip has filled after this chip.
    pub proof fn lemma_constraints(traces: &Traces, row: int, step: Option<Step>)
        requires
            CpuChip::filled(traces, row, step),
            step matches Some(s) ==> s.wf() && supports(s),
            Self::applies(step) ==> Self::witnessed(traces, row, step->0),
        ensures
            Self::constraints(traces, row),
    {
        reveal(CpuChip::filled);
        assert(is_flag(Column::IsSlt));
        assert(traces.field(row, Column::IsSlt) == seq![
            bit(Column::IsSlt == selected_flag(step)),
        ]);
    }

    /// On a signed comparison, writes 1 to `ValueA` and `LtFlag` if the second
    /// operand is smaller than the third, as numbers in two's complement, and
    /// 0 if not, with the subtraction and the sign bits that decide it. Leaves
    /// the trace as it is on every other step.
    pub fn fill_main_trace(traces: &mut Traces, row_idx: usize, vm_step: &Option<Step>)
        requires
            old(traces).wf(),
            row_idx < old(traces).rows(),
            *vm_step matches Some(s) ==> s.wf(),
        ensures
            final(traces).wf(),
            final(traces).same_outside(old(traces), row_idx as int, Self::owned()),
            !Self::applies(*vm_step) ==> final(traces)@ == old(traces)@,
            Self::applies(*vm_step) ==> Self::witnessed(final(traces), row_idx as int, vm_step->0),
    {
        let step = match vm_step {
            Some(step) => step,
            None => {
                return ;
            },
        };
        match step.opcode() {
            Some(BuiltinOpcode::SLT) | Some(BuiltinOpcode::SLTI) => {},
            _ => {
                return ;
            },
        }
        let value_b = u32_to_word(step.get_value_b());
        let value_c = u32_to_word(step.get_value_c());
        let compared = compare_signed(value_b, value_c);
        let less: u8 = if compared.less {
            1
        } else {
            0
        };
        traces.fill_columns_bools(row_idx, Column::BorrowFlag, compared.borrow);
        traces.fill_columns_bytes(row_idx, Column::Helper1, compared.diff);
        traces.fill_columns_bytes(row_idx, Column::Helper2, compared.rest);
        traces.fill_columns_bool(row_idx, Column::SgnB, compared.sign_x);
        traces.fill_columns_bool(row_idx, Column::SgnC, compared.sign_y);
        traces.fill_columns_bool(row_idx, Column::LtFlag, compared.less);
        traces.fill_columns_bytes(row_idx, Column::ValueA, [less, 0, 0, 0]);
        proof {
            lemma_limbs_of_word([less, 0, 0, 0]);
        }
    }
}

} // verus!
