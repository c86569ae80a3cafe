//! Branch on a signed comparison: `BLT`.

use vstd::prelude::*;
use crate::chips::cpu::{is_flag, selected_flag, supports, CpuChip};
use crate::column::Column;
use crate::riscv::BuiltinOpcode;
use crate::step::Step;
use crate::trace::{agree_on, bit, word_limbs, Traces};
use crate::chips::utils::{
    add_with_carries,
    compare_signed,
    is_difference_with_borrows,
    is_flag_word,
    is_sum_with_carries,
    lemma_limbs_of_word,
    signed_less,
    signs_witnessed,
    u32_to_word,
};

verus! {

/// Fills the comparison and the target of a `BLT`.
pub struct BltChip;

impl BltChip {
    /// Whether the chip has work to do on `step`.
    pub open spec fn applies(step: Option<Step>) -> bool {
        step matches Some(s) && matches!(
            s.instruction.opcode.builtin,
            Some(BuiltinOpcode::BLT)
        )
    }

    /// The fields that the chip writes.
    pub open spec fn owned() -> Set<Column> {
        set![
            Column::BorrowFlag,
            Column::Helper1,
            Column::Helper2,
            Column::SgnA,
            Column::SgnB,
            Column::LtFlag,
            Column::ValueA,
            Column::PcNext,
            Column::PcCarry,
        ]
    }

    /// The fields that the chip's identities speak of.
    pub open spec fn reads() -> Set<Column> {
        set![
            Column::IsBlt,
            Column::ValueA,
            Column::ValueB,
            Column::ValueC,
            Column::Pc,
            Column::PcNext,
            Column::PcCarry,
            Column::BorrowFlag,
            Column::Helper1,
            Column::Helper2,
            Column::SgnA,
            Column::SgnB,
            Column::LtFlag,
        ]
    }

    /// What the row of `step` holds once the chip has filled it.
    pub open spec fn witnessed(traces: &Traces, row: int, step: Step) -> bool {
        &&& traces.field(row, Column::ValueA) == word_limbs(step.result_spec())
        &&& traces.field(row, Column::PcNext) == word_limbs(step.next_pc_spec())
        &&& is_difference_with_borrows(
            word_limbs(step.value_a_spec()),
            word_limbs(step.value_b_spec()),
            traces.field(row, Column::Helper1),
            traces.field(row, Column::BorrowFlag),
        )
        &&& is_flag_word(traces.field(row, Column::BorrowFlag))
        &&& signs_witnessed(
            word_limbs(step.value_a_spec()),
            word_limbs(step.value_b_spec()),
            traces.field(row, Column::SgnA)[0],
            traces.field(row, Column::SgnB)[0],
            traces.field(row, Column::Helper2),
        )
        &&& traces.field(row, Column::LtFlag) == seq![
            signed_less(
                traces.field(row, Column::SgnA)[0],
                traces.field(row, Column::SgnB)[0],
                traces.field(row, Column::BorrowFlag)[3],
            ),
        ]
        &&& is_sum_with_carries(
            word_limbs(step.pc),
            if traces.field(row, Column::LtFlag)[0] == 1 {
                word_limbs(step.value_c_spec())
            } else {
                word_limbs(4)
            },
            traces.field(row, Column::PcNext),
            traces.field(row, Column::PcCarry),
        )
        &&& is_flag_word(traces.field(row, Column::PcCarry))
    }

    /// On a `BLT`, `Helper1` and `BorrowFlag` hold the bytes and the
    /// borrows of the first operand less the second, `SgnA` and `SgnB` their
    /// sign bits, with the rests of their highest bytes in `Helper2`, `LtFlag`
    /// whether the first operand is the smaller one, and the next program
    /// counter is the program counter plus the third operand where
    /// the first operand is the smaller one, and plus four where it is not, with the carries of the row.
    pub open spec fn constraints(traces: &Traces, row: int) -> bool {
        traces.field(row, Column::IsBlt)[0] == 1 ==> {
            &&& is_difference_with_borrows(
                traces.field(row, Column::ValueA),
                traces.field(row, Column::ValueB),
                traces.field(row, Column::Helper1),
                traces.field(row, Column::BorrowFlag),
            )
            &&& is_flag_word(traces.field(row, Column::BorrowFlag))
            &&& signs_witnessed(
                traces.field(row, Column::ValueA),
                traces.field(row, Column::ValueB),
                traces.field(row, Column::SgnA)[0],
                traces.field(row, Column::SgnB)[0],
                traces.field(row, Column::Helper2),
            )
            &&& traces.field(row, Column::LtFlag) == seq![
                signed_less(
                    traces.field(row, Column::SgnA)[0],
                    traces.field(row, Column::SgnB)[0],
                    traces.field(row, Column::BorrowFlag)[3],
                ),
            ]
            &&& is_sum_with_carries(
                traces.field(row, Column::Pc),
                if traces.field(row, Column::LtFlag)[0] == 1 {
                    traces.field(row, Column::ValueC)
                } else {
                    word_limbs(4)
                },
                traces.field(row, Column::PcNext),
                traces.field(row, Column::PcCarry),
            )
            &&& is_flag_word(traces.field(row, Column::PcCarry))
        }
    }

    /// What the chip filled holds of a row for as long as the chip's fields
    /// stay as they are.
    pub proof fn lemma_witnessed_kept(before: &Traces, after: &Traces, row: int, step: Step)
        requires
            Self::witnessed(before, row, step),
            agree_on(before, after, row, Self::owned()),
        ensures
            Self::witnessed(after, row, step),
    {
        assert(Self::owned().contains(Column::BorrowFlag));
        assert(Self::owned().contains(Column::Helper1));
        assert(Self::owned().contains(Column::Helper2));
        assert(Self::owned().contains(Column::SgnA));
        assert(Self::owned().contains(Column::SgnB));
        assert(Self::owned().contains(Column::LtFlag));
        assert(Self::owned().contains(Column::ValueA));
        assert(Self::owned().contains(Column::PcNext));
        assert(Self::owned().contains(Column::PcCarry));
    }

    /// The identities hold of a row for as long as its fields stay as they are.
    pub proof fn lemma_constraints_kept(before: &Traces, after: &Traces, row: int)
        requires
            Self::constraints(before, row),
            agree_on(before, after, row, Self::reads()),
        ensures
            Self::constraints(after, row),
    {
        assert(Self::reads().contains(Column::IsBlt));
        assert(Self::reads().contains(Column::ValueA));
        assert(Self::reads().contains(Column::ValueB));
        assert(Self::reads().contains(Column::ValueC));
        assert(Self::reads().contains(Column::Pc));
        assert(Self::reads().contains(Column::PcNext));
        assert(Self::reads().contains(Column::PcCarry));
        assert(Self::reads().contains(Column::BorrowFlag));
        assert(Self::reads().contains(Column::Helper1));
        assert(Self::reads().contains(Column::Helper2));
        assert(Self::reads().contains(Column::SgnA));
        assert(Self::reads().contains(Column::SgnB));
        assert(Self::reads().contains(Column::LtFlag));
    }

    /// The identities hold of a row that the CPU chip has filled after this chip.
    pub proof fn lemma_constraints(traces: &Traces, row: int, step: Option<Step>)
        requires
            CpuChip::filled(traces, row, step),
            step matches Some(s) ==> s.wf() && supports(s),
            Self::applies(step) ==> Self::witnessed(traces, row, step->0),
        ensures
            Self::constraints(traces, row),
    {
        reveal(CpuChip::filled);
        assert(is_flag(Column::IsBlt));
        assert(traces.field(row, Column::IsBlt) == seq![
            bit(Column::IsBlt == selected_flag(step)),
        ]);
    }

    /// On a `BLT`, writes the value of the register `op_a` to `ValueA`,
    /// the comparison of the two registers as numbers in two's complement to
    /// the fields of the comparison, and the address that execution goes on
    /// at to `PcNext`, with its carries. Leaves the trace as it is on every
    /// other step.
    pub fn fill_main_trace(traces: &mut Traces, row_idx: usize, vm_step: &Option<Step>)
        requires
            old(traces).wf(),
            row_idx < old(traces).rows(),
            *vm_step matches Some(s) ==> s.wf(),
        ensures
            final(traces).wf(),
            final(traces).same_outside(old(traces), row_idx as int, Self::owned()),
            !Self::applies(*vm_step) ==> final(traces)@ == old(traces)@,
            Self::applies(*vm_step) ==> Self::witnessed(final(traces), row_idx as int, vm_step->0),
    {
        let step = match vm_step {
            Some(step) => step,
            None => {
                return ;
            },
        };
        match step.opcode() {
            Some(BuiltinOpcode::BLT) => {},
            _ => {
                return ;
            },
        }
        let value_a = u32_to_word(step.get_value_a());
        let value_b = u32_to_word(step.get_value_b());
        let compared = compare_signed(value_a, value_b);
        let offset = if compared.less {
            step.get_value_c()
        } else {
            4
        };
        let (target, target_carry) = add_with_carries(u32_to_word(step.pc), u32_to_word(offset));
        traces.fill_columns_bools(row_idx, Column::BorrowFlag, compared.borrow);
        traces.fill_columns_bytes(row_idx, Column::Helper1, compared.diff);
        traces.fill_columns_bytes(row_idx, Column::Helper2, compared.rest);
        traces.fill_columns_bool(row_idx, Column::SgnA, compared.sign_x);
        traces.fill_columns_bool(row_idx, Column::SgnB, compared.sign_y);
        traces.fill_columns_bool(row_idx, Column::LtFlag, compared.less);
        traces.fill_columns_bytes(row_idx, Column::ValueA, value_a);
        traces.fill_columns_bools(row_idx, Column::PcCarry, target_carry);
        traces.fill_columns_bytes(row_idx, Column::PcNext, target);
        proof {
            lemma_limbs_of_word(target);
        }
    }
}

} // verus!
