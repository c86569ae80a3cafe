//! The CPU chip: instruction flags, program counter, operands, and the value
//! that is written back to the destination register.

use vstd::prelude::*;
use crate::chips::utils::{add_with_carries, is_sum_with_carries, u32_to_word};
use crate::column::Column;
use crate::field::{BaseField, P};
use crate::riscv::BuiltinOpcode;
use crate::step::Step;
use crate::trace::{bit, declared_between, word_limbs, Traces};

verus! {

/// The flag that marks the rows of `opcode`. `FENCE` has none: the machine
/// does not arithmetize it.
pub open spec fn flag_of(opcode: BuiltinOpcode) -> Option<Column> {
    match opcode {
        BuiltinOpcode::ADD => Some(Column::IsAdd),
        BuiltinOpcode::ADDI => Some(Column::IsAdd),
        BuiltinOpcode::SUB => Some(Column::IsSub),
        BuiltinOpcode::SLL => Some(Column::IsSll),
        BuiltinOpcode::SLLI => Some(Column::IsSll),
        BuiltinOpcode::SLT => Some(Column::IsSlt),
        BuiltinOpcode::SLTI => Some(Column::IsSlt),
        BuiltinOpcode::SLTU => Some(Column::IsSltu),
        BuiltinOpcode::SLTIU => Some(Column::IsSltu),
        BuiltinOpcode::XOR => Some(Column::IsXor),
        BuiltinOpcode::XORI => Some(Column::IsXor),
        BuiltinOpcode::SRL => Some(Column::IsSrl),
        BuiltinOpcode::SRLI => Some(Column::IsSrl),
        BuiltinOpcode::SRA => Some(Column::IsSra),
        BuiltinOpcode::SRAI => Some(Column::IsSra),
        BuiltinOpcode::OR => Some(Column::IsOr),
        BuiltinOpcode::ORI => Some(Column::IsOr),
        BuiltinOpcode::AND => Some(Column::IsAnd),
        BuiltinOpcode::ANDI => Some(Column::IsAnd),
        BuiltinOpcode::LB => Some(Column::IsLb),
        BuiltinOpcode::LH => Some(Column::IsLh),
        BuiltinOpcode::LW => Some(Column::IsLw),
        BuiltinOpcode::LBU => Some(Column::IsLbu),
        BuiltinOpcode::LHU => Some(Column::IsLhu),
        BuiltinOpcode::JALR => Some(Column::IsJalr),
        BuiltinOpcode::ECALL => Some(Column::IsEcall),
        BuiltinOpcode::EBREAK => Some(Column::IsEbreak),
        BuiltinOpcode::SB => Some(Column::IsSb),
        BuiltinOpcode::SH => Some(Column::IsSh),
        BuiltinOpcode::SW => Some(Column::IsSw),
        BuiltinOpcode::BEQ => Some(Column::IsBeq),
        BuiltinOpcode::BNE => Some(Column::IsBne),
        BuiltinOpcode::BLT => Some(Column::IsBlt),
        BuiltinOpcode::BGE => Some(Column::IsBge),
        BuiltinOpcode::BLTU => Some(Column::IsBltu),
        BuiltinOpcode::BGEU => Some(Column::IsBgeu),
        BuiltinOpcode::LUI => Some(Column::IsLui),
        BuiltinOpcode::AUIPC => Some(Column::IsAuipc),
        BuiltinOpcode::JAL => Some(Column::IsJal),
        BuiltinOpcode::FENCE => None,
    }
}

/// The flag that marks the rows of `opcode`, if the machine arithmetizes it.
pub fn flag_column(opcode: BuiltinOpcode) -> (flag: Option<Column>)
    ensures
        flag == flag_of(opcode),
        flag matches Some(col) ==> is_flag(col),
{
    match opcode {
        BuiltinOpcode::ADD => Some(Column::IsAdd),
        BuiltinOpcode::ADDI => Some(Column::IsAdd),
        BuiltinOpcode::SUB => Some(Column::IsSub),
        BuiltinOpcode::SLL => Some(Column::IsSll),
        BuiltinOpcode::SLLI => Some(Column::IsSll),
        BuiltinOpcode::SLT => Some(Column::IsSlt),
        BuiltinOpcode::SLTI => Some(Column::IsSlt),
        BuiltinOpcode::SLTU => Some(Column::IsSltu),
        BuiltinOpcode::SLTIU => Some(Column::IsSltu),
        BuiltinOpcode::XOR => Some(Column::IsXor),
        BuiltinOpcode::XORI => Some(Column::IsXor),
        BuiltinOpcode::SRL => Some(Column::IsSrl),
        BuiltinOpcode::SRLI => Some(Column::IsSrl),
        BuiltinOpcode::SRA => Some(Column::IsSra),
        BuiltinOpcode::SRAI => Some(Column::IsSra),
        BuiltinOpcode::OR => Some(Column::IsOr),
        BuiltinOpcode::ORI => Some(Column::IsOr),
        BuiltinOpcode::AND => Some(Column::IsAnd),
        BuiltinOpcode::ANDI => Some(Column::IsAnd),
        BuiltinOpcode::LB => Some(Column::IsLb),
        BuiltinOpcode::LH => Some(Column::IsLh),
        BuiltinOpcode::LW => Some(Column::IsLw),
        BuiltinOpcode::LBU => Some(Column::IsLbu),
        BuiltinOpcode::LHU => Some(Column::IsLhu),
        BuiltinOpcode::JALR => Some(Column::IsJalr),
        BuiltinOpcode::ECALL => Some(Column::IsEcall),
        BuiltinOpcode::EBREAK => Some(Column::IsEbreak),
        BuiltinOpcode::SB => Some(Column::IsSb),
        BuiltinOpcode::SH => Some(Column::IsSh),
        BuiltinOpcode::SW => Some(Column::IsSw),
        BuiltinOpcode::BEQ => Some(Column::IsBeq),
        BuiltinOpcode::BNE => Some(Column::IsBne),
        BuiltinOpcode::BLT => Some(Column::IsBlt),
        BuiltinOpcode::BGE => Some(Column::IsBge),
        BuiltinOpcode::BLTU => Some(Column::IsBltu),
        BuiltinOpcode::BGEU => Some(Column::IsBgeu),
        BuiltinOpcode::LUI => Some(Column::IsLui),
        BuiltinOpcode::AUIPC => Some(Column::IsAuipc),
        BuiltinOpcode::JAL => Some(Column::IsJal),
        BuiltinOpcode::FENCE => None,
    }
}

/// Whether `col` is one of the flags of which every row sets exactly one.
pub open spec fn is_flag(col: Column) -> bool {
    Column::IsAdd.ordinal() <= col.ordinal() <= Column::IsPadding.ordinal()
}

/// Whether `opcode` decides itself where execution goes on.
pub open spec fn is_control_flow(opcode: BuiltinOpcode) -> bool {
    matches!(
        opcode,
        BuiltinOpcode::BEQ
            | BuiltinOpcode::BNE
            | BuiltinOpcode::BLT
            | BuiltinOpcode::BGE
            | BuiltinOpcode::BLTU
            | BuiltinOpcode::BGEU
            | BuiltinOpcode::JAL
            | BuiltinOpcode::JALR
    )
}

/// Whether the chips can arithmetize `step`: its operation is one that the
/// machine implements itself and that has a flag.
pub open spec fn supports(step: Step) -> bool {
    step.instruction.opcode.builtin matches Some(opcode) && flag_of(opcode) is Some
}

/// The flag that the row of `step` sets; a row without a step is padding.
pub open spec fn selected_flag(step: Option<Step>) -> Column {
    match step {
        Some(s) => flag_of(s.instruction.opcode.builtin->0)->0,
        None => Column::IsPadding,
    }
}

/// Whether `opcode` decides itself where execution goes on.
pub fn is_control_flow_opcode(opcode: BuiltinOpcode) -> (control_flow: bool)
    ensures
        control_flow == is_control_flow(opcode),
{
    match opcode {
        BuiltinOpcode::BEQ
        | BuiltinOpcode::BNE
        | BuiltinOpcode::BLT
        | BuiltinOpcode::BGE
        | BuiltinOpcode::BLTU
        | BuiltinOpcode::BGEU
        | BuiltinOpcode::JAL
        | BuiltinOpcode::JALR => true,
        _ => false,
    }
}

/// Whether the chips can arithmetize `step`.
pub fn is_supported(step: &Step) -> (supported: bool)
    ensures
        supported == supports(*step),
{
    match step.opcode() {
        Some(opcode) => flag_column(opcode).is_some(),
        None => false,
    }
}

/// Four zeros.
pub open spec fn zero_word() -> Seq<nat> {
    seq![0nat, 0nat, 0nat, 0nat]
}

/// Fills what every row holds whatever its instruction.
pub struct CpuChip;

impl CpuChip {
    /// The fields that the chip writes.
    pub open spec fn owned() -> Set<Column> {
        declared_between(Column::IsAdd, Column::IsPadding).union(
            set![
                Column::Pc,
                Column::PcNext,
                Column::PcCarry,
                Column::InstrVal,
                Column::OpA,
                Column::OpB,
                Column::OpC,
                Column::ImmC,
                Column::ValueB,
                Column::ValueC,
                Column::ValueAEffective,
                Column::ValueAEffectiveFlag,
                Column::ValueAEffectiveFlagAux,
                Column::ValueAEffectiveFlagAuxInv,
            ],
        )
    }

    /// The fields that the chip writes in the row of `step`: all of its own,
    /// but for the next address and its carries in the row of a branch or a
    /// jump, which the chip of that instruction fills.
    pub open spec fn written(step: Option<Step>) -> Set<Column> {
        if step matches Some(s) && is_control_flow(s.instruction.opcode.builtin->0) {
            Self::owned().remove(Column::PcNext).remove(Column::PcCarry)
        } else {
            Self::owned()
        }
    }

    /// Exactly one flag of `row` is 1, namely `selected`, and all others are 0.
    pub open spec fn one_hot(traces: &Traces, row: int, selected: Column) -> bool {
        &&& is_flag(selected)
        &&& forall|col: Column|
            is_flag(col) ==> #[trigger] traces.field(row, col) == seq![bit(col == selected)]
    }

    /// The identities that the chip declares for `row`.
    #[verifier::opaque]
    pub open spec fn constraints(traces: &Traces, row: int) -> bool {
        let flag = traces.field(row, Column::ValueAEffectiveFlag)[0];
        let op_a = traces.field(row, Column::OpA)[0];
        let aux = traces.field(row, Column::ValueAEffectiveFlagAux)[0];
        let aux_inv = traces.field(row, Column::ValueAEffectiveFlagAuxInv)[0];
        let sequential = traces.field(row, Column::IsPadding)[0] + traces.field(
            row,
            Column::IsBeq,
        )[0] + traces.field(row, Column::IsBne)[0] + traces.field(row, Column::IsBlt)[0]
            + traces.field(row, Column::IsBge)[0] + traces.field(row, Column::IsBltu)[0]
            + traces.field(row, Column::IsBgeu)[0] + traces.field(row, Column::IsJal)[0]
            + traces.field(row, Column::IsJalr)[0] == 0;
        &&& exists|selected: Column| Self::one_hot(traces, row, selected)
        &&& sequential ==> is_sum_with_carries(
            traces.field(row, Column::Pc),
            word_limbs(4),
            traces.field(row, Column::PcNext),
            traces.field(row, Column::PcCarry),
        )
        &&& flag <= 1
        &&& (aux * aux_inv) % (P as nat) == 1
        &&& (op_a * aux) % (P as nat) == flag
        &&& forall|i: int|
            0 <= i < 4 ==> #[trigger] traces.field(row, Column::ValueAEffective)[i] == flag
                * traces.field(row, Column::ValueA)[i]
    }

    /// What the row of `step` holds once the chip has filled it.
    #[verifier::opaque]
    pub open spec fn filled(traces: &Traces, row: int, step: Option<Step>) -> bool {
        &&& Self::one_hot(traces, row, selected_flag(step))
        &&& Self::constraints(traces, row)
        &&& match step {
            Some(s) => {
                &&& traces.field(row, Column::Pc) == word_limbs(s.pc)
                &&& traces.field(row, Column::PcNext) == word_limbs(s.next_pc_spec())
                &&& !is_control_flow(s.instruction.opcode.builtin->0) ==> is_sum_with_carries(
                    traces.field(row, Column::Pc),
                    word_limbs(4),
                    traces.field(row, Column::PcNext),
                    traces.field(row, Column::PcCarry),
                )
                &&& traces.field(row, Column::InstrVal) == word_limbs(s.raw_instruction)
                &&& traces.field(row, Column::OpA) == seq![s.instruction.op_a.index_spec()]
                &&& traces.field(row, Column::OpB) == seq![s.instruction.op_b.index_spec()]
                &&& traces.field(row, Column::OpC) == seq![(s.instruction.op_c % P) as nat]
                &&& traces.field(row, Column::ImmC) == seq![bit(s.is_value_c_imm_spec())]
                &&& traces.field(row, Column::ValueB) == word_limbs(s.value_b_spec())
                &&& traces.field(row, Column::ValueC) == word_limbs(s.value_c_spec())
                &&& traces.field(row, Column::ValueAEffectiveFlag) == seq![
                    bit(s.value_a_effective_flag_spec()),
                ]
                &&& traces.field(row, Column::ValueAEffective) == if s.value_a_effective_flag_spec() {
                    traces.field(row, Column::ValueA)
                } else {
                    zero_word()
                }
            },
            None => {
                &&& traces.field(row, Column::Pc) == zero_word()
                &&& traces.field(row, Column::PcNext) == zero_word()
                &&& traces.field(row, Column::PcCarry) == zero_word()
                &&& traces.field(row, Column::InstrVal) == zero_word()
                &&& traces.field(row, Column::OpA) == seq![0nat]
                &&& traces.field(row, Column::OpB) == seq![0nat]
                &&& traces.field(row, Column::OpC) == seq![0nat]
                &&& traces.field(row, Column::ImmC) == seq![0nat]
                &&& traces.field(row, Column::ValueB) == zero_word()
                &&& traces.field(row, Column::ValueC) == zero_word()
                &&& traces.field(row, Column::ValueAEffectiveFlag) == seq![0nat]
                &&& traces.field(row, Column::ValueAEffective) == zero_word()
            },
        }
    }

    /// The fields that the chip's statements about a row speak of: its own and `ValueA`.
    pub open spec fn reads() -> Set<Column> {
        Self::owned().insert(Column::ValueA)
    }

    /// What the chip filled holds of a row for as long as its fields stay as they are.
    pub proof fn lemma_filled_kept(before: &Traces, after: &Traces, row: int, step: Option<Step>)
        requires
            Self::filled(before, row, step),
            crate::trace::agree_on(before, after, row, Self::reads()),
        ensures
            Self::filled(after, row, step),
    {
        reveal(CpuChip::filled);
        reveal(CpuChip::constraints);
        let selected = choose|selected: Column| Self::one_hot(before, row, selected);
        assert forall|col: Column| is_flag(col) implies #[trigger] after.field(row, col)
            == before.field(row, col) by {
            assert(declared_between(Column::IsAdd, Column::IsPadding).contains(col));
            assert(Self::reads().contains(col));
        }
        assert(Self::one_hot(after, row, selected));
        assert(Self::one_hot(after, row, selected_flag(step)));
        assert(Self::reads().contains(Column::Pc));
        assert(Self::reads().contains(Column::PcNext));
        assert(Self::reads().contains(Column::PcCarry));
        assert(Self::reads().contains(Column::InstrVal));
        assert(Self::reads().contains(Column::OpA));
        assert(Self::reads().contains(Column::OpB));
        assert(Self::reads().contains(Column::OpC));
        assert(Self::reads().contains(Column::ImmC));
        assert(Self::reads().contains(Column::ValueA));
        assert(Self::reads().contains(Column::ValueB));
        assert(Self::reads().contains(Column::ValueC));
        assert(Self::reads().contains(Column::ValueAEffective));
        assert(Self::reads().contains(Column::ValueAEffectiveFlag));
        assert(Self::reads().contains(Column::ValueAEffectiveFlagAux));
        assert(Self::reads().contains(Column::ValueAEffectiveFlagAuxInv));
        assert(is_flag(Column::IsPadding) && is_flag(Column::IsBeq) && is_flag(Column::IsBne)
            && is_flag(Column::IsBlt) && is_flag(Column::IsBge) && is_flag(Column::IsBltu)
            && is_flag(Column::IsBgeu) && is_flag(Column::IsJal) && is_flag(Column::IsJalr));
    }

    /// Sets the flag of the row's instruction, or the padding flag, and
    /// clears every other flag.
    fn fill_flags(traces: &mut Traces, row_idx: usize, vm_step: &Option<Step>)
        requires
            old(traces).wf(),
            row_idx < old(traces).rows(),
            *vm_step matches Some(s) ==> supports(s),
        ensures
            final(traces).wf(),
            Self::one_hot(final(traces), row_idx as int, selected_flag(*vm_step)),
            final(traces).same_outside(
                old(traces),
                row_idx as int,
                declared_between(Column::IsAdd, Column::IsPadding),
            ),
    {
        let selected = match vm_step {
            Some(step) => match step.opcode() {
                Some(opcode) => match flag_column(opcode) {
                    Some(flag) => flag,
                    None => Column::IsPadding,
                },
                None => Column::IsPadding,
            },
            None => Column::IsPadding,
        };
        assert(selected == selected_flag(*vm_step));
        assert(is_flag(selected));
        traces.fill_columns_one_hot(row_idx, Column::IsAdd, Column::IsPadding, selected);
    }

    /// Writes the address of the row's instruction and, where the instruction
    /// is no branch and no jump, the address four bytes on as the next one.
    /// The next address of a branch or a jump must have been filled before.
    fn fill_program_counter(traces: &mut Traces, row_idx: usize, vm_step: &Option<Step>)
        requires
            old(traces).wf(),
            row_idx < old(traces).rows(),
            *vm_step matches Some(s) ==> supports(s) && (is_control_flow(
                s.instruction.opcode.builtin->0,
            ) ==> old(traces).field(row_idx as int, Column::PcNext) == word_limbs(
                s.next_pc_spec(),
            )),
        ensures
            final(traces).wf(),
            final(traces).same_outside(
                old(traces),
                row_idx as int,
                if *vm_step matches Some(s) && is_control_flow(s.instruction.opcode.builtin->0) {
                    set![Column::Pc]
                } else {
                    set![Column::Pc, Column::PcNext, Column::PcCarry]
                },
            ),
            match *vm_step {
                Some(s) => {
                    &&& final(traces).field(row_idx as int, Column::Pc) == word_limbs(s.pc)
                    &&& final(traces).field(row_idx as int, Column::PcNext) == word_limbs(
                        s.next_pc_spec(),
                    )
                    &&& !is_control_flow(s.instruction.opcode.builtin->0) ==> is_sum_with_carries(
                        word_limbs(s.pc),
                        word_limbs(4),
                        word_limbs(s.next_pc_spec()),
                        final(traces).field(row_idx as int, Column::PcCarry),
                    )
                    &&& is_control_flow(s.instruction.opcode.builtin->0) ==> final(traces).field(
                        row_idx as int,
                        Column::PcCarry,
                    ) == old(traces).field(row_idx as int, Column::PcCarry)
                },
                None => {
                    &&& final(traces).field(row_idx as int, Column::Pc) == zero_word()
                    &&& final(traces).field(row_idx as int, Column::PcNext) == zero_word()
                    &&& final(traces).field(row_idx as int, Column::PcCarry) == zero_word()
                },
            },
    {
        match vm_step {
            Some(step) => {
                let control_flow = match step.opcode() {
                    Some(opcode) => is_control_flow_opcode(opcode),
                    None => false,
                };
                let pc = u32_to_word(step.pc);
                traces.fill_columns_bytes(row_idx, Column::Pc, pc);
                if !control_flow {
                    let (pc_next, carry) = add_with_carries(pc, u32_to_word(4));
                    proof {
                        crate::chips::utils::lemma_limbs_of_word(pc_next);
                    }
                    traces.fill_columns_bytes(row_idx, Column::PcNext, pc_next);
                    traces.fill_columns_bools(row_idx, Column::PcCarry, carry);
                }
            },
            None => {
                traces.fill_columns_bytes(row_idx, Column::Pc, [0u8, 0u8, 0u8, 0u8]);
                traces.fill_columns_bytes(row_idx, Column::PcNext, [0u8, 0u8, 0u8, 0u8]);
                traces.fill_columns_bools(row_idx, Column::PcCarry, [false, false, false, false]);
            },
        }
    }

    /// Writes the instruction word, the operands and the values of the second
    /// and third operand.
    fn fill_operands(traces: &mut Traces, row_idx: usize, vm_step: &Option<Step>)
        requires
            old(traces).wf(),
            row_idx < old(traces).rows(),
            vm_step matches Some(s) ==> s.wf(),
        ensures
            final(traces).wf(),
            final(traces).same_outside(
                old(traces),
                row_idx as int,
                set![
                    Column::InstrVal,
                    Column::OpA,
                    Column::OpB,
                    Column::OpC,
                    Column::ImmC,
                    Column::ValueB,
                    Column::ValueC,
                ],
            ),
            match *vm_step {
                Some(s) => {
                    &&& final(traces).field(row_idx as int, Column::InstrVal) == word_limbs(
                        s.raw_instruction,
                    )
                    &&& final(traces).field(row_idx as int, Column::OpA) == seq![
                        s.instruction.op_a.index_spec(),
                    ]
                    &&& final(traces).field(row_idx as int, Column::OpB) == seq![
                        s.instruction.op_b.index_spec(),
                    ]
                    &&& final(traces).field(row_idx as int, Column::OpC) == seq![
                        (s.instruction.op_c % P) as nat,
                    ]
                    &&& final(traces).field(row_idx as int, Column::ImmC) == seq![
                        bit(s.is_value_c_imm_spec()),
                    ]
                    &&& final(traces).field(row_idx as int, Column::ValueB) == word_limbs(
                        s.value_b_spec(),
                    )
                    &&& final(traces).field(row_idx as int, Column::ValueC) == word_limbs(
                        s.value_c_spec(),
                    )
                },
                None => {
                    &&& final(traces).field(row_idx as int, Column::InstrVal) == zero_word()
                    &&& final(traces).field(row_idx as int, Column::OpA) == seq![0nat]
                    &&& final(traces).field(row_idx as int, Column::OpB) == seq![0nat]
                    &&& final(traces).field(row_idx as int, Column::OpC) == seq![0nat]
                    &&& final(traces).field(row_idx as int, Column::ImmC) == seq![0nat]
                    &&& final(traces).field(row_idx as int, Column::ValueB) == zero_word()
                    &&& final(traces).field(row_idx as int, Column::ValueC) == zero_word()
                },
            },
    {
        let (word, op_a, op_b, op_c, imm_c, value_b, value_c): (
            u32,
            u32,
            u32,
            u32,
            bool,
            u32,
            u32,
        ) = match vm_step {
            Some(step) => (
                step.raw_instruction,
                step.instruction.op_a.index() as u32,
                step.instruction.op_b.index() as u32,
                step.instruction.op_c,
                step.is_value_c_imm(),
                step.get_value_b(),
                step.get_value_c(),
            ),
            None => (0, 0, 0, 0, false, 0, 0),
        };
        proof {
            crate::chips::utils::lemma_word_limbs_of_zero();
        }
        traces.fill_columns_word(row_idx, Column::InstrVal, word);
        traces.fill_columns_value(row_idx, Column::OpA, BaseField::from_u32(op_a));
        traces.fill_columns_value(row_idx, Column::OpB, BaseField::from_u32(op_b));
        traces.fill_columns_value(row_idx, Column::OpC, BaseField::from_u32(op_c));
        traces.fill_columns_bool(row_idx, Column::ImmC, imm_c);
        traces.fill_columns_word(row_idx, Column::ValueB, value_b);
        traces.fill_columns_word(row_idx, Column::ValueC, value_c);
    }

    /// Writes whether the row writes a register back, with the witnesses of
    /// that flag, and the value that it writes back: the `ValueA` of the row
    /// where the destination is not the zero register, zero where it is.
    fn fill_effective_value(traces: &mut Traces, row_idx: usize, vm_step: &Option<Step>)
        requires
            old(traces).wf(),
            row_idx < old(traces).rows(),
        ensures
            final(traces).wf(),
            final(traces).same_outside(
                old(traces),
                row_idx as int,
                set![
                    Column::ValueAEffectiveFlag,
                    Column::ValueAEffectiveFlagAux,
                    Column::ValueAEffectiveFlagAuxInv,
                    Column::ValueAEffective,
                ],
            ),
            ({
                let index: nat = match *vm_step {
                    Some(s) => s.instruction.op_a.index_spec(),
                    None => 0,
                };
                let flag = final(traces).field(row_idx as int, Column::ValueAEffectiveFlag);
                let aux = final(traces).field(row_idx as int, Column::ValueAEffectiveFlagAux);
                let aux_inv = final(traces).field(
                    row_idx as int,
                    Column::ValueAEffectiveFlagAuxInv,
                );
                &&& flag == seq![bit(index != 0)]
                &&& aux.len() == 1
                &&& aux_inv.len() == 1
                &&& (aux[0] * aux_inv[0]) % (P as nat) == 1
                &&& (index * aux[0]) % (P as nat) == bit(index != 0)
                &&& final(traces).field(row_idx as int, Column::ValueAEffective) == if index != 0 {
                    old(traces).field(row_idx as int, Column::ValueA)
                } else {
                    zero_word()
                }
            }),
    {
        let index: u32 = match vm_step {
            Some(step) => step.instruction.op_a.index() as u32,
            None => 0,
        };
        let flag = index != 0;
        let element = BaseField::from_u32(index);
        let (aux, aux_inv) = if flag {
            let inverse = element.inverse();
            proof {
                assert(element@ * inverse@ == inverse@ * element@) by (nonlinear_arith);
            }
            (inverse, element)
        } else {
            proof {
                assert(0 * 1 == 0);
                assert(1nat * 1nat == 1);
            }
            (BaseField::one(), BaseField::one())
        };
        proof {
            if !flag {
                assert(index * aux@ == 0) by (nonlinear_arith)
                    requires
                        index == 0,
                ;
            }
        }
        let value_a = traces.column(row_idx, Column::ValueA);
        traces.fill_columns_bool(row_idx, Column::ValueAEffectiveFlag, flag);
        traces.fill_columns_value(row_idx, Column::ValueAEffectiveFlagAux, aux);
        traces.fill_columns_value(row_idx, Column::ValueAEffectiveFlagAuxInv, aux_inv);
        if flag {
            traces.column_mut(row_idx, Column::ValueAEffective, value_a.as_slice());
        } else {
            proof {
                crate::chips::utils::lemma_word_limbs_of_zero();
            }
            traces.fill_columns_word(row_idx, Column::ValueAEffective, 0);
        }
    }

    /// Fills the chip's fields of one row. The row's `ValueA` must have been
    /// filled before, and so must the next address of a branch or a jump.
    pub fn fill_main_trace(traces: &mut Traces, row_idx: usize, vm_step: &Option<Step>)
        requires
            old(traces).wf(),
            row_idx < old(traces).rows(),
            *vm_step matches Some(s) ==> s.wf() && supports(s) && (is_control_flow(
                s.instruction.opcode.builtin->0,
            ) ==> old(traces).field(row_idx as int, Column::PcNext) == word_limbs(
                s.next_pc_spec(),
            )),
        ensures
            final(traces).wf(),
            final(traces).same_outside(old(traces), row_idx as int, Self::written(*vm_step)),
            Self::filled(final(traces), row_idx as int, *vm_step),
    {
        Self::fill_flags(traces, row_idx, vm_step);
        let ghost flagged = *traces;
        Self::fill_program_counter(traces, row_idx, vm_step);
        let ghost counted = *traces;
        Self::fill_operands(traces, row_idx, vm_step);
        let ghost decoded = *traces;
        Self::fill_effective_value(traces, row_idx, vm_step);
        proof {
            reveal(CpuChip::filled);
            reveal(CpuChip::constraints);
            let row = row_idx as int;
            assert(traces.field(row, Column::ValueA) == old(traces).field(row, Column::ValueA));
            assert(Self::one_hot(traces, row, selected_flag(*vm_step))) by {
                assert forall|col: Column| is_flag(col) implies #[trigger] traces.field(row, col)
                    == seq![bit(col == selected_flag(*vm_step))] by {
                    assert(flagged.field(row, col) == seq![bit(col == selected_flag(*vm_step))]);
                    assert(counted.field(row, col) == flagged.field(row, col));
                    assert(decoded.field(row, col) == counted.field(row, col));
                    assert(traces.field(row, col) == decoded.field(row, col));
                }
            }
            let selected = selected_flag(*vm_step);
            assert(traces.field(row, Column::Pc) == counted.field(row, Column::Pc));
            assert(traces.field(row, Column::PcNext) == counted.field(row, Column::PcNext));
            assert(traces.field(row, Column::PcCarry) == counted.field(row, Column::PcCarry));
            assert(traces.field(row, Column::InstrVal) == decoded.field(row, Column::InstrVal));
            assert(traces.field(row, Column::OpA) == decoded.field(row, Column::OpA));
            assert(traces.field(row, Column::OpB) == decoded.field(row, Column::OpB));
            assert(traces.field(row, Column::OpC) == decoded.field(row, Column::OpC));
            assert(traces.field(row, Column::ImmC) == decoded.field(row, Column::ImmC));
            assert(traces.field(row, Column::ValueB) == decoded.field(row, Column::ValueB));
            assert(traces.field(row, Column::ValueC) == decoded.field(row, Column::ValueC));
            assert(decoded.field(row, Column::ValueA) == old(traces).field(row, Column::ValueA));
            assert(is_flag(Column::IsPadding) && is_flag(Column::IsBeq) && is_flag(Column::IsBne)
                && is_flag(Column::IsBlt) && is_flag(Column::IsBge) && is_flag(Column::IsBltu)
                && is_flag(Column::IsBgeu) && is_flag(Column::IsJal) && is_flag(Column::IsJalr));
            assert(traces.field(row, Column::IsPadding) == seq![bit(Column::IsPadding == selected)]);
            assert(traces.field(row, Column::IsBeq) == seq![bit(Column::IsBeq == selected)]);
            assert(traces.field(row, Column::IsBne) == seq![bit(Column::IsBne == selected)]);
            assert(traces.field(row, Column::IsBlt) == seq![bit(Column::IsBlt == selected)]);
            assert(traces.field(row, Column::IsBge) == seq![bit(Column::IsBge == selected)]);
            assert(traces.field(row, Column::IsBltu) == seq![bit(Column::IsBltu == selected)]);
            assert(traces.field(row, Column::IsBgeu) == seq![bit(Column::IsBgeu == selected)]);
            assert(traces.field(row, Column::IsJal) == seq![bit(Column::IsJal == selected)]);
            assert(traces.field(row, Column::IsJalr) == seq![bit(Column::IsJalr == selected)]);
            let flag = traces.field(row, Column::ValueAEffectiveFlag)[0];
            let value_a = traces.field(row, Column::ValueA);
            let effective = traces.field(row, Column::ValueAEffective);
            assert forall|i: int| 0 <= i < 4 implies #[trigger] effective[i] == flag * value_a[i] by {
                assert(flag == 0 || flag == 1);
                assert(flag * value_a[i] == if flag == 1 {
                    value_a[i]
                } else {
                    0
                }) by (nonlinear_arith)
                    requires
                        flag == 0 || flag == 1,
                ;
            }
            assert(Self::constraints(traces, row));
        }
    }
}

} // verus!
