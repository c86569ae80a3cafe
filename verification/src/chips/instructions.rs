//! The chips that compute instructions, taken together: each row goes to
//! the chip of its instruction.

use vstd::prelude::*;
use crate::chips::add::AddChip;
use crate::chips::auipc::AuipcChip;
use crate::chips::beq::BeqChip;
use crate::chips::bge::BgeChip;
use crate::chips::bgeu::BgeuChip;
use crate::chips::bit_op::BitOpChip;
use crate::chips::blt::BltChip;
use crate::chips::bltu::BltuChip;
use crate::chips::bne::BneChip;
use crate::chips::jal::JalChip;
use crate::chips::jalr::JalrChip;
use crate::chips::load_store::LoadStoreChip;
use crate::chips::lui::LuiChip;
use crate::chips::shift::ShiftChip;
use crate::chips::slt::SltChip;
use crate::chips::sltu::SltuChip;
use crate::chips::sub::SubChip;
use crate::chips::bit_op::nibbles_split;
use crate::chips::cpu::{is_control_flow, supports, CpuChip};
use crate::chips::load_store::{accessible, ram_after, touched_after};
use crate::chips::ram::{not_after, RamAccess, RamSideNote};
use crate::chips::range_check::{flagged, nibble_pairs};
use crate::chips::register_mem_check::is_byte_word;
use crate::chips::utils::lemma_word_limbs_are_bytes;
use crate::column::Column;
use crate::riscv::BuiltinOpcode;
use crate::step::Step;
use crate::trace::{agree_on, word_limbs, Traces};

verus! {

/// The chips that compute instructions.
pub struct InstructionChips;

impl InstructionChips {
    /// Whether one of the chips computes the instruction of `step`.
    pub open spec fn computes(step: Step) -> bool {
        ||| AddChip::applies(Some(step))
        ||| SubChip::applies(Some(step))
        ||| SltuChip::applies(Some(step))
        ||| LuiChip::applies(Some(step))
        ||| AuipcChip::applies(Some(step))
        ||| JalChip::applies(Some(step))
        ||| BltuChip::applies(Some(step))
        ||| BgeuChip::applies(Some(step))
        ||| BeqChip::applies(Some(step))
        ||| BneChip::applies(Some(step))
        ||| BitOpChip::applies(Some(step))
        ||| SltChip::applies(Some(step))
        ||| BltChip::applies(Some(step))
        ||| BgeChip::applies(Some(step))
        ||| JalrChip::applies(Some(step))
        ||| ShiftChip::applies(Some(step))
        ||| LoadStoreChip::applies(Some(step))
    }

    /// Whether one of the chips computes the instruction of `step`.
    pub fn is_computed(step: &Step) -> (computed: bool)
        ensures
            computed == Self::computes(*step),
    {
        match step.opcode() {
            Some(BuiltinOpcode::ADD) | Some(BuiltinOpcode::ADDI) | Some(BuiltinOpcode::SUB) | Some(BuiltinOpcode::SLTU) | Some(BuiltinOpcode::SLTIU) | Some(BuiltinOpcode::LUI) | Some(BuiltinOpcode::AUIPC) | Some(BuiltinOpcode::JAL) | Some(BuiltinOpcode::BLTU) | Some(BuiltinOpcode::BGEU) | Some(BuiltinOpcode::BEQ) | Some(BuiltinOpcode::BNE) | Some(BuiltinOpcode::AND) | Some(BuiltinOpcode::ANDI) | Some(BuiltinOpcode::OR) | Some(BuiltinOpcode::ORI) | Some(BuiltinOpcode::XOR) | Some(BuiltinOpcode::XORI) | Some(BuiltinOpcode::SLT) | Some(BuiltinOpcode::SLTI) | Some(BuiltinOpcode::BLT) | Some(BuiltinOpcode::BGE) | Some(BuiltinOpcode::JALR) | Some(BuiltinOpcode::SLL) | Some(BuiltinOpcode::SLLI) | Some(BuiltinOpcode::SRL) | Some(BuiltinOpcode::SRLI) | Some(BuiltinOpcode::SRA) | Some(BuiltinOpcode::SRAI) | Some(BuiltinOpcode::LB) | Some(BuiltinOpcode::LH) | Some(BuiltinOpcode::LW) | Some(BuiltinOpcode::LBU) | Some(BuiltinOpcode::LHU) | Some(BuiltinOpcode::SB) | Some(BuiltinOpcode::SH) | Some(BuiltinOpcode::SW) => true,
            _ => false,
        }
    }

    /// The fields that the chips write, taken together.
    pub open spec fn owned() -> Set<Column> {
        AddChip::owned().union(SubChip::owned()).union(SltuChip::owned()).union(LuiChip::owned()).union(AuipcChip::owned()).union(JalChip::owned()).union(BltuChip::owned()).union(BgeuChip::owned()).union(BeqChip::owned()).union(BneChip::owned()).union(BitOpChip::owned()).union(SltChip::owned()).union(BltChip::owned()).union(BgeChip::owned()).union(JalrChip::owned()).union(ShiftChip::owned()).union(LoadStoreChip::owned())
    }

    /// The fields that the chip of the instruction of `step` writes.
    pub open spec fn owned_by(step: Option<Step>) -> Set<Column> {
        if AddChip::applies(step) {
            AddChip::owned()
        } else         if SubChip::applies(step) {
            SubChip::owned()
        } else         if SltuChip::applies(step) {
            SltuChip::owned()
        } else         if LuiChip::applies(step) {
            LuiChip::owned()
        } else         if AuipcChip::applies(step) {
            AuipcChip::owned()
        } else         if JalChip::applies(step) {
            JalChip::owned()
        } else         if BltuChip::applies(step) {
            BltuChip::owned()
        } else         if BgeuChip::applies(step) {
            BgeuChip::owned()
        } else         if BeqChip::applies(step) {
            BeqChip::owned()
        } else         if BneChip::applies(step) {
            BneChip::owned()
        } else         if BitOpChip::applies(step) {
            BitOpChip::owned()
        } else         if SltChip::applies(step) {
            SltChip::owned()
        } else         if BltChip::applies(step) {
            BltChip::owned()
        } else         if BgeChip::applies(step) {
            BgeChip::owned()
        } else         if JalrChip::applies(step) {
            JalrChip::owned()
        } else         if ShiftChip::applies(step) {
            ShiftChip::owned()
        } else         if LoadStoreChip::applies(step) {
            LoadStoreChip::owned()
        } else {
            Set::empty()
        }
    }

    /// The fields that the identities of the chips speak of, taken together.
    pub open spec fn reads() -> Set<Column> {
        AddChip::reads().union(SubChip::reads()).union(SltuChip::reads()).union(LuiChip::reads()).union(AuipcChip::reads()).union(JalChip::reads()).union(BltuChip::reads()).union(BgeuChip::reads()).union(BeqChip::reads()).union(BneChip::reads()).union(BitOpChip::reads()).union(SltChip::reads()).union(BltChip::reads()).union(BgeChip::reads()).union(JalrChip::reads()).union(ShiftChip::reads()).union(LoadStoreChip::reads())
    }

    /// What the row of `step` holds once the chip of its instruction has filled it.
    #[verifier::opaque]
    pub open spec fn witnessed(
        traces: &Traces,
        row: int,
        step: Option<Step>,
        ram: Seq<RamAccess>,
    ) -> bool {
        &&& AddChip::applies(step) ==> AddChip::witnessed(traces, row, step->0)
        &&& SubChip::applies(step) ==> SubChip::witnessed(traces, row, step->0)
        &&& SltuChip::applies(step) ==> SltuChip::witnessed(traces, row, step->0)
        &&& LuiChip::applies(step) ==> LuiChip::witnessed(traces, row, step->0)
        &&& AuipcChip::applies(step) ==> AuipcChip::witnessed(traces, row, step->0)
        &&& JalChip::applies(step) ==> JalChip::witnessed(traces, row, step->0)
        &&& BltuChip::applies(step) ==> BltuChip::witnessed(traces, row, step->0)
        &&& BgeuChip::applies(step) ==> BgeuChip::witnessed(traces, row, step->0)
        &&& BeqChip::applies(step) ==> BeqChip::witnessed(traces, row, step->0)
        &&& BneChip::applies(step) ==> BneChip::witnessed(traces, row, step->0)
        &&& BitOpChip::applies(step) ==> BitOpChip::witnessed(traces, row, step->0)
        &&& SltChip::applies(step) ==> SltChip::witnessed(traces, row, step->0)
        &&& BltChip::applies(step) ==> BltChip::witnessed(traces, row, step->0)
        &&& BgeChip::applies(step) ==> BgeChip::witnessed(traces, row, step->0)
        &&& JalrChip::applies(step) ==> JalrChip::witnessed(traces, row, step->0)
        &&& ShiftChip::applies(step) ==> ShiftChip::witnessed(traces, row, step->0)
        &&& LoadStoreChip::applies(step) ==> LoadStoreChip::witnessed(traces, row, step->0, ram)
    }

    /// The identities that the chips declare for `row`.
    #[verifier::opaque]
    pub open spec fn constraints(traces: &Traces, row: int) -> bool {
        &&& AddChip::constraints(traces, row)
        &&& SubChip::constraints(traces, row)
        &&& SltuChip::constraints(traces, row)
        &&& LuiChip::constraints(traces, row)
        &&& AuipcChip::constraints(traces, row)
        &&& JalChip::constraints(traces, row)
        &&& BltuChip::constraints(traces, row)
        &&& BgeuChip::constraints(traces, row)
        &&& BeqChip::constraints(traces, row)
        &&& BneChip::constraints(traces, row)
        &&& BitOpChip::constraints(traces, row)
        &&& SltChip::constraints(traces, row)
        &&& BltChip::constraints(traces, row)
        &&& BgeChip::constraints(traces, row)
        &&& JalrChip::constraints(traces, row)
        &&& ShiftChip::constraints(traces, row)
        &&& LoadStoreChip::constraints(traces, row)
    }

    /// Hands the row to the chip of its instruction, which records in `ram`
    /// the memory accesses of the row. A row without a step is left as it is.
    pub fn fill_main_trace(
        traces: &mut Traces,
        row_idx: usize,
        vm_step: &Option<Step>,
        ram: &mut RamSideNote,
    )
        requires
            old(traces).wf(),
            row_idx < old(traces).rows(),
            row_idx < 0x4000_0000,
            *vm_step matches Some(s) ==> s.wf() && accessible(s),
            old(ram).wf(),
            not_after(old(ram).history(), row_idx as nat),
        ensures
            final(traces).wf(),
            final(traces).same_outside(old(traces), row_idx as int, Self::owned_by(*vm_step)),
            *vm_step is None ==> final(traces)@ == old(traces)@,
            Self::witnessed(final(traces), row_idx as int, *vm_step, old(ram).history()),
            final(ram).wf(),
            final(ram).history() == ram_after(old(ram).history(), *vm_step, row_idx as nat),
            final(ram).touched() == touched_after(old(ram).touched(), old(ram).history(), *vm_step),
            not_after(final(ram).history(), (row_idx + 1) as nat),
    {
        proof {
            reveal(InstructionChips::witnessed);
        }
        let step = match vm_step {
            Some(step) => step,
            None => {
                return ;
            },
        };
        match step.opcode() {
            Some(BuiltinOpcode::ADD) | Some(BuiltinOpcode::ADDI) => {
                AddChip::fill_main_trace(traces, row_idx, vm_step);
            },
            Some(BuiltinOpcode::SUB) => {
                SubChip::fill_main_trace(traces, row_idx, vm_step);
            },
            Some(BuiltinOpcode::SLTU) | Some(BuiltinOpcode::SLTIU) => {
                SltuChip::fill_main_trace(traces, row_idx, vm_step);
            },
            Some(BuiltinOpcode::LUI) => {
                LuiChip::fill_main_trace(traces, row_idx, vm_step);
            },
            Some(BuiltinOpcode::AUIPC) => {
                AuipcChip::fill_main_trace(traces, row_idx, vm_step);
            },
            Some(BuiltinOpcode::JAL) => {
                JalChip::fill_main_trace(traces, row_idx, vm_step);
            },
            Some(BuiltinOpcode::BLTU) => {
                BltuChip::fill_main_trace(traces, row_idx, vm_step);
            },
            Some(BuiltinOpcode::BGEU) => {
                BgeuChip::fill_main_trace(traces, row_idx, vm_step);
            },
            Some(BuiltinOpcode::BEQ) => {
                BeqChip::fill_main_trace(traces, row_idx, vm_step);
            },
            Some(BuiltinOpcode::BNE) => {
                BneChip::fill_main_trace(traces, row_idx, vm_step);
            },
            Some(BuiltinOpcode::AND) | Some(BuiltinOpcode::ANDI) | Some(BuiltinOpcode::OR) | Some(BuiltinOpcode::ORI) | Some(BuiltinOpcode::XOR) | Some(BuiltinOpcode::XORI) => {
                BitOpChip::fill_main_trace(traces, row_idx, vm_step);
            },
            Some(BuiltinOpcode::SLT) | Some(BuiltinOpcode::SLTI) => {
                SltChip::fill_main_trace(traces, row_idx, vm_step);
            },
            Some(BuiltinOpcode::BLT) => {
                BltChip::fill_main_trace(traces, row_idx, vm_step);
            },
            Some(BuiltinOpcode::BGE) => {
                BgeChip::fill_main_trace(traces, row_idx, vm_step);
            },
            Some(BuiltinOpcode::JALR) => {
                JalrChip::fill_main_trace(traces, row_idx, vm_step);
            },
            Some(BuiltinOpcode::SLL) | Some(BuiltinOpcode::SLLI) | Some(BuiltinOpcode::SRL) | Some(BuiltinOpcode::SRLI) | Some(BuiltinOpcode::SRA) | Some(BuiltinOpcode::SRAI) => {
                ShiftChip::fill_main_trace(traces, row_idx, vm_step);
            },
            Some(BuiltinOpcode::LB) | Some(BuiltinOpcode::LH) | Some(BuiltinOpcode::LW) | Some(BuiltinOpcode::LBU) | Some(BuiltinOpcode::LHU) | Some(BuiltinOpcode::SB) | Some(BuiltinOpcode::SH) | Some(BuiltinOpcode::SW) => {
                LoadStoreChip::fill_main_trace(traces, row_idx, vm_step, ram);
            },
            _ => {},
        }
    }

    /// The chip of an instruction fills the value of the first operand, and
    /// the next address where the instruction is a branch or a jump.
    pub proof fn lemma_result(traces: &Traces, row: int, step: Step, ram: Seq<RamAccess>)
        requires
            Self::witnessed(traces, row, Some(step), ram),
            Self::computes(step),
        ensures
            is_byte_word(traces.field(row, Column::ValueA)),
            !LoadStoreChip::applies(Some(step)) ==> traces.field(row, Column::ValueA)
                == word_limbs(step.result_spec()),
            is_control_flow(step.instruction.opcode.builtin->0) ==> traces.field(
                row,
                Column::PcNext,
            ) == word_limbs(step.next_pc_spec()),
    {
        reveal(InstructionChips::witnessed);
        if AddChip::applies(Some(step)) {
            lemma_word_limbs_are_bytes(step.result_spec());
        }
        if SubChip::applies(Some(step)) {
            lemma_word_limbs_are_bytes(step.result_spec());
        }
        if SltuChip::applies(Some(step)) {
            lemma_word_limbs_are_bytes(step.result_spec());
        }
        if LuiChip::applies(Some(step)) {
            lemma_word_limbs_are_bytes(step.result_spec());
        }
        if AuipcChip::applies(Some(step)) {
            lemma_word_limbs_are_bytes(step.result_spec());
        }
        if JalChip::applies(Some(step)) {
            lemma_word_limbs_are_bytes(step.result_spec());
        }
        if BltuChip::applies(Some(step)) {
            lemma_word_limbs_are_bytes(step.result_spec());
        }
        if BgeuChip::applies(Some(step)) {
            lemma_word_limbs_are_bytes(step.result_spec());
        }
        if BeqChip::applies(Some(step)) {
            lemma_word_limbs_are_bytes(step.result_spec());
        }
        if BneChip::applies(Some(step)) {
            lemma_word_limbs_are_bytes(step.result_spec());
        }
        if BitOpChip::applies(Some(step)) {
            lemma_word_limbs_are_bytes(step.result_spec());
        }
        if SltChip::applies(Some(step)) {
            lemma_word_limbs_are_bytes(step.result_spec());
        }
        if BltChip::applies(Some(step)) {
            lemma_word_limbs_are_bytes(step.result_spec());
        }
        if BgeChip::applies(Some(step)) {
            lemma_word_limbs_are_bytes(step.result_spec());
        }
        if JalrChip::applies(Some(step)) {
            lemma_word_limbs_are_bytes(step.result_spec());
        }
        if ShiftChip::applies(Some(step)) {
            lemma_word_limbs_are_bytes(step.result_spec());
        }
    }

    /// What the chip of an instruction filled holds of a row for as long as
    /// that chip's fields stay as they are.
    pub proof fn lemma_witnessed_kept(
        before: &Traces,
        after: &Traces,
        row: int,
        step: Option<Step>,
        ram: Seq<RamAccess>,
    )
        requires
            Self::witnessed(before, row, step, ram),
            agree_on(before, after, row, Self::owned_by(step)),
        ensures
            Self::witnessed(after, row, step, ram),
    {
        reveal(InstructionChips::witnessed);
        if AddChip::applies(step) {
            AddChip::lemma_witnessed_kept(before, after, row, step->0);
        }
        if SubChip::applies(step) {
            SubChip::lemma_witnessed_kept(before, after, row, step->0);
        }
        if SltuChip::applies(step) {
            SltuChip::lemma_witnessed_kept(before, after, row, step->0);
        }
        if LuiChip::applies(step) {
            LuiChip::lemma_witnessed_kept(before, after, row, step->0);
        }
        if AuipcChip::applies(step) {
            AuipcChip::lemma_witnessed_kept(before, after, row, step->0);
        }
        if JalChip::applies(step) {
            JalChip::lemma_witnessed_kept(before, after, row, step->0);
        }
        if BltuChip::applies(step) {
            BltuChip::lemma_witnessed_kept(before, after, row, step->0);
        }
        if BgeuChip::applies(step) {
            BgeuChip::lemma_witnessed_kept(before, after, row, step->0);
        }
        if BeqChip::applies(step) {
            BeqChip::lemma_witnessed_kept(before, after, row, step->0);
        }
        if BneChip::applies(step) {
            BneChip::lemma_witnessed_kept(before, after, row, step->0);
        }
        if BitOpChip::applies(step) {
            BitOpChip::lemma_witnessed_kept(before, after, row, step->0);
        }
        if SltChip::applies(step) {
            SltChip::lemma_witnessed_kept(before, after, row, step->0);
        }
        if BltChip::applies(step) {
            BltChip::lemma_witnessed_kept(before, after, row, step->0);
        }
        if BgeChip::applies(step) {
            BgeChip::lemma_witnessed_kept(before, after, row, step->0);
        }
        if JalrChip::applies(step) {
            JalrChip::lemma_witnessed_kept(before, after, row, step->0);
        }
        if ShiftChip::applies(step) {
            ShiftChip::lemma_witnessed_kept(before, after, row, step->0);
        }
        if LoadStoreChip::applies(step) {
            LoadStoreChip::lemma_witnessed_kept(before, after, row, step->0, ram);
        }
    }

    /// The identities hold of a row for as long as its fields stay as they are.
    pub proof fn lemma_constraints_kept(before: &Traces, after: &Traces, row: int)
        requires
            Self::constraints(before, row),
            agree_on(before, after, row, Self::reads()),
        ensures
            Self::constraints(after, row),
    {
        reveal(InstructionChips::constraints);
        assert(agree_on(before, after, row, AddChip::reads()));
        AddChip::lemma_constraints_kept(before, after, row);
        assert(agree_on(before, after, row, SubChip::reads()));
        SubChip::lemma_constraints_kept(before, after, row);
        assert(agree_on(before, after, row, SltuChip::reads()));
        SltuChip::lemma_constraints_kept(before, after, row);
        assert(agree_on(before, after, row, LuiChip::reads()));
        LuiChip::lemma_constraints_kept(before, after, row);
        assert(agree_on(before, after, row, AuipcChip::reads()));
        AuipcChip::lemma_constraints_kept(before, after, row);
        assert(agree_on(before, after, row, JalChip::reads()));
        JalChip::lemma_constraints_kept(before, after, row);
        assert(agree_on(before, after, row, BltuChip::reads()));
        BltuChip::lemma_constraints_kept(before, after, row);
        assert(agree_on(before, after, row, BgeuChip::reads()));
        BgeuChip::lemma_constraints_kept(before, after, row);
        assert(agree_on(before, after, row, BeqChip::reads()));
        BeqChip::lemma_constraints_kept(before, after, row);
        assert(agree_on(before, after, row, BneChip::reads()));
        BneChip::lemma_constraints_kept(before, after, row);
        assert(agree_on(before, after, row, BitOpChip::reads()));
        BitOpChip::lemma_constraints_kept(before, after, row);
        assert(agree_on(before, after, row, SltChip::reads()));
        SltChip::lemma_constraints_kept(before, after, row);
        assert(agree_on(before, after, row, BltChip::reads()));
        BltChip::lemma_constraints_kept(before, after, row);
        assert(agree_on(before, after, row, BgeChip::reads()));
        BgeChip::lemma_constraints_kept(before, after, row);
        assert(agree_on(before, after, row, JalrChip::reads()));
        JalrChip::lemma_constraints_kept(before, after, row);
        assert(agree_on(before, after, row, ShiftChip::reads()));
        ShiftChip::lemma_constraints_kept(before, after, row);
        assert(agree_on(before, after, row, LoadStoreChip::reads()));
        LoadStoreChip::lemma_constraints_kept(before, after, row);
    }

    /// The identities hold of a row that the CPU chip has filled after the
    /// chip of the row's instruction.
    pub proof fn lemma_constraints(
        traces: &Traces,
        row: int,
        step: Option<Step>,
        ram: Seq<RamAccess>,
    )
        requires
            0 <= row < 0x4000_0000,
            CpuChip::filled(traces, row, step),
            step matches Some(s) ==> s.wf() && supports(s),
            Self::witnessed(traces, row, step, ram),
        ensures
            Self::constraints(traces, row),
    {
        reveal(InstructionChips::witnessed);
        reveal(InstructionChips::constraints);
        AddChip::lemma_constraints(traces, row, step);
        SubChip::lemma_constraints(traces, row, step);
        SltuChip::lemma_constraints(traces, row, step);
        LuiChip::lemma_constraints(traces, row, step);
        AuipcChip::lemma_constraints(traces, row, step);
        JalChip::lemma_constraints(traces, row, step);
        BltuChip::lemma_constraints(traces, row, step);
        BgeuChip::lemma_constraints(traces, row, step);
        BeqChip::lemma_constraints(traces, row, step);
        BneChip::lemma_constraints(traces, row, step);
        BitOpChip::lemma_constraints(traces, row, step);
        SltChip::lemma_constraints(traces, row, step);
        BltChip::lemma_constraints(traces, row, step);
        BgeChip::lemma_constraints(traces, row, step);
        JalrChip::lemma_constraints(traces, row, step);
        ShiftChip::lemma_constraints(traces, row, step);
        LoadStoreChip::lemma_constraints(traces, row, step, ram);
    }

    /// The identities of the chips bound the values that a row looks up in
    /// the tables of seven bits and of the bitwise operations.
    pub proof fn lemma_looked_up_in_range(traces: &Traces, row: int)
        requires
            Self::constraints(traces, row),
        ensures
            flagged(traces, row, Column::IsSlt) || flagged(traces, row, Column::IsBlt) || flagged(
                traces,
                row,
                Column::IsBge,
            ) ==> traces.field(row, Column::Helper2)[0] < 0x80 && traces.field(
                row,
                Column::Helper2,
            )[1] < 0x80,
            flagged(traces, row, Column::IsJalr) || flagged(traces, row, Column::IsLb) || flagged(
                traces,
                row,
                Column::IsLh,
            ) ==> traces.field(row, Column::QtAux)[0] < 0x80,
            flagged(traces, row, Column::IsAnd) || flagged(traces, row, Column::IsOr) || flagged(
                traces,
                row,
                Column::IsXor,
            ) ==> forall|k: int| 0 <= k < 8 ==> #[trigger] nibble_pairs(traces, row)[k] < 0x100,
    {
        reveal(InstructionChips::constraints);
        if flagged(traces, row, Column::IsAnd) || flagged(traces, row, Column::IsOr) || flagged(
            traces,
            row,
            Column::IsXor,
        ) {
            let b_low = traces.field(row, Column::ValueB0_3);
            let b_high = traces.field(row, Column::ValueB4_7);
            let c_low = traces.field(row, Column::ValueC0_3);
            let c_high = traces.field(row, Column::ValueC4_7);
            assert(nibbles_split(traces.field(row, Column::ValueB), b_low, b_high));
            assert(nibbles_split(traces.field(row, Column::ValueC), c_low, c_high));
            assert forall|i: int| 0 <= i < 4 implies b_low[i] < 0x10 && b_high[i] < 0x10 && c_low[i]
                < 0x10 && c_high[i] < 0x10 by {
                assert(traces.field(row, Column::ValueB)[i] == b_low[i] + 0x10 * b_high[i]);
                assert(traces.field(row, Column::ValueC)[i] == c_low[i] + 0x10 * c_high[i]);
            }
            assert forall|k: int| 0 <= k < 8 implies #[trigger] nibble_pairs(traces, row)[k]
                < 0x100 by {
                let i = k / 2;
                assert(b_low[i] < 0x10 && b_high[i] < 0x10 && c_low[i] < 0x10 && c_high[i] < 0x10);
            }
        }
    }

    /// What the row of a load or store holds of the memory.
    pub proof fn lemma_memory_access(traces: &Traces, row: int, step: Step, ram: Seq<RamAccess>)
        requires
            Self::witnessed(traces, row, Some(step), ram),
            LoadStoreChip::applies(Some(step)),
        ensures
            LoadStoreChip::witnessed(traces, row, step, ram),
    {
        reveal(InstructionChips::witnessed);
    }

    /// The CPU chip writes no field of the chip of the row's instruction.
    pub proof fn lemma_cpu_leaves_fields(step: Option<Step>)
        requires
            step matches Some(s) ==> supports(s),
        ensures
            Self::owned_by(step).disjoint(CpuChip::written(step)),
            Self::owned_by(step).subset_of(Self::owned()),
    {
    }
}

} // verus!
