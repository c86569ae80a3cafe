//! The program trace: what the verifier knows of an execution, given row by
//! row: the instructions of the program, the address of the first of them,
//! and the bytes of the public input and output.

use vstd::prelude::*;
use crate::chips::cpu::zero_word;
use crate::chips::prog_mem_check::{executions, program_of, ProgramSideNote};
use crate::chips::utils::lemma_word_limbs_of_zero;
use crate::column::ProgramColumn;
use crate::field::BaseField;
use crate::machine::pcs_of;
use crate::preprocessed::{single_field, word_fields};
use crate::step::Step;
use crate::trace::{bit, numbers, word_limbs};

verus! {

/// An instruction of the program: its address and its word.
#[derive(Debug, Copy, Clone, PartialEq, Eq, Structural)]
pub struct ProgramEntry {
    pub pc: u32,
    pub word: u32,
}

/// A byte of the public input or output: its address and its value.
#[derive(Debug, Copy, Clone, PartialEq, Eq, Structural)]
pub struct PublicByte {
    pub address: u32,
    pub value: u8,
}

/// What the verifier knows of an execution.
pub struct ProgramInfo {
    /// The address of the first instruction.
    pub initial_pc: u32,
    /// The instructions of the program.
    pub program: Vec<ProgramEntry>,
    /// The bytes of the public input.
    pub public_input: Vec<PublicByte>,
    /// The bytes of the public output.
    pub public_output: Vec<PublicByte>,
}

/// The instructions that `steps` execute, each once, in the order in which
/// they are first executed, with the word that the step found there.
pub open spec fn image_of(steps: Seq<Step>) -> Seq<ProgramEntry>
    decreases steps.len(),
{
    if steps.len() == 0 {
        Seq::empty()
    } else if executions(pcs_of(steps.drop_last()), steps.last().pc) > 0 {
        image_of(steps.drop_last())
    } else {
        image_of(steps.drop_last()).push(
            ProgramEntry { pc: steps.last().pc, word: steps.last().raw_instruction },
        )
    }
}

/// The image of an execution lists the addresses of its program, in the
/// order in which the trace counts their executions.
pub proof fn lemma_image_lists_program(steps: Seq<Step>)
    ensures
        image_of(steps).len() == program_of(pcs_of(steps)).len(),
        forall|i: int|
            0 <= i < image_of(steps).len() ==> (#[trigger] image_of(steps)[i]).pc == program_of(
                pcs_of(steps),
            )[i],
    decreases steps.len(),
{
    if steps.len() > 0 {
        let earlier = steps.drop_last();
        lemma_image_lists_program(earlier);
        assert(pcs_of(steps).drop_last() =~= pcs_of(earlier));
        assert(pcs_of(steps).last() == steps.last().pc);
    }
}

/// The instructions that `steps` execute, each once, in the order in which
/// they are first executed.
pub fn program_image(steps: &Vec<Step>) -> (image: Vec<ProgramEntry>)
    requires
        steps@.len() < u32::MAX,
    ensures
        image@ == image_of(steps@),
{
    let mut image: Vec<ProgramEntry> = Vec::new();
    let mut note = ProgramSideNote::new();
    let mut i: usize = 0;
    assert(steps@.take(0) =~= Seq::<Step>::empty());
    assert(pcs_of(steps@.take(0)) =~= Seq::<u32>::empty());
    while i < steps.len()
        invariant
            i <= steps@.len() < u32::MAX,
            note.wf(),
            note.executed() == pcs_of(steps@.take(i as int)),
            image@ == image_of(steps@.take(i as int)),
        decreases steps@.len() - i,
    {
        let before = note.record(steps[i].pc);
        if before == 0 {
            image.push(ProgramEntry { pc: steps[i].pc, word: steps[i].raw_instruction });
        }
        proof {
            let now = steps@.take(i + 1);
            assert(now.drop_last() =~= steps@.take(i as int));
            assert(now.last() == steps@[i as int]);
            assert(pcs_of(now) =~= pcs_of(steps@.take(i as int)).push(steps@[i as int].pc));
        }
        i = i + 1;
    }
    assert(steps@.take(steps@.len() as int) =~= steps@);
    image
}

/// The address of the byte of the public input or output that `row` holds,
/// the bytes of the input first; zeros where there is none.
pub open spec fn public_address(info: &ProgramInfo, row: nat) -> Seq<nat> {
    let inputs = info.public_input@.len();
    if row < inputs {
        word_limbs(info.public_input@[row as int].address)
    } else if row < inputs + info.public_output@.len() {
        word_limbs(info.public_output@[row - inputs].address)
    } else {
        zero_word()
    }
}

/// The values that `row` holds in the scalar columns of `col`.
pub open spec fn program_spec(col: ProgramColumn, row: nat, info: &ProgramInfo) -> Seq<nat> {
    let listed = row < info.program@.len();
    let inputs = info.public_input@.len();
    let is_input = row < inputs;
    let is_output = inputs <= row < inputs + info.public_output@.len();
    match col {
        ProgramColumn::PrgMemoryPc => if listed {
            word_limbs(info.program@[row as int].pc)
        } else {
            zero_word()
        },
        ProgramColumn::PrgMemoryWord => if listed {
            word_limbs(info.program@[row as int].word)
        } else {
            zero_word()
        },
        ProgramColumn::PrgMemoryFlag => seq![bit(listed)],
        ProgramColumn::PrgInitialPc => if row == 0 {
            word_limbs(info.initial_pc)
        } else {
            zero_word()
        },
        ProgramColumn::PublicInputValue => seq![
            if is_input {
                info.public_input@[row as int].value as nat
            } else {
                0
            },
        ],
        ProgramColumn::PublicInputFlag => seq![bit(is_input)],
        ProgramColumn::PublicOutputValue => seq![
            if is_output {
                info.public_output@[row - inputs].value as nat
            } else {
                0
            },
        ],
        ProgramColumn::PublicOutputFlag => seq![bit(is_output)],
        ProgramColumn::PublicInputOutputAddr => public_address(info, row),
    }
}

/// The values that `row` holds in the scalar columns of `col`.
pub fn program_values(col: ProgramColumn, row: usize, info: &ProgramInfo) -> (values: Vec<
    BaseField,
>)
    ensures
        numbers(values@) == program_spec(col, row as nat, info),
{
    proof {
        lemma_word_limbs_of_zero();
    }
    let inputs = info.public_input.len();
    let is_input = row < inputs;
    let is_output = !is_input && row - inputs < info.public_output.len();
    match col {
        ProgramColumn::PrgMemoryPc => word_fields(
            if row < info.program.len() {
                info.program[row].pc
            } else {
                0
            },
        ),
        ProgramColumn::PrgMemoryWord => word_fields(
            if row < info.program.len() {
                info.program[row].word
            } else {
                0
            },
        ),
        ProgramColumn::PrgMemoryFlag => single_field(
            if row < info.program.len() {
                1
            } else {
                0
            },
        ),
        ProgramColumn::PrgInitialPc => word_fields(
            if row == 0 {
                info.initial_pc
            } else {
                0
            },
        ),
        ProgramColumn::PublicInputValue => single_field(
            if is_input {
                info.public_input[row].value as u32
            } else {
                0
            },
        ),
        ProgramColumn::PublicInputFlag => single_field(
            if is_input {
                1
            } else {
                0
            },
        ),
        ProgramColumn::PublicOutputValue => single_field(
            if is_output {
                info.public_output[row - inputs].value as u32
            } else {
                0
            },
        ),
        ProgramColumn::PublicOutputFlag => single_field(
            if is_output {
                1
            } else {
                0
            },
        ),
        ProgramColumn::PublicInputOutputAddr => word_fields(
            if is_input {
                info.public_input[row].address
            } else if is_output {
                info.public_output[row - inputs].address
            } else {
                0
            },
        ),
    }
}

} // verus!
