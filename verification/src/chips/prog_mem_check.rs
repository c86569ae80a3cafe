//! The program memory: every row with a step reads the instruction at its
//! program counter, and counts how often that instruction was read before.

use vstd::prelude::*;
use std::collections::HashMap;
use crate::chips::cpu::zero_word;
use crate::chips::utils::{
    add_with_carries,
    is_flag_word,
    is_sum_with_carries,
    lemma_limbs_of_word,
    lemma_word_limbs_of_zero,
    u32_to_word,
};
use crate::column::Column;
use crate::trace::{agree_on, lemma_agree_after_row_change, word_limbs, Traces};

verus! {

broadcast use vstd::std_specs::hash::group_hash_axioms;

/// How often `pc` occurs among `pcs`.
pub open spec fn executions(pcs: Seq<u32>, pc: u32) -> nat
    decreases pcs.len(),
{
    if pcs.len() == 0 {
        0
    } else {
        executions(pcs.drop_last(), pc) + if pcs.last() == pc {
            1nat
        } else {
            0nat
        }
    }
}

/// The addresses among `pcs`, each once, in the order in which they first occur.
pub open spec fn program_of(pcs: Seq<u32>) -> Seq<u32>
    decreases pcs.len(),
{
    if pcs.len() == 0 {
        Seq::empty()
    } else if executions(pcs.drop_last(), pcs.last()) > 0 {
        program_of(pcs.drop_last())
    } else {
        program_of(pcs.drop_last()).push(pcs.last())
    }
}

/// No address occurs more often than there are addresses.
pub proof fn lemma_executions_bound(pcs: Seq<u32>, pc: u32)
    ensures
        executions(pcs, pc) <= pcs.len(),
    decreases pcs.len(),
{
    if pcs.len() > 0 {
        lemma_executions_bound(pcs.drop_last(), pc);
    }
}

/// A program has no more addresses than were executed, each of them was
/// executed, and none is listed twice.
pub proof fn lemma_program(pcs: Seq<u32>)
    ensures
        program_of(pcs).len() <= pcs.len(),
        forall|i: int|
            0 <= i < program_of(pcs).len() ==> executions(pcs, #[trigger] program_of(pcs)[i]) > 0,
        forall|i: int, j: int|
            0 <= i < j < program_of(pcs).len() ==> #[trigger] program_of(pcs)[i]
                != #[trigger] program_of(pcs)[j],
    decreases pcs.len(),
{
    if pcs.len() > 0 {
        let earlier = pcs.drop_last();
        lemma_program(earlier);
        let listed = program_of(earlier);
        assert forall|i: int| 0 <= i < program_of(pcs).len() implies executions(
            pcs,
            #[trigger] program_of(pcs)[i],
        ) > 0 by {
            if i < listed.len() {
                assert(program_of(pcs)[i] == listed[i]);
            }
        }
        assert forall|i: int, j: int| 0 <= i < j < program_of(pcs).len() implies #[trigger] program_of(
            pcs,
        )[i] != #[trigger] program_of(pcs)[j] by {
            assert(program_of(pcs)[i] == listed[i]);
            if j < listed.len() {
                assert(program_of(pcs)[j] == listed[j]);
            }
        }
    }
}

/// How often each instruction was executed, and the addresses of the
/// instructions in the order in which they were first executed.
pub struct ProgramSideNote {
    counts: HashMap<u32, u32>,
    listed: Vec<u32>,
    executed: Ghost<Seq<u32>>,
}

impl ProgramSideNote {
    /// The addresses of the instructions that were executed, in their order.
    pub closed spec fn executed(&self) -> Seq<u32> {
        self.executed@
    }

    /// The addresses that were executed, each once.
    pub closed spec fn listed(&self) -> Seq<u32> {
        self.listed@
    }

    /// The recorded numbers, by address.
    pub closed spec fn counts(&self) -> Map<u32, u32> {
        self.counts@
    }

    /// The recorded numbers are those of the executions of each address, and
    /// the addresses are listed in the order in which they first occur.
    pub open spec fn wf(&self) -> bool {
        &&& forall|pc: u32|
            #[trigger] self.counts().contains_key(pc) <==> executions(self.executed(), pc) > 0
        &&& forall|pc: u32|
            #[trigger] self.counts().contains_key(pc) ==> self.counts()[pc] == executions(
                self.executed(),
                pc,
            )
        &&& self.listed() == program_of(self.executed())
    }

    /// The state before any instruction.
    pub fn new() -> (note: Self)
        ensures
            note.wf(),
            note.executed() == Seq::<u32>::empty(),
    {
        ProgramSideNote { counts: HashMap::new(), listed: Vec::new(), executed: Ghost(Seq::empty()) }
    }

    /// How often the instruction at `pc` was executed.
    pub fn count(&self, pc: u32) -> (count: u32)
        requires
            self.wf(),
        ensures
            count == executions(self.executed(), pc),
    {
        match self.counts.get(&pc) {
            Some(count) => {
                assert(self.counts().contains_key(pc));
                *count
            },
            None => {
                assert(!self.counts().contains_key(pc));
                0
            },
        }
    }

    /// Number of instructions that were executed at least once.
    pub fn program_len(&self) -> (len: usize)
        ensures
            len == self.listed().len(),
    {
        self.listed.len()
    }

    /// The address of the instruction that was the `index`-th to be executed
    /// for the first time.
    pub fn address(&self, index: usize) -> (pc: u32)
        requires
            index < self.listed().len(),
        ensures
            pc == self.listed()[index as int],
    {
        self.listed[index]
    }

    /// Records an execution of the instruction at `pc`, and returns how
    /// often it was executed before.
    pub fn record(&mut self, pc: u32) -> (before: u32)
        requires
            old(self).wf(),
            old(self).executed().len() < u32::MAX,
        ensures
            final(self).wf(),
            before == executions(old(self).executed(), pc),
            final(self).executed() == old(self).executed().push(pc),
    {
        let before = self.count(pc);
        let ghost earlier = self.executed@;
        proof {
            lemma_executions_bound(earlier, pc);
        }
        self.counts.insert(pc, before + 1);
        if before == 0 {
            self.listed.push(pc);
        }
        self.executed = Ghost(earlier.push(pc));
        proof {
            let now = earlier.push(pc);
            assert(now.drop_last() =~= earlier);
            assert(now.last() == pc);
            assert forall|other: u32|
                #[trigger] self.counts().contains_key(other) <==> executions(now, other) > 0 by {
                if other != pc {
                    assert(old(self).counts().contains_key(other) <==> executions(earlier, other)
                        > 0);
                }
            }
            assert forall|other: u32| #[trigger] self.counts().contains_key(other) implies self.counts()[other]
                == executions(now, other) by {
                if other != pc {
                    assert(old(self).counts().contains_key(other));
                }
            }
        }
        before
    }
}

/// Counts the executions of each instruction.
pub struct ProgramMemCheckChip;

impl ProgramMemCheckChip {
    /// The fields that the chip writes.
    pub open spec fn owned() -> Set<Column> {
        set![
            Column::ProgCtrPrev,
            Column::ProgCtrCur,
            Column::ProgCtrCarry,
            Column::FinalPrgMemoryCtr,
        ]
    }

    /// What `row` holds about the execution of its instruction, where `pcs`
    /// are the program counters of the steps: how often the instruction was
    /// executed before, that number plus one, and the carries of the
    /// addition; zeros in a padding row.
    pub open spec fn counted(traces: &Traces, row: int, pcs: Seq<u32>) -> bool {
        if row < pcs.len() {
            let before = executions(pcs.take(row), pcs[row]);
            &&& traces.field(row, Column::ProgCtrPrev) == word_limbs(before as u32)
            &&& traces.field(row, Column::ProgCtrCur) == word_limbs((before + 1) as u32)
            &&& is_sum_with_carries(
                traces.field(row, Column::ProgCtrPrev),
                word_limbs(1),
                traces.field(row, Column::ProgCtrCur),
                traces.field(row, Column::ProgCtrCarry),
            )
            &&& is_flag_word(traces.field(row, Column::ProgCtrCarry))
        } else {
            &&& traces.field(row, Column::ProgCtrPrev) == zero_word()
            &&& traces.field(row, Column::ProgCtrCur) == zero_word()
            &&& traces.field(row, Column::ProgCtrCarry) == zero_word()
        }
    }

    /// What `row` holds about the program once the chip has closed the
    /// trace: how often the instruction that was the `row`-th to be executed
    /// for the first time was executed in all; zeros where there is no such
    /// instruction.
    pub open spec fn closed(traces: &Traces, row: int, pcs: Seq<u32>) -> bool {
        traces.field(row, Column::FinalPrgMemoryCtr) == if row < program_of(pcs).len() {
            word_limbs(executions(pcs, program_of(pcs)[row]) as u32)
        } else {
            zero_word()
        }
    }

    /// What the trace holds once the chip has filled it.
    pub open spec fn filled(traces: &Traces, pcs: Seq<u32>) -> bool {
        forall|row: int|
            0 <= row < traces.rows() ==> #[trigger] Self::counted(traces, row, pcs) && Self::closed(
                traces,
                row,
                pcs,
            )
    }

    /// What the chip filled holds of a row for as long as the chip's fields
    /// stay as they are.
    pub proof fn lemma_kept(before: &Traces, after: &Traces, row: int, pcs: Seq<u32>)
        requires
            Self::counted(before, row, pcs),
            Self::closed(before, row, pcs),
            agree_on(before, after, row, Self::owned()),
        ensures
            Self::counted(after, row, pcs),
            Self::closed(after, row, pcs),
    {
        assert(Self::owned().contains(Column::ProgCtrPrev));
        assert(Self::owned().contains(Column::ProgCtrCur));
        assert(Self::owned().contains(Column::ProgCtrCarry));
        assert(Self::owned().contains(Column::FinalPrgMemoryCtr));
    }

    /// Writes to `row` that its instruction was executed `before` times
    /// before, or zeros for a padding row.
    fn fill_row(traces: &mut Traces, row: usize, before: Option<u32>)
        requires
            old(traces).wf(),
            row < old(traces).rows(),
            before matches Some(count) ==> count < u32::MAX,
        ensures
            final(traces).wf(),
            final(traces).same_outside(
                old(traces),
                row as int,
                set![Column::ProgCtrPrev, Column::ProgCtrCur, Column::ProgCtrCarry],
            ),
            match before {
                Some(count) => {
                    &&& final(traces).field(row as int, Column::ProgCtrPrev) == word_limbs(count)
                    &&& final(traces).field(row as int, Column::ProgCtrCur) == word_limbs(
                        (count + 1) as u32,
                    )
                    &&& is_sum_with_carries(
                        final(traces).field(row as int, Column::ProgCtrPrev),
                        word_limbs(1),
                        final(traces).field(row as int, Column::ProgCtrCur),
                        final(traces).field(row as int, Column::ProgCtrCarry),
                    )
                    &&& is_flag_word(final(traces).field(row as int, Column::ProgCtrCarry))
                },
                None => {
                    &&& final(traces).field(row as int, Column::ProgCtrPrev) == zero_word()
                    &&& final(traces).field(row as int, Column::ProgCtrCur) == zero_word()
                    &&& final(traces).field(row as int, Column::ProgCtrCarry) == zero_word()
                },
            },
    {
        match before {
            Some(count) => {
                let (next, carry) = add_with_carries(u32_to_word(count), u32_to_word(1));
                proof {
                    lemma_limbs_of_word(next);
                }
                traces.fill_columns_word(row, Column::ProgCtrPrev, count);
                traces.fill_columns_bytes(row, Column::ProgCtrCur, next);
                traces.fill_columns_bools(row, Column::ProgCtrCarry, carry);
            },
            None => {
                proof {
                    lemma_word_limbs_of_zero();
                }
                traces.fill_columns_word(row, Column::ProgCtrPrev, 0);
                traces.fill_columns_word(row, Column::ProgCtrCur, 0);
                traces.fill_columns_word(row, Column::ProgCtrCarry, 0);
            },
        }
    }

    /// Writes the counters of every row: `pcs` are the program counters of
    /// the steps, in their order.
    fn fill_rows(traces: &mut Traces, pcs: &Vec<u32>) -> (note: ProgramSideNote)
        requires
            old(traces).wf(),
            pcs@.len() <= old(traces).rows(),
            old(traces).rows() <= 0x4000_0000,
        ensures
            final(traces).wf(),
            final(traces).same_outside_fields(old(traces), Self::owned()),
            forall|row: int|
                0 <= row < final(traces).rows() ==> #[trigger] Self::counted(
                    final(traces),
                    row,
                    pcs@,
                ),
            note.wf(),
            note.executed() == pcs@,
    {
        let mut note = ProgramSideNote::new();
        let rows = traces.num_rows();
        let mut row: usize = 0;
        while row < rows
            invariant
                row <= rows,
                rows == traces.rows(),
                rows <= 0x4000_0000,
                pcs@.len() <= rows,
                traces.wf(),
                traces.same_outside_fields(old(traces), Self::owned()),
                note.wf(),
                note.executed() == pcs@.take(
                    if row < pcs@.len() {
                        row as int
                    } else {
                        pcs@.len() as int
                    },
                ),
                forall|r: int| 0 <= r < row ==> #[trigger] Self::counted(traces, r, pcs@),
            decreases rows - row,
        {
            let ghost snapshot = *traces;
            let ghost earlier = note.executed();
            let before = if row < pcs.len() {
                let count = note.record(pcs[row]);
                proof {
                    lemma_executions_bound(earlier, pcs@[row as int]);
                    assert(pcs@.take(row as int).push(pcs@[row as int]) =~= pcs@.take(row + 1));
                }
                Some(count)
            } else {
                None
            };
            Self::fill_row(traces, row, before);
            proof {
                assert forall|r: int| 0 <= r < row + 1 implies #[trigger] Self::counted(
                    traces,
                    r,
                    pcs@,
                ) by {
                    if r < row {
                        assert(Self::counted(&snapshot, r, pcs@));
                        lemma_agree_after_row_change(
                            &snapshot,
                            traces,
                            row as int,
                            set![Column::ProgCtrPrev, Column::ProgCtrCur, Column::ProgCtrCarry],
                            r,
                            Self::owned(),
                        );
                        assert(Self::owned().contains(Column::ProgCtrPrev));
                        assert(Self::owned().contains(Column::ProgCtrCur));
                        assert(Self::owned().contains(Column::ProgCtrCarry));
                    }
                }
            }
            row = row + 1;
        }
        proof {
            assert(pcs@.take(pcs@.len() as int) =~= pcs@);
        }
        note
    }

    /// Writes the counters of every row, and then, for each instruction
    /// that was executed, how often it was executed in all. `pcs` are the
    /// program counters of the steps, in their order.
    pub fn fill(traces: &mut Traces, pcs: &Vec<u32>)
        requires
            old(traces).wf(),
            pcs@.len() <= old(traces).rows(),
            old(traces).rows() <= 0x4000_0000,
        ensures
            final(traces).wf(),
            final(traces).same_outside_fields(old(traces), Self::owned()),
            Self::filled(final(traces), pcs@),
    {
        let note = Self::fill_rows(traces, pcs);
        let rows = traces.num_rows();
        let listed = note.program_len();
        let ghost program = program_of(pcs@);
        let mut row: usize = 0;
        while row < rows
            invariant
                row <= rows,
                rows == traces.rows(),
                traces.wf(),
                traces.same_outside_fields(old(traces), Self::owned()),
                note.wf(),
                note.executed() == pcs@,
                program == program_of(pcs@),
                listed == program.len(),
                forall|r: int| 0 <= r < rows ==> #[trigger] Self::counted(traces, r, pcs@),
                forall|r: int| 0 <= r < row ==> #[trigger] Self::closed(traces, r, pcs@),
            decreases rows - row,
        {
            let ghost snapshot = *traces;
            let count = if row < listed {
                note.count(note.address(row))
            } else {
                0
            };
            proof {
                lemma_word_limbs_of_zero();
            }
            traces.fill_columns_word(row, Column::FinalPrgMemoryCtr, count);
            proof {
                assert forall|r: int| 0 <= r < rows implies #[trigger] Self::counted(
                    traces,
                    r,
                    pcs@,
                ) by {
                    assert(Self::counted(&snapshot, r, pcs@));
                }
                assert forall|r: int| 0 <= r < row + 1 implies #[trigger] Self::closed(
                    traces,
                    r,
                    pcs@,
                ) by {
                    if r < row {
                        assert(Self::closed(&snapshot, r, pcs@));
                    }
                }
            }
            row = row + 1;
        }
    }
}

} // verus!
