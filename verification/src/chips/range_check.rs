//! Range checks by lookup: every value that must lie in a range is looked up
//! in the table of that range, and the table counts how often each of its
//! values was asked for.

use vstd::prelude::*;
use crate::chips::register_mem_check::is_byte_word;
use crate::column::Column;
use crate::field::{BaseField, P};
use crate::trace::{agree_on, Traces};

verus! {

/// How often `value` occurs in `values`.
pub open spec fn occurrences(values: Seq<nat>, value: nat) -> nat
    decreases values.len(),
{
    if values.len() == 0 {
        0
    } else {
        occurrences(values.drop_last(), value) + if values.last() == value {
            1nat
        } else {
            0nat
        }
    }
}

/// How often the numbers below `size` occur in `values`, taken together.
pub open spec fn occurrences_below(values: Seq<nat>, size: nat) -> nat
    decreases size,
{
    if size == 0 {
        0
    } else {
        occurrences_below(values, (size - 1) as nat) + occurrences(values, (size - 1) as nat)
    }
}

/// The sum of the first `size` counters.
pub open spec fn sum_of(counts: Seq<u64>, size: nat) -> nat
    decreases size,
{
    if size == 0 {
        0
    } else {
        sum_of(counts, (size - 1) as nat) + counts[size - 1] as nat
    }
}

/// Whether every value is one of a table of `size` values.
#[verifier::opaque]
pub open spec fn in_table(values: Seq<nat>, size: nat) -> bool {
    forall|i: int| 0 <= i < values.len() ==> #[trigger] values[i] < size
}

/// One more value: the counts of the numbers below `size` grow by one if the
/// value is below `size`, and stay as they are if not.
proof fn lemma_occurrences_below_push(values: Seq<nat>, value: nat, size: nat)
    ensures
        occurrences_below(values.push(value), size) == occurrences_below(values, size) + if value
            < size {
            1nat
        } else {
            0nat
        },
    decreases size,
{
    if size > 0 {
        lemma_occurrences_below_push(values, value, (size - 1) as nat);
        assert(values.push(value).drop_last() =~= values);
    }
}

/// Conservation: when every value lies below `size`, the counts of the
/// numbers below `size` add up to the number of values.
pub proof fn lemma_occurrences_add_up(values: Seq<nat>, size: nat)
    requires
        in_table(values, size),
    ensures
        occurrences_below(values, size) == values.len(),
    decreases values.len(),
{
    reveal(in_table);
    if values.len() == 0 {
        assert(values =~= Seq::<nat>::empty());
        lemma_no_occurrences(size);
    } else {
        let earlier = values.drop_last();
        assert forall|i: int| 0 <= i < earlier.len() implies #[trigger] earlier[i] < size by {
            assert(earlier[i] == values[i]);
        }
        assert(values.last() == values[values.len() - 1]);
        lemma_occurrences_add_up(earlier, size);
        lemma_occurrences_below_push(earlier, values.last(), size);
        assert(earlier.push(values.last()) =~= values);
    }
}

/// Nothing occurs among no values.
proof fn lemma_no_occurrences(size: nat)
    ensures
        occurrences_below(Seq::<nat>::empty(), size) == 0,
    decreases size,
{
    if size > 0 {
        lemma_no_occurrences((size - 1) as nat);
    }
}

/// No value occurs more often than there are values.
pub proof fn lemma_occurrences_bound(values: Seq<nat>, value: nat)
    ensures
        occurrences(values, value) <= values.len(),
    decreases values.len(),
{
    if values.len() > 0 {
        lemma_occurrences_bound(values.drop_last(), value);
    }
}

/// The multiplicities of one lookup table: for each value of the table, how
/// often it was looked up.
pub struct Multiplicities {
    counts: Vec<u64>,
    looked_up: Ghost<Seq<nat>>,
}

impl Multiplicities {
    /// Number of values of the table.
    pub closed spec fn size(&self) -> nat {
        self.counts@.len()
    }

    /// The values that were looked up, in the order of the lookups.
    pub closed spec fn looked_up(&self) -> Seq<nat> {
        self.looked_up@
    }

    /// How often `value` was looked up, as the table counts it.
    pub closed spec fn count(&self, value: int) -> u64 {
        self.counts@[value]
    }

    /// The counters as a sequence.
    pub closed spec fn counts(&self) -> Seq<u64> {
        self.counts@
    }

    /// Every looked-up value is one of the table, and each counter holds the
    /// number of lookups of its value.
    pub open spec fn wf(&self) -> bool {
        &&& self.counts().len() == self.size()
        &&& in_table(self.looked_up(), self.size())
        &&& forall|value: int|
            0 <= value < self.size() ==> #[trigger] self.count(value) == occurrences(
                self.looked_up(),
                value as nat,
            )
        &&& forall|value: int| 0 <= value < self.size() ==> self.counts()[value] == self.count(value)
    }

    /// A table of `size` values, none of which was looked up yet.
    pub fn new(size: usize) -> (table: Self)
        ensures
            table.wf(),
            table.size() == size,
            table.looked_up() == Seq::<nat>::empty(),
    {
        let mut counts: Vec<u64> = Vec::with_capacity(size);
        let mut i: usize = 0;
        while i < size
            invariant
                i <= size,
                counts.len() == i,
                forall|k: int| 0 <= k < i ==> counts[k] == 0,
            decreases size - i,
        {
            counts.push(0);
            i = i + 1;
        }
        proof {
            reveal(in_table);
        }
        Multiplicities { counts, looked_up: Ghost(Seq::empty()) }
    }

    /// Looks `value` up: its counter grows by one.
    pub fn lookup(&mut self, value: u32)
        requires
            old(self).wf(),
            value < old(self).size(),
            old(self).looked_up().len() < u64::MAX,
        ensures
            final(self).wf(),
            final(self).size() == old(self).size(),
            final(self).looked_up() == old(self).looked_up().push(value as nat),
    {
        let ghost before = self.looked_up@;
        let index = value as usize;
        proof {
            reveal(in_table);
            lemma_occurrences_bound(before, value as nat);
            assert(self.count(index as int) == occurrences(before, value as nat));
        }
        let count = self.counts[index];
        self.counts[index] = count + 1;
        self.looked_up = Ghost(before.push(value as nat));
        proof {
            let after = before.push(value as nat);
            assert(after.drop_last() =~= before);
            assert forall|v: int| 0 <= v < self.size() implies #[trigger] self.count(v)
                == occurrences(after, v as nat) by {
                assert(old(self).count(v) == occurrences(before, v as nat));
            }
        }
    }

    /// How often `value` was looked up.
    pub fn multiplicity(&self, value: usize) -> (count: u64)
        requires
            self.wf(),
            value < self.size(),
        ensures
            count == occurrences(self.looked_up(), value as nat),
    {
        assert(self.count(value as int) == occurrences(self.looked_up(), value as nat));
        self.counts[value]
    }

    /// The sum of all counters, which is the number of lookups.
    pub fn total(&self) -> (total: u64)
        requires
            self.wf(),
            self.looked_up().len() <= u64::MAX,
        ensures
            total == sum_of(self.counts(), self.size()),
            total == self.looked_up().len(),
    {
        let ghost values = self.looked_up@;
        let mut total: u64 = 0;
        let mut i: usize = 0;
        proof {
            lemma_occurrences_add_up(values, self.size());
        }
        while i < self.counts.len()
            invariant
                self.wf(),
                values == self.looked_up(),
                values.len() <= u64::MAX,
                i <= self.counts.len(),
                self.counts.len() == self.size(),
                total == sum_of(self.counts(), i as nat),
                total == occurrences_below(values, i as nat),
                occurrences_below(values, self.size()) == values.len(),
            decreases self.counts.len() - i,
        {
            proof {
                lemma_occurrences_below_monotonic(values, (i + 1) as nat, self.size());
                assert(self.count(i as int) == occurrences(values, i as nat));
            }
            total = total + self.counts[i];
            i = i + 1;
        }
        total
    }
}

/// The counts of fewer numbers do not add up to more.
proof fn lemma_occurrences_below_monotonic(values: Seq<nat>, low: nat, high: nat)
    requires
        low <= high,
    ensures
        occurrences_below(values, low) <= occurrences_below(values, high),
    decreases high,
{
    if low < high {
        lemma_occurrences_below_monotonic(values, low, (high - 1) as nat);
    }
}

/// The fields whose four values each are looked up in the table of bytes, in
/// the order in which the chip looks them up.
pub open spec fn checked_words() -> Seq<Column> {
    seq![
        Column::Pc,
        Column::PcNext,
        Column::InstrVal,
        Column::ValueA,
        Column::ValueB,
        Column::ValueC,
        Column::ValueAEffective,
        Column::Reg1ValPrev,
        Column::Reg2ValPrev,
        Column::Reg3ValPrev,
        Column::Reg1TsPrev,
        Column::Reg2TsPrev,
        Column::Reg3TsPrev,
        Column::CReg1TsPrev,
        Column::CReg2TsPrev,
        Column::CReg3TsPrev,
    ]
}

/// The fields whose four values each are looked up in the table of bytes.
pub fn checked_columns() -> (columns: [Column; 16])
    ensures
        columns@ == checked_words(),
        forall|i: int| 0 <= i < 16 ==> (#[trigger] columns@[i]).size_spec() == 4,
{
    let columns = [
        Column::Pc,
        Column::PcNext,
        Column::InstrVal,
        Column::ValueA,
        Column::ValueB,
        Column::ValueC,
        Column::ValueAEffective,
        Column::Reg1ValPrev,
        Column::Reg2ValPrev,
        Column::Reg3ValPrev,
        Column::Reg1TsPrev,
        Column::Reg2TsPrev,
        Column::Reg3TsPrev,
        Column::CReg1TsPrev,
        Column::CReg2TsPrev,
        Column::CReg3TsPrev,
    ];
    assert(columns@ =~= checked_words());
    columns
}

/// The values that `row` holds in the first `count` fields of `columns`, one
/// field after the other.
pub open spec fn values_of(traces: &Traces, row: int, columns: Seq<Column>, count: nat) -> Seq<nat>
    decreases count,
{
    if count == 0 {
        Seq::empty()
    } else {
        values_of(traces, row, columns, (count - 1) as nat) + traces.field(
            row,
            columns[count - 1],
        )
    }
}

/// The values of `row` that are looked up in the table of bytes, in the
/// order of the lookups.
pub open spec fn byte_lookups(traces: &Traces, row: int) -> Seq<nat> {
    values_of(traces, row, checked_words(), checked_words().len())
}

/// Whether all values of `row` that are looked up in the table of bytes are bytes.
#[verifier::opaque]
pub open spec fn bytes_in_range(traces: &Traces, row: int) -> bool {
    forall|i: int|
        0 <= i < checked_words().len() ==> is_byte_word(
            traces.field(row, #[trigger] checked_words()[i]),
        )
}

/// The fields that are looked up in the table of bytes, as a set.
pub open spec fn checked_set() -> Set<Column> {
    Set::new(|col: Column| checked_words().contains(col))
}

/// The lookups of a row stay the same for as long as its fields stay as they are.
pub proof fn lemma_byte_lookups_kept(before: &Traces, after: &Traces, row: int)
    requires
        crate::trace::agree_on(before, after, row, checked_set()),
    ensures
        byte_lookups(after, row) == byte_lookups(before, row),
        bytes_in_range(before, row) ==> bytes_in_range(after, row),
{
    reveal(bytes_in_range);
    lemma_values_of_kept(before, after, row, checked_words().len());
    assert forall|i: int| 0 <= i < checked_words().len() implies after.field(
        row,
        #[trigger] checked_words()[i],
    ) == before.field(row, checked_words()[i]) by {
        assert(checked_set().contains(checked_words()[i]));
    }
}

proof fn lemma_values_of_kept(before: &Traces, after: &Traces, row: int, count: nat)
    requires
        crate::trace::agree_on(before, after, row, checked_set()),
        count <= checked_words().len(),
    ensures
        values_of(after, row, checked_words(), count) == values_of(
            before,
            row,
            checked_words(),
            count,
        ),
    decreases count,
{
    if count > 0 {
        lemma_values_of_kept(before, after, row, (count - 1) as nat);
        assert(checked_set().contains(checked_words()[count - 1]));
    }
}

/// The lookup tables that the chips share.
#[derive(Debug, Copy, Clone, PartialEq, Eq, Structural, Hash)]
pub enum LookupTable {
    /// The numbers from 0 to 7.
    Range8,
    /// The numbers from 0 to 15.
    Range16,
    /// The numbers from 0 to 31.
    Range32,
    /// The numbers from 0 to 127.
    Range128,
    /// The numbers from 0 to 255.
    Range256,
    /// The bitwise AND of two numbers of four bits, at 16 times the first plus the second.
    BitwiseAnd,
    /// The bitwise OR of two numbers of four bits, at 16 times the first plus the second.
    BitwiseOr,
    /// The bitwise XOR of two numbers of four bits, at 16 times the first plus the second.
    BitwiseXor,
}

impl LookupTable {
    /// Number of values of the table.
    pub open spec fn size_spec(self) -> nat {
        match self {
            LookupTable::Range8 => 8,
            LookupTable::Range16 => 16,
            LookupTable::Range32 => 32,
            LookupTable::Range128 => 128,
            LookupTable::Range256 => 256,
            LookupTable::BitwiseAnd => 256,
            LookupTable::BitwiseOr => 256,
            LookupTable::BitwiseXor => 256,
        }
    }

    /// The field that holds the multiplicities of the table, one per row.
    pub open spec fn multiplicity_spec(self) -> Column {
        match self {
            LookupTable::Range8 => Column::Multiplicity8,
            LookupTable::Range16 => Column::Multiplicity16,
            LookupTable::Range32 => Column::Multiplicity32,
            LookupTable::Range128 => Column::Multiplicity128,
            LookupTable::Range256 => Column::Multiplicity256,
            LookupTable::BitwiseAnd => Column::MultiplicityAnd,
            LookupTable::BitwiseOr => Column::MultiplicityOr,
            LookupTable::BitwiseXor => Column::MultiplicityXor,
        }
    }

    /// Number of values of the table.
    pub fn size(self) -> (size: usize)
        ensures
            size == self.size_spec(),
    {
        match self {
            LookupTable::Range8 => 8,
            LookupTable::Range16 => 16,
            LookupTable::Range32 => 32,
            LookupTable::Range128 => 128,
            LookupTable::Range256 => 256,
            LookupTable::BitwiseAnd => 256,
            LookupTable::BitwiseOr => 256,
            LookupTable::BitwiseXor => 256,
        }
    }

    /// The field that holds the multiplicities of the table, one per row.
    #[verifier::when_used_as_spec(multiplicity_spec)]
    pub fn multiplicity(self) -> (col: Column)
        ensures
            col == self.multiplicity_spec(),
            col.size_spec() == 1,
    {
        match self {
            LookupTable::Range8 => Column::Multiplicity8,
            LookupTable::Range16 => Column::Multiplicity16,
            LookupTable::Range32 => Column::Multiplicity32,
            LookupTable::Range128 => Column::Multiplicity128,
            LookupTable::Range256 => Column::Multiplicity256,
            LookupTable::BitwiseAnd => Column::MultiplicityAnd,
            LookupTable::BitwiseOr => Column::MultiplicityOr,
            LookupTable::BitwiseXor => Column::MultiplicityXor,
        }
    }
}

/// All lookup tables.
pub open spec fn all_tables() -> Seq<LookupTable> {
    seq![
        LookupTable::Range8,
        LookupTable::Range16,
        LookupTable::Range32,
        LookupTable::Range128,
        LookupTable::Range256,
        LookupTable::BitwiseAnd,
        LookupTable::BitwiseOr,
        LookupTable::BitwiseXor,
    ]
}

/// All lookup tables.
pub fn lookup_tables() -> (tables: [LookupTable; 8])
    ensures
        tables@ == all_tables(),
{
    let tables = [
        LookupTable::Range8,
        LookupTable::Range16,
        LookupTable::Range32,
        LookupTable::Range128,
        LookupTable::Range256,
        LookupTable::BitwiseAnd,
        LookupTable::BitwiseOr,
        LookupTable::BitwiseXor,
    ];
    assert(tables@ =~= all_tables());
    tables
}

/// The fields that hold the multiplicities of the lookup tables.
pub open spec fn multiplicity_columns() -> Set<Column> {
    Set::new(|col: Column| exists|table: LookupTable| col == #[trigger] table.multiplicity_spec())
}

/// The multiplicities of the lookup tables.
pub struct RangeCheckSideNote {
    range8: Multiplicities,
    range16: Multiplicities,
    range32: Multiplicities,
    range128: Multiplicities,
    range256: Multiplicities,
    bitwise_and: Multiplicities,
    bitwise_or: Multiplicities,
    bitwise_xor: Multiplicities,
}

impl RangeCheckSideNote {
    /// The multiplicities of `table`.
    pub closed spec fn table(&self, table: LookupTable) -> Multiplicities {
        match table {
            LookupTable::Range8 => self.range8,
            LookupTable::Range16 => self.range16,
            LookupTable::Range32 => self.range32,
            LookupTable::Range128 => self.range128,
            LookupTable::Range256 => self.range256,
            LookupTable::BitwiseAnd => self.bitwise_and,
            LookupTable::BitwiseOr => self.bitwise_or,
            LookupTable::BitwiseXor => self.bitwise_xor,
        }
    }

    /// The values that were looked up in `table`, in the order of the lookups.
    pub open spec fn looked_up(&self, table: LookupTable) -> Seq<nat> {
        self.table(table).looked_up()
    }

    /// Every table has its size and counts its lookups.
    pub open spec fn wf(&self) -> bool {
        forall|table: LookupTable|
            (#[trigger] self.table(table)).wf() && self.table(table).size() == table.size_spec()
    }

    /// Tables in which nothing was looked up yet.
    pub fn new() -> (note: Self)
        ensures
            note.wf(),
            forall|table: LookupTable| #[trigger] note.looked_up(table) == Seq::<nat>::empty(),
    {
        RangeCheckSideNote {
            range8: Multiplicities::new(8),
            range16: Multiplicities::new(16),
            range32: Multiplicities::new(32),
            range128: Multiplicities::new(128),
            range256: Multiplicities::new(256),
            bitwise_and: Multiplicities::new(256),
            bitwise_or: Multiplicities::new(256),
            bitwise_xor: Multiplicities::new(256),
        }
    }

    /// Looks `value` up in `table`.
    pub fn lookup(&mut self, table: LookupTable, value: u32)
        requires
            old(self).wf(),
            value < table.size_spec(),
            old(self).looked_up(table).len() < u64::MAX,
        ensures
            final(self).wf(),
            final(self).looked_up(table) == old(self).looked_up(table).push(value as nat),
            forall|other: LookupTable|
                other != table ==> #[trigger] final(self).looked_up(other) == old(self).looked_up(
                    other,
                ),
    {
        assert(self.table(table).wf());
        match table {
            LookupTable::Range8 => self.range8.lookup(value),
            LookupTable::Range16 => self.range16.lookup(value),
            LookupTable::Range32 => self.range32.lookup(value),
            LookupTable::Range128 => self.range128.lookup(value),
            LookupTable::Range256 => self.range256.lookup(value),
            LookupTable::BitwiseAnd => self.bitwise_and.lookup(value),
            LookupTable::BitwiseOr => self.bitwise_or.lookup(value),
            LookupTable::BitwiseXor => self.bitwise_xor.lookup(value),
        }
        assert forall|other: LookupTable|
            (#[trigger] self.table(other)).wf() && self.table(other).size()
                == other.size_spec() by {
            assert(old(self).table(other).wf());
        }
    }

    /// How often `value` was looked up in `table`.
    pub fn multiplicity(&self, table: LookupTable, value: usize) -> (count: u64)
        requires
            self.wf(),
            value < table.size_spec(),
        ensures
            count == occurrences(self.looked_up(table), value as nat),
    {
        assert(self.table(table).wf());
        match table {
            LookupTable::Range8 => self.range8.multiplicity(value),
            LookupTable::Range16 => self.range16.multiplicity(value),
            LookupTable::Range32 => self.range32.multiplicity(value),
            LookupTable::Range128 => self.range128.multiplicity(value),
            LookupTable::Range256 => self.range256.multiplicity(value),
            LookupTable::BitwiseAnd => self.bitwise_and.multiplicity(value),
            LookupTable::BitwiseOr => self.bitwise_or.multiplicity(value),
            LookupTable::BitwiseXor => self.bitwise_xor.multiplicity(value),
        }
    }

    /// The number of lookups in `table`, as the sum of its multiplicities.
    pub fn total(&self, table: LookupTable) -> (total: u64)
        requires
            self.wf(),
            self.looked_up(table).len() <= u64::MAX,
        ensures
            total == self.looked_up(table).len(),
            total == occurrences_below(self.looked_up(table), table.size_spec()),
    {
        assert(self.table(table).wf());
        proof {
            lemma_occurrences_add_up(self.looked_up(table), table.size_spec());
        }
        match table {
            LookupTable::Range8 => self.range8.total(),
            LookupTable::Range16 => self.range16.total(),
            LookupTable::Range32 => self.range32.total(),
            LookupTable::Range128 => self.range128.total(),
            LookupTable::Range256 => self.range256.total(),
            LookupTable::BitwiseAnd => self.bitwise_and.total(),
            LookupTable::BitwiseOr => self.bitwise_or.total(),
            LookupTable::BitwiseXor => self.bitwise_xor.total(),
        }
    }
}

/// Whether `flag` is set in `row`.
pub open spec fn flagged(traces: &Traces, row: int, flag: Column) -> bool {
    traces.field(row, flag)[0] == 1
}

/// The places of the table of a bitwise operation that a row of that
/// operation looks up: for each byte of the operands, the lower halves of
/// four bits of the second and third operand, and their upper halves.
pub open spec fn nibble_pairs(traces: &Traces, row: int) -> Seq<nat> {
    let b_low = traces.field(row, Column::ValueB0_3);
    let b_high = traces.field(row, Column::ValueB4_7);
    let c_low = traces.field(row, Column::ValueC0_3);
    let c_high = traces.field(row, Column::ValueC4_7);
    seq![
        0x10 * b_low[0] + c_low[0],
        0x10 * b_high[0] + c_high[0],
        0x10 * b_low[1] + c_low[1],
        0x10 * b_high[1] + c_high[1],
        0x10 * b_low[2] + c_low[2],
        0x10 * b_high[2] + c_high[2],
        0x10 * b_low[3] + c_low[3],
        0x10 * b_high[3] + c_high[3],
    ]
}

/// The values of `row` that must lie below 128: the highest bytes without
/// their sign bits in the row of a signed comparison or of a load that
/// extends the sign, and half the lowest byte of the target in the row of a
/// jump to a register.
pub open spec fn seven_bit_values(traces: &Traces, row: int) -> Seq<nat> {
    if flagged(traces, row, Column::IsSlt) || flagged(traces, row, Column::IsBlt) || flagged(
        traces,
        row,
        Column::IsBge,
    ) {
        seq![traces.field(row, Column::Helper2)[0], traces.field(row, Column::Helper2)[1]]
    } else if flagged(traces, row, Column::IsJalr) || flagged(traces, row, Column::IsLb) || flagged(
        traces,
        row,
        Column::IsLh,
    ) {
        seq![traces.field(row, Column::QtAux)[0]]
    } else {
        Seq::empty()
    }
}

/// The values that `row` looks up in `table`, in the order of the lookups:
/// the slices of three and of four bits of the operands, the numbers of the
/// two registers that the row reads, the rests of seven bits of a signed
/// comparison, of a jump to a register and of a load that extends a sign,
/// the bytes of the row's words, and the pairs of halves of a bitwise
/// operation.
pub open spec fn row_lookups(traces: &Traces, row: int, table: LookupTable) -> Seq<nat> {
    match table {
        LookupTable::Range8 => seq![
            traces.field(row, Column::OpC1_3)[0],
            traces.field(row, Column::OpC8_10)[0],
        ],
        LookupTable::Range16 => seq![
            traces.field(row, Column::OpA1_4)[0],
            traces.field(row, Column::OpB1_4)[0],
            traces.field(row, Column::OpC0_3)[0],
            traces.field(row, Column::OpC4_7)[0],
            traces.field(row, Column::OpC12_15)[0],
            traces.field(row, Column::OpC16_19)[0],
        ],
        LookupTable::Range32 => seq![
            traces.field(row, Column::OpA)[0],
            traces.field(row, Column::OpB)[0],
        ],
        LookupTable::Range128 => seven_bit_values(traces, row),
        LookupTable::Range256 => byte_lookups(traces, row),
        LookupTable::BitwiseAnd => if flagged(traces, row, Column::IsAnd) {
            nibble_pairs(traces, row)
        } else {
            Seq::empty()
        },
        LookupTable::BitwiseOr => if flagged(traces, row, Column::IsOr) {
            nibble_pairs(traces, row)
        } else {
            Seq::empty()
        },
        LookupTable::BitwiseXor => if flagged(traces, row, Column::IsXor) {
            nibble_pairs(traces, row)
        } else {
            Seq::empty()
        },
    }
}

/// Whether every value that `row` looks up is one of its table.
#[verifier::opaque]
pub open spec fn lookups_in_range(traces: &Traces, row: int) -> bool {
    &&& bytes_in_range(traces, row)
    &&& forall|table: LookupTable|
        in_table(#[trigger] row_lookups(traces, row, table), table.size_spec())
}

/// The fields that the lookups of a row speak of.
pub open spec fn lookup_reads() -> Set<Column> {
    checked_set().union(
        set![
            Column::OpA,
            Column::OpB,
            Column::IsSlt,
            Column::IsBlt,
            Column::IsBge,
            Column::IsJalr,
            Column::IsLb,
            Column::IsLh,
            Column::Helper2,
            Column::QtAux,
            Column::IsAnd,
            Column::IsOr,
            Column::IsXor,
            Column::ValueB0_3,
            Column::ValueB4_7,
            Column::ValueC0_3,
            Column::ValueC4_7,
            Column::OpC1_3,
            Column::OpC8_10,
            Column::OpA1_4,
            Column::OpB1_4,
            Column::OpC0_3,
            Column::OpC4_7,
            Column::OpC12_15,
            Column::OpC16_19,
        ],
    )
}

/// The lookups of a row stay the same for as long as its fields stay as they are.
pub proof fn lemma_row_lookups_kept(before: &Traces, after: &Traces, row: int)
    requires
        agree_on(before, after, row, lookup_reads()),
    ensures
        forall|table: LookupTable|
            #[trigger] row_lookups(after, row, table) == row_lookups(before, row, table),
        lookups_in_range(before, row) ==> lookups_in_range(after, row),
{
    reveal(lookups_in_range);
    assert(agree_on(before, after, row, checked_set()));
    lemma_byte_lookups_kept(before, after, row);
    assert(lookup_reads().contains(Column::OpA));
    assert(lookup_reads().contains(Column::OpB));
    assert(lookup_reads().contains(Column::IsSlt));
    assert(lookup_reads().contains(Column::IsBlt));
    assert(lookup_reads().contains(Column::IsBge));
    assert(lookup_reads().contains(Column::IsJalr));
    assert(lookup_reads().contains(Column::IsLb));
    assert(lookup_reads().contains(Column::IsLh));
    assert(lookup_reads().contains(Column::Helper2));
    assert(lookup_reads().contains(Column::QtAux));
    assert(lookup_reads().contains(Column::IsAnd));
    assert(lookup_reads().contains(Column::IsOr));
    assert(lookup_reads().contains(Column::IsXor));
    assert(lookup_reads().contains(Column::ValueB0_3));
    assert(lookup_reads().contains(Column::ValueB4_7));
    assert(lookup_reads().contains(Column::ValueC0_3));
    assert(lookup_reads().contains(Column::ValueC4_7));
    assert(lookup_reads().contains(Column::OpC1_3));
    assert(lookup_reads().contains(Column::OpC8_10));
    assert(lookup_reads().contains(Column::OpA1_4));
    assert(lookup_reads().contains(Column::OpB1_4));
    assert(lookup_reads().contains(Column::OpC0_3));
    assert(lookup_reads().contains(Column::OpC4_7));
    assert(lookup_reads().contains(Column::OpC12_15));
    assert(lookup_reads().contains(Column::OpC16_19));
    assert forall|table: LookupTable|
        #[trigger] row_lookups(after, row, table) == row_lookups(before, row, table) by {}
    if lookups_in_range(before, row) {
        assert forall|table: LookupTable|
            in_table(#[trigger] row_lookups(after, row, table), table.size_spec()) by {
            assert(in_table(row_lookups(before, row, table), table.size_spec()));
        }
    }
}

/// The numbers of `values`.
pub open spec fn as_nats(values: Seq<u32>) -> Seq<nat> {
    Seq::new(values.len(), |i: int| values[i] as nat)
}

/// Looks up every value that must lie in a range, and every pair of halves
/// of which a bitwise operation is taken, and writes the multiplicities of
/// the tables.
pub struct RangeCheckChip;

impl RangeCheckChip {
    /// The most lookups that one row makes in one table.
    pub const LOOKUPS_PER_ROW: u64 = 64;

    /// Whether the single scalar column of `flag` holds 1 in `row_idx`.
    fn is_flagged(traces: &Traces, row_idx: usize, flag: Column) -> (set: bool)
        requires
            traces.wf(),
            row_idx < traces.rows(),
            flag.size_spec() == 1,
        ensures
            set == flagged(traces, row_idx as int, flag),
    {
        let values = traces.column(row_idx, flag);
        assert(crate::trace::numbers(values@)[0] == values@[0]@);
        values[0].value() == 1
    }

    /// The first value of the single scalar column of `col` in `row_idx`.
    fn value_of(traces: &Traces, row_idx: usize, col: Column, place: usize) -> (value: u32)
        requires
            traces.wf(),
            row_idx < traces.rows(),
            place < col.size_spec(),
        ensures
            value == traces.field(row_idx as int, col)[place as int],
    {
        let values = traces.column(row_idx, col);
        assert(crate::trace::numbers(values@)[place as int] == values@[place as int]@);
        values[place].value()
    }

    /// The values of `row_idx` that are looked up in the table of bytes.
    fn byte_values(traces: &Traces, row_idx: usize) -> (values: Vec<u32>)
        requires
            traces.wf(),
            row_idx < traces.rows(),
        ensures
            as_nats(values@) == byte_lookups(traces, row_idx as int),
            values@.len() == 64,
    {
        let columns = checked_columns();
        let ghost row = row_idx as int;
        let mut values: Vec<u32> = Vec::with_capacity(64);
        let mut i: usize = 0;
        proof {
            assert(as_nats(values@) =~= values_of(traces, row, checked_words(), 0));
        }
        while i < 16
            invariant
                i <= 16,
                traces.wf(),
                row == row_idx,
                row_idx < traces.rows(),
                columns@ == checked_words(),
                forall|k: int| 0 <= k < 16 ==> (#[trigger] columns@[k]).size_spec() == 4,
                values@.len() == 4 * i,
                as_nats(values@) == values_of(traces, row, checked_words(), i as nat),
            decreases 16 - i,
        {
            let col = columns[i];
            let ghost field = traces.field(row, col);
            let ghost before = values@;
            let cells = traces.column(row_idx, col);
            proof {
                assert(col == checked_words()[i as int]);
                assert(col.size_spec() == 4);
                assert(crate::trace::numbers(cells@)[0] == cells@[0]@);
                assert(crate::trace::numbers(cells@)[1] == cells@[1]@);
                assert(crate::trace::numbers(cells@)[2] == cells@[2]@);
                assert(crate::trace::numbers(cells@)[3] == cells@[3]@);
            }
            values.push(cells[0].value());
            values.push(cells[1].value());
            values.push(cells[2].value());
            values.push(cells[3].value());
            proof {
                assert(as_nats(values@) =~= as_nats(before) + field);
                assert(values_of(traces, row, checked_words(), (i + 1) as nat) == values_of(
                    traces,
                    row,
                    checked_words(),
                    i as nat,
                ) + field);
            }
            i = i + 1;
        }
        values
    }

    /// The places of the table of a bitwise operation that `row_idx` looks up.
    fn nibble_pair_values(traces: &Traces, row_idx: usize) -> (values: Vec<u32>)
        requires
            traces.wf(),
            row_idx < traces.rows(),
            in_table(nibble_pairs(traces, row_idx as int), 256),
        ensures
            as_nats(values@) == nibble_pairs(traces, row_idx as int),
            values@.len() == 8,
    {
        let b_low = traces.column(row_idx, Column::ValueB0_3);
        let b_high = traces.column(row_idx, Column::ValueB4_7);
        let c_low = traces.column(row_idx, Column::ValueC0_3);
        let c_high = traces.column(row_idx, Column::ValueC4_7);
        let ghost pairs = nibble_pairs(traces, row_idx as int);
        let mut values: Vec<u32> = Vec::with_capacity(8);
        let mut i: usize = 0;
        proof {
            reveal(in_table);
        }
        while i < 4
            invariant
                i <= 4,
                values@.len() == 2 * i,
                b_low@.len() == 4 && b_high@.len() == 4 && c_low@.len() == 4 && c_high@.len() == 4,
                crate::trace::numbers(b_low@) == traces.field(row_idx as int, Column::ValueB0_3),
                crate::trace::numbers(b_high@) == traces.field(row_idx as int, Column::ValueB4_7),
                crate::trace::numbers(c_low@) == traces.field(row_idx as int, Column::ValueC0_3),
                crate::trace::numbers(c_high@) == traces.field(row_idx as int, Column::ValueC4_7),
                pairs == nibble_pairs(traces, row_idx as int),
                forall|k: int| 0 <= k < 8 ==> #[trigger] pairs[k] < 256,
                forall|k: int| 0 <= k < 2 * i ==> #[trigger] values@[k] == pairs[k],
            decreases 4 - i,
        {
            proof {
                assert(crate::trace::numbers(b_low@)[i as int] == b_low@[i as int]@);
                assert(crate::trace::numbers(b_high@)[i as int] == b_high@[i as int]@);
                assert(crate::trace::numbers(c_low@)[i as int] == c_low@[i as int]@);
                assert(crate::trace::numbers(c_high@)[i as int] == c_high@[i as int]@);
                assert(pairs[2 * i] < 256);
                assert(pairs[2 * i + 1] < 256);
            }
            let low: u64 = 0x10 * (b_low[i].value() as u64) + c_low[i].value() as u64;
            let high: u64 = 0x10 * (b_high[i].value() as u64) + c_high[i].value() as u64;
            values.push(low as u32);
            values.push(high as u32);
            i = i + 1;
        }
        proof {
            assert(as_nats(values@) =~= pairs);
        }
        values
    }

    /// The values that `row_idx` looks up in `table`.
    fn row_values(traces: &Traces, row_idx: usize, table: LookupTable) -> (values: Vec<u32>)
        requires
            traces.wf(),
            row_idx < traces.rows(),
            lookups_in_range(traces, row_idx as int),
        ensures
            as_nats(values@) == row_lookups(traces, row_idx as int, table),
            values@.len() <= 64,
    {
        proof {
            reveal(lookups_in_range);
            assert(in_table(row_lookups(traces, row_idx as int, table), table.size_spec()));
        }
        match table {
            LookupTable::Range8 => {
                let mut values: Vec<u32> = Vec::new();
                values.push(Self::value_of(traces, row_idx, Column::OpC1_3, 0));
                values.push(Self::value_of(traces, row_idx, Column::OpC8_10, 0));
                assert(as_nats(values@) =~= row_lookups(traces, row_idx as int, table));
                values
            },
            LookupTable::Range16 => {
                let mut values: Vec<u32> = Vec::new();
                values.push(Self::value_of(traces, row_idx, Column::OpA1_4, 0));
                values.push(Self::value_of(traces, row_idx, Column::OpB1_4, 0));
                values.push(Self::value_of(traces, row_idx, Column::OpC0_3, 0));
                values.push(Self::value_of(traces, row_idx, Column::OpC4_7, 0));
                values.push(Self::value_of(traces, row_idx, Column::OpC12_15, 0));
                values.push(Self::value_of(traces, row_idx, Column::OpC16_19, 0));
                assert(as_nats(values@) =~= row_lookups(traces, row_idx as int, table));
                values
            },
            LookupTable::Range32 => {
                let mut values: Vec<u32> = Vec::new();
                values.push(Self::value_of(traces, row_idx, Column::OpA, 0));
                values.push(Self::value_of(traces, row_idx, Column::OpB, 0));
                assert(as_nats(values@) =~= row_lookups(traces, row_idx as int, table));
                values
            },
            LookupTable::Range128 => {
                let mut values: Vec<u32> = Vec::new();
                if Self::is_flagged(traces, row_idx, Column::IsSlt) || Self::is_flagged(
                    traces,
                    row_idx,
                    Column::IsBlt,
                ) || Self::is_flagged(traces, row_idx, Column::IsBge) {
                    values.push(Self::value_of(traces, row_idx, Column::Helper2, 0));
                    values.push(Self::value_of(traces, row_idx, Column::Helper2, 1));
                } else if Self::is_flagged(traces, row_idx, Column::IsJalr) || Self::is_flagged(
                    traces,
                    row_idx,
                    Column::IsLb,
                ) || Self::is_flagged(traces, row_idx, Column::IsLh) {
                    values.push(Self::value_of(traces, row_idx, Column::QtAux, 0));
                }
                assert(as_nats(values@) =~= row_lookups(traces, row_idx as int, table));
                values
            },
            LookupTable::Range256 => Self::byte_values(traces, row_idx),
            LookupTable::BitwiseAnd => {
                if Self::is_flagged(traces, row_idx, Column::IsAnd) {
                    Self::nibble_pair_values(traces, row_idx)
                } else {
                    let values: Vec<u32> = Vec::new();
                    assert(as_nats(values@) =~= Seq::<nat>::empty());
                    values
                }
            },
            LookupTable::BitwiseOr => {
                if Self::is_flagged(traces, row_idx, Column::IsOr) {
                    Self::nibble_pair_values(traces, row_idx)
                } else {
                    let values: Vec<u32> = Vec::new();
                    assert(as_nats(values@) =~= Seq::<nat>::empty());
                    values
                }
            },
            LookupTable::BitwiseXor => {
                if Self::is_flagged(traces, row_idx, Column::IsXor) {
                    Self::nibble_pair_values(traces, row_idx)
                } else {
                    let values: Vec<u32> = Vec::new();
                    assert(as_nats(values@) =~= Seq::<nat>::empty());
                    values
                }
            },
        }
    }

    /// Looks up each of `values` in `table`.
    fn look_up_all(side_note: &mut RangeCheckSideNote, table: LookupTable, values: &Vec<u32>)
        requires
            old(side_note).wf(),
            in_table(as_nats(values@), table.size_spec()),
            old(side_note).looked_up(table).len() + values@.len() <= u64::MAX,
        ensures
            final(side_note).wf(),
            final(side_note).looked_up(table) == old(side_note).looked_up(table) + as_nats(
                values@,
            ),
            forall|other: LookupTable|
                other != table ==> #[trigger] final(side_note).looked_up(other) == old(
                    side_note,
                ).looked_up(other),
    {
        let ghost before = side_note.looked_up(table);
        let mut i: usize = 0;
        proof {
            reveal(in_table);
            assert(before + as_nats(values@).take(0) =~= before);
        }
        while i < values.len()
            invariant
                i <= values@.len(),
                side_note.wf(),
                forall|k: int| 0 <= k < values@.len() ==> #[trigger] as_nats(values@)[k]
                    < table.size_spec(),
                before.len() + values@.len() <= u64::MAX,
                side_note.looked_up(table) == before + as_nats(values@).take(i as int),
                forall|other: LookupTable|
                    other != table ==> #[trigger] side_note.looked_up(other) == old(
                        side_note,
                    ).looked_up(other),
            decreases values@.len() - i,
        {
            proof {
                assert(as_nats(values@)[i as int] == values@[i as int]);
                assert(as_nats(values@).take(i + 1) =~= as_nats(values@).take(i as int).push(
                    values@[i as int] as nat,
                ));
            }
            side_note.lookup(table, values[i]);
            proof {
                assert(before + as_nats(values@).take(i as int).push(values@[i as int] as nat) =~= (
                before + as_nats(values@).take(i as int)).push(values@[i as int] as nat));
            }
            i = i + 1;
        }
        proof {
            assert(as_nats(values@).take(values@.len() as int) =~= as_nats(values@));
        }
    }

    /// Looks up in each table the values of `row_idx` that the table checks.
    /// The fields that hold them must have been filled before.
    pub fn fill_main_trace(traces: &Traces, row_idx: usize, side_note: &mut RangeCheckSideNote)
        requires
            traces.wf(),
            row_idx < traces.rows(),
            lookups_in_range(traces, row_idx as int),
            old(side_note).wf(),
            forall|table: LookupTable|
                (#[trigger] old(side_note).looked_up(table)).len() + Self::LOOKUPS_PER_ROW
                    <= u64::MAX,
        ensures
            final(side_note).wf(),
            forall|table: LookupTable|
                #[trigger] final(side_note).looked_up(table) == old(side_note).looked_up(table)
                    + row_lookups(traces, row_idx as int, table),
            forall|table: LookupTable|
                (#[trigger] row_lookups(traces, row_idx as int, table)).len()
                    <= Self::LOOKUPS_PER_ROW,
    {
        let tables = lookup_tables();
        let ghost row = row_idx as int;
        let mut i: usize = 0;
        while i < 8
            invariant
                i <= 8,
                traces.wf(),
                row == row_idx,
                row_idx < traces.rows(),
                lookups_in_range(traces, row),
                tables@ == all_tables(),
                side_note.wf(),
                forall|table: LookupTable|
                    (#[trigger] old(side_note).looked_up(table)).len() + 64 <= u64::MAX,
                forall|k: int|
                    0 <= k < i ==> side_note.looked_up(#[trigger] all_tables()[k]) == old(
                        side_note,
                    ).looked_up(all_tables()[k]) + row_lookups(traces, row, all_tables()[k])
                        && row_lookups(traces, row, all_tables()[k]).len() <= 64,
                forall|k: int|
                    i <= k < 8 ==> side_note.looked_up(#[trigger] all_tables()[k]) == old(
                        side_note,
                    ).looked_up(all_tables()[k]),
            decreases 8 - i,
        {
            let table = tables[i];
            let ghost before = *side_note;
            assert(table == all_tables()[i as int]);
            let values = Self::row_values(traces, row_idx, table);
            proof {
                reveal(lookups_in_range);
                assert(in_table(row_lookups(traces, row, table), table.size_spec()));
                assert(as_nats(values@).len() == values@.len());
                assert(old(side_note).looked_up(table).len() + 64 <= u64::MAX);
            }
            Self::look_up_all(side_note, table, &values);
            proof {
                assert forall|k: int| 0 <= k < 8 && k != i implies side_note.looked_up(
                    #[trigger] all_tables()[k],
                ) == before.looked_up(all_tables()[k]) by {
                    assert(all_tables()[k] != table);
                }
            }
            i = i + 1;
        }
        proof {
            assert forall|table: LookupTable|
                #[trigger] side_note.looked_up(table) == old(side_note).looked_up(table)
                    + row_lookups(traces, row, table) && row_lookups(traces, row, table).len()
                    <= 64 by {
                lemma_all_tables(table);
            }
        }
    }

    /// What the trace holds about `table` once the chip has closed it: the
    /// row with the number of a value of the table holds, as a field
    /// element, how often that value is among `looked_up`.
    pub open spec fn finalized(traces: &Traces, table: LookupTable, looked_up: Seq<nat>) -> bool {
        forall|value: int|
            0 <= value < table.size_spec() ==> #[trigger] traces.field(
                value,
                table.multiplicity_spec(),
            ) == seq![occurrences(looked_up, value as nat) % (P as nat)]
    }

    /// Writes the multiplicities of `table`.
    fn fill_table(traces: &mut Traces, side_note: &RangeCheckSideNote, table: LookupTable)
        requires
            old(traces).wf(),
            old(traces).rows() >= 256,
            side_note.wf(),
        ensures
            final(traces).wf(),
            final(traces).same_outside_fields(old(traces), set![table.multiplicity_spec()]),
            Self::finalized(final(traces), table, side_note.looked_up(table)),
    {
        let ghost looked_up = side_note.looked_up(table);
        let size = table.size();
        let col = table.multiplicity();
        let mut value: usize = 0;
        while value < size
            invariant
                value <= size,
                size == table.size_spec(),
                size <= 256,
                col == table.multiplicity_spec(),
                col.size_spec() == 1,
                traces.wf(),
                traces.rows() >= 256,
                side_note.wf(),
                looked_up == side_note.looked_up(table),
                traces.same_outside_fields(old(traces), set![col]),
                forall|v: int|
                    0 <= v < value ==> #[trigger] traces.field(v, col) == seq![
                        occurrences(looked_up, v as nat) % (P as nat),
                    ],
            decreases size - value,
        {
            let count = side_note.multiplicity(table, value);
            let reduced = (count % (P as u64)) as u32;
            let ghost before = *traces;
            traces.fill_columns_value(value, col, BaseField::from_u32(reduced));
            proof {
                assert forall|v: int| 0 <= v < value + 1 implies #[trigger] traces.field(v, col)
                    == seq![occurrences(looked_up, v as nat) % (P as nat)] by {
                    if v < value {
                        assert(before.field(v, col) == seq![
                            occurrences(looked_up, v as nat) % (P as nat),
                        ]);
                    }
                }
            }
            value = value + 1;
        }
    }

    /// Writes the multiplicity of each value of each table to the row with
    /// the value's number. The trace must have 256 rows.
    pub fn fill_final(traces: &mut Traces, side_note: &RangeCheckSideNote)
        requires
            old(traces).wf(),
            old(traces).rows() >= 256,
            side_note.wf(),
        ensures
            final(traces).wf(),
            final(traces).same_outside_fields(old(traces), multiplicity_columns()),
            forall|table: LookupTable|
                #[trigger] Self::finalized(final(traces), table, side_note.looked_up(table)),
    {
        let tables = lookup_tables();
        let mut i: usize = 0;
        while i < 8
            invariant
                i <= 8,
                tables@ == all_tables(),
                traces.wf(),
                traces.rows() >= 256,
                side_note.wf(),
                traces.same_outside_fields(old(traces), multiplicity_columns()),
                forall|k: int|
                    0 <= k < i ==> Self::finalized(
                        traces,
                        #[trigger] all_tables()[k],
                        side_note.looked_up(all_tables()[k]),
                    ),
            decreases 8 - i,
        {
            let table = tables[i];
            let ghost before = *traces;
            assert(table == all_tables()[i as int]);
            Self::fill_table(traces, side_note, table);
            proof {
                assert(multiplicity_columns().contains(table.multiplicity_spec()));
                assert forall|k: int| 0 <= k < i implies Self::finalized(
                    traces,
                    #[trigger] all_tables()[k],
                    side_note.looked_up(all_tables()[k]),
                ) by {
                    let earlier = all_tables()[k];
                    assert(Self::finalized(&before, earlier, side_note.looked_up(earlier)));
                    assert(earlier.multiplicity_spec() != table.multiplicity_spec());
                    assert forall|value: int|
                        0 <= value < earlier.size_spec() implies #[trigger] traces.field(
                        value,
                        earlier.multiplicity_spec(),
                    ) == before.field(value, earlier.multiplicity_spec()) by {}
                }
            }
            i = i + 1;
        }
        proof {
            assert forall|table: LookupTable|
                #[trigger] Self::finalized(traces, table, side_note.looked_up(table)) by {
                lemma_all_tables(table);
            }
        }
    }
}

/// Every table is one of all tables.
pub proof fn lemma_all_tables(table: LookupTable)
    ensures
        exists|k: int| 0 <= k < 8 && #[trigger] all_tables()[k] == table,
{
    match table {
        LookupTable::Range8 => assert(all_tables()[0] == table),
        LookupTable::Range16 => assert(all_tables()[1] == table),
        LookupTable::Range32 => assert(all_tables()[2] == table),
        LookupTable::Range128 => assert(all_tables()[3] == table),
        LookupTable::Range256 => assert(all_tables()[4] == table),
        LookupTable::BitwiseAnd => assert(all_tables()[5] == table),
        LookupTable::BitwiseOr => assert(all_tables()[6] == table),
        LookupTable::BitwiseXor => assert(all_tables()[7] == table),
    }
}

} // verus!
