//! The trace buffer: a matrix of field elements with one vector per scalar
//! column and `2^log_size` rows, addressed by row and by [`Column`].

use vstd::prelude::*;
use vstd::arithmetic::power2::{lemma_pow2_strictly_increases, lemma_pow2_unfold, pow2};
use crate::column::{
    ColumnsEnum,
    lemma_declaration_order,
    lemma_range_within_total,
    lemma_ranges_are_disjoint,
    Column,
};
use crate::domain::{
    bit_reverse,
    bit_reverse_spec,
    circle_domain_order,
    committed_order,
    coset_order_to_circle_domain_order,
    is_power_of_two,
    lemma_bit_reverse_bound,
    lemma_log2_of_pow2,
    log2_spec,
};
use crate::field::BaseField;

verus! {

/// Binary logarithm of the number of field elements that the numeric backend
/// handles at once. A trace has at least that many rows.
pub const LOG_N_LANES: u32 = 4;

/// The field elements of `values` as numbers.
pub open spec fn numbers(values: Seq<BaseField>) -> Seq<nat> {
    Seq::new(values.len(), |i: int| values[i]@)
}

/// The number with the given little-endian digits in base 256.
pub open spec fn word_value(limbs: Seq<nat>) -> nat {
    limbs[0] + 0x100 * limbs[1] + 0x1_0000 * limbs[2] + 0x100_0000 * limbs[3]
}

/// The four little-endian digits in base 256 of `value`.
#[verifier::opaque]
pub open spec fn word_limbs(value: u32) -> Seq<nat> {
    seq![
        (value % 0x100) as nat,
        (value / 0x100 % 0x100) as nat,
        (value / 0x1_0000 % 0x100) as nat,
        (value / 0x100_0000) as nat,
    ]
}

/// 1 for `true`, 0 for `false`.
pub open spec fn bit(flag: bool) -> nat {
    if flag {
        1
    } else {
        0
    }
}

/// The columns `view` after `values` were written to `row`, one to each of
/// the scalar columns from `offset` on.
pub open spec fn with_field(view: Seq<Seq<nat>>, row: int, offset: int, values: Seq<nat>) -> Seq<
    Seq<nat>,
> {
    Seq::new(
        view.len(),
        |c: int|
            if offset <= c < offset + values.len() {
                view[c].update(row, values[c - offset])
            } else {
                view[c]
            },
    )
}

/// The values of one column, reordered for the commitment scheme, with the
/// size of the circle domain on which they are the evaluations of a polynomial.
pub struct CircleEvaluation {
    /// Binary logarithm of the size of the domain.
    pub log_size: u32,
    /// The evaluations, in bit-reversed circle-domain order.
    pub values: Vec<BaseField>,
}

/// Main trace of the machine.
pub struct Traces {
    cols: Vec<Vec<BaseField>>,
    log_size: u32,
}

impl View for Traces {
    type V = Seq<Seq<nat>>;

    /// The scalar columns, each with one number per row.
    closed spec fn view(&self) -> Seq<Seq<nat>> {
        Seq::new(self.cols@.len(), |c: int| numbers(self.cols@[c]@))
    }
}

impl Traces {
    /// Binary logarithm of the number of rows.
    pub closed spec fn log_size_spec(&self) -> nat {
        self.log_size as nat
    }

    /// Number of rows.
    pub open spec fn rows(&self) -> nat {
        pow2(self.log_size_spec())
    }

    /// A trace holds every scalar column of [`Column`], all of the same
    /// length, a power of two that a `usize` can hold.
    pub open spec fn wf(&self) -> bool {
        &&& LOG_N_LANES <= self.log_size_spec() < usize::BITS
        &&& self@.len() == Column::COLUMNS_NUM
        &&& forall|c: int| 0 <= c < self@.len() ==> (#[trigger] self@[c]).len() == self.rows()
    }

    /// The number in scalar column `col` of `row`.
    pub open spec fn at(&self, row: int, col: int) -> nat {
        self@[col][row]
    }

    /// The numbers that `row` holds in the scalar columns of `col`.
    #[verifier::opaque]
    pub open spec fn field(&self, row: int, col: Column) -> Seq<nat> {
        Seq::new(col.size_spec(), |i: int| self.at(row, col.offset_spec() + i))
    }

    /// Whether every field of `row` holds zeros only.
    pub open spec fn blank(&self, row: int) -> bool {
        forall|col: Column, i: int|
            0 <= i < col.size_spec() ==> #[trigger] self.field(row, col)[i] == 0
    }

    /// Whether `self` has the shape of `before` and differs from it at most
    /// in `row`, and there at most in the fields that `owned` holds.
    pub open spec fn same_outside(&self, before: &Traces, row: int, owned: Set<Column>) -> bool {
        &&& self.log_size_spec() == before.log_size_spec()
        &&& self@.len() == before@.len()
        &&& forall|c: int| 0 <= c < self@.len() ==> (#[trigger] self@[c]).len() == before@[c].len()
        &&& forall|r: int, col: Column|
            0 <= r < before.rows() && !(r == row && owned.contains(col)) ==> #[trigger] self.field(
                r,
                col,
            ) == before.field(r, col)
    }

    /// Whether `self` has the shape of `before` and differs from it at most
    /// in the fields that `owned` holds.
    pub open spec fn same_outside_fields(&self, before: &Traces, owned: Set<Column>) -> bool {
        &&& self.log_size_spec() == before.log_size_spec()
        &&& self@.len() == before@.len()
        &&& forall|c: int| 0 <= c < self@.len() ==> (#[trigger] self@[c]).len() == before@[c].len()
        &&& forall|r: int, col: Column|
            0 <= r < before.rows() && !owned.contains(col) ==> #[trigger] self.field(r, col)
                == before.field(r, col)
    }

    /// Returns [`Column::COLUMNS_NUM`] zeroed columns, each one `2.pow(log_size)` in length.
    pub fn new(log_size: u32) -> (traces: Self)
        requires
            LOG_N_LANES <= log_size < usize::BITS,
        ensures
            traces.wf(),
            traces.log_size_spec() == log_size,
            forall|r: int, c: int|
                0 <= c < Column::COLUMNS_NUM && 0 <= r < traces.rows() ==> traces.at(r, c) == 0,
            forall|r: int| 0 <= r < traces.rows() ==> traces.blank(r),
    {
        let rows = two_to_the(log_size);
        let mut cols: Vec<Vec<BaseField>> = Vec::with_capacity(Column::COLUMNS_NUM);
        let mut c: usize = 0;
        while c < Column::COLUMNS_NUM
            invariant
                c <= Column::COLUMNS_NUM,
                cols.len() == c,
                forall|k: int|
                    0 <= k < c ==> (#[trigger] cols[k]).len() == rows && forall|r: int|
                        0 <= r < rows ==> cols[k][r]@ == 0,
            decreases Column::COLUMNS_NUM - c,
        {
            let mut col: Vec<BaseField> = Vec::with_capacity(rows);
            let mut r: usize = 0;
            while r < rows
                invariant
                    r <= rows,
                    col.len() == r,
                    forall|k: int| 0 <= k < r ==> (#[trigger] col[k])@ == 0,
                decreases rows - r,
            {
                col.push(BaseField::zero());
                r = r + 1;
            }
            cols.push(col);
            c = c + 1;
        }
        let traces = Traces { cols, log_size };
        proof {
            reveal(Traces::field);
            assert forall|r: int| 0 <= r < traces.rows() implies traces.blank(r) by {
                assert forall|col: Column, i: int| 0 <= i < col.size_spec() implies #[trigger] traces.field(
                    r,
                    col,
                )[i] == 0 by {
                    col.lemma_offset();
                    lemma_range_within_total(col);
                    assert(traces.at(r, col.offset_spec() + i) == 0);
                }
            }
        }
        traces
    }

    /// Binary logarithm of the number of rows.
    pub fn log_size(&self) -> (log_size: u32)
        ensures
            log_size == self.log_size_spec(),
    {
        self.log_size
    }

    /// Number of rows.
    pub fn num_rows(&self) -> (rows: usize)
        requires
            self.wf(),
        ensures
            rows == self.rows(),
    {
        two_to_the(self.log_size)
    }

    /// Returns inner representation of columns.
    pub fn into_inner(self) -> (cols: Vec<Vec<BaseField>>)
        ensures
            cols@.len() == self@.len(),
            forall|c: int| 0 <= c < cols@.len() ==> numbers((#[trigger] cols@[c])@) == self@[c],
    {
        self.cols
    }

    /// Returns a copy of the raw columns in range `[offset..offset + size]`
    /// at `row`, where offset and size are those of `col`.
    pub fn column(&self, row: usize, col: Column) -> (values: Vec<BaseField>)
        requires
            self.wf(),
            row < self.rows(),
        ensures
            values@.len() == col.size_spec(),
            numbers(values@) == self.field(row as int, col),
    {
        let offset = col.offset();
        let size = col.size();
        let mut values: Vec<BaseField> = Vec::with_capacity(size);
        let mut i: usize = 0;
        while i < size
            invariant
                self.wf(),
                row < self.rows(),
                i <= size,
                size == col.size_spec(),
                offset == col.offset_spec(),
                offset + size <= Column::COLUMNS_NUM,
                values.len() == i,
                forall|k: int| 0 <= k < i ==> (#[trigger] values[k])@ == self.at(row as int, offset + k),
            decreases size - i,
        {
            assert(self@[offset + i].len() == self.rows());
            values.push(self.cols[offset + i][row]);
            i = i + 1;
        }
        proof {
            reveal(Traces::field);
        }
        assert(numbers(values@) =~= self.field(row as int, col));
        values
    }

    /// Writes `values` to the raw columns in range `[offset..offset + size]`
    /// at `row`, where offset and size are those of `col`. There must be as
    /// many values as `col` has scalar columns.
    pub fn column_mut(&mut self, row: usize, col: Column, values: &[BaseField])
        requires
            old(self).wf(),
            row < old(self).rows(),
            values@.len() == col.size_spec(),
        ensures
            final(self).wf(),
            final(self).log_size_spec() == old(self).log_size_spec(),
            final(self).field(row as int, col) == numbers(values@),
            final(self).same_outside(old(self), row as int, set![col]),
    {
        let offset = col.offset();
        let size = col.size();
        let ghost written = numbers(values@);
        let mut i: usize = 0;
        assert(self@ =~~= with_field(old(self)@, row as int, offset as int, written.take(0)));
        while i < size
            invariant
                self.wf(),
                row < self.rows(),
                i <= size,
                size == col.size_spec(),
                offset == col.offset_spec(),
                offset + size <= Column::COLUMNS_NUM,
                values@.len() == size,
                written == numbers(values@),
                self.log_size_spec() == old(self).log_size_spec(),
                old(self).wf(),
                self@ == with_field(old(self)@, row as int, offset as int, written.take(i as int)),
            decreases size - i,
        {
            let ghost prev = self@;
            assert(self@[offset + i].len() == self.rows());
            self.cols[offset + i][row] = values[i];
            proof {
                assert(self@ =~~= prev.update(
                    offset + i,
                    prev[offset + i].update(row as int, values@[i as int]@),
                ));
                assert(self@ =~~= with_field(
                    old(self)@,
                    row as int,
                    offset as int,
                    written.take(i + 1),
                ));
            }
            i = i + 1;
        }
        proof {
            assert(written.take(size as int) =~= written);
            lemma_with_field(old(self), self, row as int, col, written);
        }
    }

    /// Writes the four bytes of `value`, lowest first, to the columns of `col` at `row`.
    pub fn fill_columns_word(&mut self, row: usize, col: Column, value: u32)
        requires
            old(self).wf(),
            row < old(self).rows(),
            col.size_spec() == 4,
        ensures
            final(self).wf(),
            final(self).log_size_spec() == old(self).log_size_spec(),
            final(self).field(row as int, col) == word_limbs(value),
            final(self).same_outside(old(self), row as int, set![col]),
    {
        let limbs = [
            BaseField::from_u32(value % 0x100),
            BaseField::from_u32(value / 0x100 % 0x100),
            BaseField::from_u32(value / 0x1_0000 % 0x100),
            BaseField::from_u32(value / 0x100_0000),
        ];
        proof {
            reveal(word_limbs);
        }
        assert(numbers(limbs@) =~= word_limbs(value));
        self.column_mut(row, col, limbs.as_slice());
    }

    /// Writes the four bytes, lowest first, to the columns of `col` at `row`.
    pub fn fill_columns_bytes(&mut self, row: usize, col: Column, bytes: [u8; 4])
        requires
            old(self).wf(),
            row < old(self).rows(),
            col.size_spec() == 4,
        ensures
            final(self).wf(),
            final(self).log_size_spec() == old(self).log_size_spec(),
            final(self).field(row as int, col) == seq![bytes[0] as nat, bytes[1] as nat, bytes[2] as nat, bytes[3] as nat],
            final(self).same_outside(old(self), row as int, set![col]),
    {
        let limbs = [
            BaseField::from_u32(bytes[0] as u32),
            BaseField::from_u32(bytes[1] as u32),
            BaseField::from_u32(bytes[2] as u32),
            BaseField::from_u32(bytes[3] as u32),
        ];
        assert(numbers(limbs@) =~= seq![
            bytes[0] as nat,
            bytes[1] as nat,
            bytes[2] as nat,
            bytes[3] as nat,
        ]);
        self.column_mut(row, col, limbs.as_slice());
    }

    /// Writes the four flags, as 0 or 1 each, to the columns of `col` at `row`.
    pub fn fill_columns_bools(&mut self, row: usize, col: Column, flags: [bool; 4])
        requires
            old(self).wf(),
            row < old(self).rows(),
            col.size_spec() == 4,
        ensures
            final(self).wf(),
            final(self).log_size_spec() == old(self).log_size_spec(),
            final(self).field(row as int, col) == seq![bit(flags[0]), bit(flags[1]), bit(flags[2]), bit(flags[3])],
            final(self).same_outside(old(self), row as int, set![col]),
    {
        let limbs = [
            BaseField::from_bool(flags[0]),
            BaseField::from_bool(flags[1]),
            BaseField::from_bool(flags[2]),
            BaseField::from_bool(flags[3]),
        ];
        assert(numbers(limbs@) =~= seq![
            bit(flags[0]),
            bit(flags[1]),
            bit(flags[2]),
            bit(flags[3]),
        ]);
        self.column_mut(row, col, limbs.as_slice());
    }

    /// Writes `value` to the single column of `col` at `row`.
    pub fn fill_columns_value(&mut self, row: usize, col: Column, value: BaseField)
        requires
            old(self).wf(),
            row < old(self).rows(),
            col.size_spec() == 1,
        ensures
            final(self).wf(),
            final(self).log_size_spec() == old(self).log_size_spec(),
            final(self).field(row as int, col) == seq![value@],
            final(self).same_outside(old(self), row as int, set![col]),
    {
        let limbs = [value];
        assert(numbers(limbs@) =~= seq![value@]);
        self.column_mut(row, col, limbs.as_slice());
    }

    /// Writes `flag`, as 0 or 1, to the single column of `col` at `row`.
    pub fn fill_columns_bool(&mut self, row: usize, col: Column, flag: bool)
        requires
            old(self).wf(),
            row < old(self).rows(),
            col.size_spec() == 1,
        ensures
            final(self).wf(),
            final(self).log_size_spec() == old(self).log_size_spec(),
            final(self).field(row as int, col) == seq![bit(flag)],
            final(self).same_outside(old(self), row as int, set![col]),
    {
        self.fill_columns_value(row, col, BaseField::from_bool(flag));
    }

    /// Among the fields declared from `first` to `last`, each of which spans
    /// a single scalar column, writes 1 to `selected` and 0 to all others at `row`.
    pub fn fill_columns_one_hot(&mut self, row: usize, first: Column, last: Column, selected: Column)
        requires
            old(self).wf(),
            row < old(self).rows(),
            first.ordinal() <= selected.ordinal() <= last.ordinal(),
            forall|col: Column|
                first.ordinal() <= col.ordinal() <= last.ordinal() ==> #[trigger] col.size_spec()
                    == 1,
        ensures
            final(self).wf(),
            forall|col: Column|
                first.ordinal() <= col.ordinal() <= last.ordinal() ==> #[trigger] final(self).field(
                    row as int,
                    col,
                ) == seq![bit(col == selected)],
            final(self).same_outside(old(self), row as int, declared_between(first, last)),
    {
        let start = first.offset();
        let end = last.offset();
        let chosen = selected.offset();
        proof {
            lemma_offsets_in_order(first, last);
        }
        let mut index: usize = start;
        while index <= end
            invariant
                self.wf(),
                old(self).wf(),
                row < self.rows(),
                start <= index <= end + 1,
                end < Column::COLUMNS_NUM,
                self.log_size_spec() == old(self).log_size_spec(),
                forall|c: int| start <= c < index ==> self.at(row as int, c) == bit(c == chosen),
                forall|r: int, c: int|
                    0 <= c < Column::COLUMNS_NUM && 0 <= r < self.rows() && !(r == row && start
                        <= c < index) ==> self.at(r, c) == old(self).at(r, c),
            decreases end + 1 - index,
        {
            let ghost snapshot = *self;
            assert(self@[index as int].len() == self.rows());
            let value = BaseField::from_bool(index == chosen);
            self.cols[index][row] = value;
            proof {
                assert(self@ =~~= snapshot@.update(
                    index as int,
                    snapshot@[index as int].update(row as int, value@),
                ));
                assert forall|c: int| start <= c < index + 1 implies self.at(row as int, c) == bit(
                    c == chosen,
                ) by {
                    if c < index {
                        assert(snapshot.at(row as int, c) == bit(c == chosen));
                    }
                }
                assert forall|r: int, c: int|
                    0 <= c < Column::COLUMNS_NUM && 0 <= r < self.rows() && !(r == row && start
                        <= c < index + 1) implies self.at(r, c) == old(self).at(r, c) by {
                    assert(snapshot.at(r, c) == old(self).at(r, c));
                }
            }
            index = index + 1;
        }
        proof {
            assert forall|c: int| 0 <= c < self@.len() implies (#[trigger] self@[c]).len() == old(
                self,
            )@[c].len() by {}
            lemma_one_hot_fields(old(self), self, row as int, first, last, selected);
            lemma_one_hot_frame(old(self), self, row as int, first, last);
        }
    }

    /// Converts traces into circle domain evaluations, bit-reversing row indices
    /// according to circle domain ordering.
    pub fn into_circle_evaluation(self) -> (evaluations: Vec<CircleEvaluation>)
        requires
            self.wf(),
        ensures
            evaluations@.len() == self@.len(),
            forall|c: int|
                0 <= c < evaluations@.len() ==> {
                    &&& (#[trigger] evaluations@[c]).log_size == self.log_size_spec()
                    &&& numbers(evaluations@[c].values@) == committed_order(self@[c])
                },
    {
        let log_size = self.log_size;
        let ghost rows = self.rows();
        let ghost before = self@;
        proof {
            lemma_pow2_unfold(log_size as nat);
        }
        let cols = self.into_inner();
        let mut evaluations: Vec<CircleEvaluation> = Vec::with_capacity(cols.len());
        let mut c: usize = 0;
        while c < cols.len()
            invariant
                c <= cols.len(),
                cols@.len() == before.len(),
                rows == pow2(log_size as nat),
                rows % 2 == 0,
                forall|k: int| 0 <= k < cols@.len() ==> numbers((#[trigger] cols@[k])@) == before[k],
                forall|k: int| 0 <= k < before.len() ==> (#[trigger] before[k]).len() == rows,
                evaluations.len() == c,
                forall|k: int|
                    0 <= k < c ==> {
                        &&& (#[trigger] evaluations@[k]).log_size == log_size
                        &&& numbers(evaluations@[k].values@) == committed_order(before[k])
                    },
            decreases cols.len() - c,
        {
            let ghost col = cols@[c as int]@;
            assert(numbers(col) == before[c as int]);
            assert(col.len() == rows) by {
                assert(numbers(col).len() == col.len());
            }
            let mut eval = coset_order_to_circle_domain_order(cols[c].as_slice());
            let ghost circle = eval@;
            assert(circle.len() == rows);
            assert(is_power_of_two(eval.len() as nat));
            bit_reverse(&mut eval);
            proof {
                let bits = log2_spec(rows);
                lemma_log2_of_pow2(log_size as nat);
                let target = circle_domain_order(before[c as int]);
                assert(target.len() == rows);
                assert forall|i: int| 0 <= i < rows implies numbers(eval@)[i]
                    == #[trigger] committed_order(before[c as int])[i] by {
                    lemma_bit_reverse_bound(i as nat, bits);
                    let j = bit_reverse_spec(i as nat, bits) as int;
                    assert(eval@[i] == circle[j]);
                    assert(target[j] == numbers(col)[if j < rows / 2 {
                        2 * j
                    } else {
                        rows - 1 - 2 * (j - rows / 2)
                    }]);
                }
                assert(numbers(eval@) =~= committed_order(before[c as int]));
            }
            evaluations.push(CircleEvaluation { log_size, values: eval });
            c = c + 1;
        }
        evaluations
    }
}

/// The fields declared from `first` to `last`.
pub open spec fn declared_between(first: Column, last: Column) -> Set<Column> {
    Set::new(|col: Column| first.ordinal() <= col.ordinal() <= last.ordinal())
}

/// The scalar columns of `first` do not come after those of `last` when
/// `first` is not declared after `last`.
proof fn lemma_offsets_in_order(first: Column, last: Column)
    requires
        first.ordinal() <= last.ordinal(),
    ensures
        first.offset_spec() <= last.offset_spec(),
        first.ordinal() < last.ordinal() ==> first.offset_spec() + first.size_spec()
            <= last.offset_spec(),
        last.offset_spec() + last.size_spec() <= Column::COLUMNS_NUM,
{
    first.lemma_offset();
    last.lemma_offset();
    lemma_range_within_total(last);
    if first.ordinal() < last.ordinal() {
        lemma_declaration_order(first, last);
    }
}

/// What [`Traces::fill_columns_one_hot`] wrote, field by field.
proof fn lemma_one_hot_fields(
    before: &Traces,
    after: &Traces,
    row: int,
    first: Column,
    last: Column,
    selected: Column,
)
    requires
        before.wf(),
        after.wf(),
        0 <= row < before.rows(),
        after.log_size_spec() == before.log_size_spec(),
        first.ordinal() <= selected.ordinal() <= last.ordinal(),
        forall|col: Column|
            first.ordinal() <= col.ordinal() <= last.ordinal() ==> #[trigger] col.size_spec() == 1,
        forall|c: int|
            first.offset_spec() <= c <= last.offset_spec() ==> after.at(row, c) == bit(
                c == selected.offset_spec(),
            ),
    ensures
        forall|col: Column|
            first.ordinal() <= col.ordinal() <= last.ordinal() ==> #[trigger] after.field(row, col)
                == seq![bit(col == selected)],
{
    reveal(Traces::field);
    assert forall|col: Column|
        first.ordinal() <= col.ordinal() <= last.ordinal() implies #[trigger] after.field(row, col)
        == seq![bit(col == selected)] by {
        lemma_offsets_in_order(first, col);
        lemma_offsets_in_order(col, last);
        assert(col.size_spec() == 1);
        assert(selected.size_spec() == 1);
        if col.ordinal() < selected.ordinal() {
            lemma_offsets_in_order(col, selected);
        } else if selected.ordinal() < col.ordinal() {
            lemma_offsets_in_order(selected, col);
        }
        assert(col.offset_spec() == selected.offset_spec() <==> col == selected);
        assert(after.at(row, col.offset_spec() as int) == bit(col == selected));
        assert(after.field(row, col) =~= seq![bit(col == selected)]);
    }
}

/// What [`Traces::fill_columns_one_hot`] left alone, field by field.
proof fn lemma_one_hot_frame(
    before: &Traces,
    after: &Traces,
    row: int,
    first: Column,
    last: Column,
)
    requires
        before.wf(),
        after.wf(),
        0 <= row < before.rows(),
        after.log_size_spec() == before.log_size_spec(),
        first.ordinal() <= last.ordinal(),
        forall|c: int| 0 <= c < after@.len() ==> (#[trigger] after@[c]).len() == before@[c].len(),
        forall|r: int, c: int|
            0 <= c < Column::COLUMNS_NUM && 0 <= r < before.rows() && !(r == row
                && first.offset_spec() <= c <= last.offset_spec()) ==> after.at(r, c) == before.at(
                r,
                c,
            ),
    ensures
        after.same_outside(before, row, declared_between(first, last)),
{
    reveal(Traces::field);
    assert forall|r: int, col: Column|
        0 <= r < before.rows() && !(r == row && declared_between(first, last).contains(
            col,
        )) implies #[trigger] after.field(r, col) == before.field(r, col) by {
        lemma_offsets_in_order(col, col);
        if col.ordinal() < first.ordinal() {
            lemma_offsets_in_order(col, first);
        }
        if col.ordinal() > last.ordinal() {
            lemma_offsets_in_order(last, col);
            assert(last.size_spec() >= 1) by {
                last.lemma_declarations(0);
            }
        }
        assert forall|i: int| 0 <= i < col.size_spec() implies #[trigger] after.field(r, col)[i]
            == before.field(r, col)[i] by {
            let c = col.offset_spec() + i;
            assert(after.at(r, c) == before.at(r, c));
        }
        assert(after.field(r, col) =~= before.field(r, col));
    }
}

/// A write to a field sets the field and leaves every other field of the
/// trace as it was.
pub proof fn lemma_with_field(
    before: &Traces,
    after: &Traces,
    row: int,
    col: Column,
    values: Seq<nat>,
)
    requires
        before.wf(),
        0 <= row < before.rows(),
        values.len() == col.size_spec(),
        after.log_size_spec() == before.log_size_spec(),
        after@ == with_field(before@, row, col.offset_spec() as int, values),
    ensures
        after.wf(),
        after.field(row, col) == values,
        after.same_outside(before, row, set![col]),
{
    reveal(Traces::field);
    col.lemma_offset();
    lemma_range_within_total(col);
    assert forall|c: int| 0 <= c < after@.len() implies (#[trigger] after@[c]).len()
        == before@[c].len() by {}
    assert(after.field(row, col) =~= values);
    assert forall|r: int, other: Column|
        0 <= r < before.rows() && !(r == row && set![col].contains(other)) implies #[trigger] after.field(
            r,
            other,
        ) == before.field(r, other) by {
        other.lemma_offset();
        lemma_range_within_total(other);
        assert forall|i: int| 0 <= i < other.size_spec() implies #[trigger] after.field(r, other)[i]
            == before.field(r, other)[i] by {
            let c = other.offset_spec() + i;
            if other != col {
                if col.offset_spec() <= c < col.offset_spec() + col.size_spec() {
                    lemma_ranges_are_disjoint(col, other, c as nat);
                }
            }
        }
        assert(after.field(r, other) =~= before.field(r, other));
    }
}
/// Two changes of one row, one after the other, change at most what either changes.
pub proof fn lemma_same_outside_chain(
    first: &Traces,
    second: &Traces,
    third: &Traces,
    row: int,
    a: Set<Column>,
    b: Set<Column>,
)
    requires
        second.same_outside(first, row, a),
        third.same_outside(second, row, b),
    ensures
        third.same_outside(first, row, a.union(b)),
{
    assert forall|c: int| 0 <= c < third@.len() implies (#[trigger] third@[c]).len()
        == first@[c].len() by {
        assert(second@[c].len() == first@[c].len());
    }
    assert forall|r: int, col: Column|
        0 <= r < first.rows() && !(r == row && a.union(b).contains(col)) implies #[trigger] third.field(
            r,
            col,
        ) == first.field(r, col) by {
        assert(third.field(r, col) == second.field(r, col));
        assert(second.field(r, col) == first.field(r, col));
    }
}

/// Whether `a` and `b` hold the same values in the fields `columns` of `row`.
pub open spec fn agree_on(a: &Traces, b: &Traces, row: int, columns: Set<Column>) -> bool {
    forall|col: Column| columns.contains(col) ==> #[trigger] b.field(row, col) == a.field(row, col)
}

/// A change that is confined to one row, and there to some fields, leaves
/// every other row and the other fields of that row as they were.
pub proof fn lemma_agree_after_row_change(
    before: &Traces,
    after: &Traces,
    changed_row: int,
    owned: Set<Column>,
    row: int,
    columns: Set<Column>,
)
    requires
        after.same_outside(before, changed_row, owned),
        0 <= row < before.rows(),
        row != changed_row || columns.disjoint(owned),
    ensures
        agree_on(before, after, row, columns),
{
}

/// A change that is confined to some fields leaves the other fields of every
/// row as they were.
pub proof fn lemma_agree_after_field_change(
    before: &Traces,
    after: &Traces,
    owned: Set<Column>,
    row: int,
    columns: Set<Column>,
)
    requires
        after.same_outside_fields(before, owned),
        0 <= row < before.rows(),
        columns.disjoint(owned),
    ensures
        agree_on(before, after, row, columns),
{
}

/// `2^exponent`.
fn two_to_the(exponent: u32) -> (power: usize)
    requires
        exponent < usize::BITS,
    ensures
        power == pow2(exponent as nat),
{
    let mut power: usize = 1;
    let mut done: u32 = 0;
    proof {
        vstd::layout::unsigned_int_max_values();
        vstd::arithmetic::power2::lemma2_to64();
    }
    while done < exponent
        invariant
            done <= exponent < usize::BITS,
            power == pow2(done as nat),
            usize::MAX == pow2(usize::BITS as nat) - 1,
        decreases exponent - done,
    {
        proof {
            lemma_pow2_unfold((done + 1) as nat);
            lemma_pow2_strictly_increases((done + 1) as nat, usize::BITS as nat);
        }
        power = 2 * power;
        done = done + 1;
    }
    power
}

} // verus!
