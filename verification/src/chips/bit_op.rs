//! Bitwise operations: `AND`, `OR`, `XOR` and their immediate forms.

use vstd::prelude::*;
use crate::chips::cpu::{is_flag, selected_flag, supports, CpuChip};
use crate::chips::utils::{limbs, u32_to_word, Word};
use crate::column::Column;
use crate::riscv::BuiltinOpcode;
use crate::step::Step;
use crate::trace::{agree_on, bit, word_limbs, Traces};

verus! {

/// One of the three bitwise operations.
#[derive(Debug, Copy, Clone, PartialEq, Eq, Structural)]
pub enum BitOp {
    And,
    Or,
    Xor,
}

impl BitOp {
    /// The operation on two numbers below 256.
    pub open spec fn apply(self, x: nat, y: nat) -> nat {
        match self {
            BitOp::And => ((x as u8) & (y as u8)) as nat,
            BitOp::Or => ((x as u8) | (y as u8)) as nat,
            BitOp::Xor => ((x as u8) ^ (y as u8)) as nat,
        }
    }

    /// The flag that marks the rows of the operation.
    pub open spec fn flag(self) -> Column {
        match self {
            BitOp::And => Column::IsAnd,
            BitOp::Or => Column::IsOr,
            BitOp::Xor => Column::IsXor,
        }
    }

    /// The operation that `step` performs, if it performs one of the three.
    pub open spec fn of(step: Step) -> Option<BitOp> {
        match step.instruction.opcode.builtin {
            Some(BuiltinOpcode::AND) | Some(BuiltinOpcode::ANDI) => Some(BitOp::And),
            Some(BuiltinOpcode::OR) | Some(BuiltinOpcode::ORI) => Some(BitOp::Or),
            Some(BuiltinOpcode::XOR) | Some(BuiltinOpcode::XORI) => Some(BitOp::Xor),
            _ => None,
        }
    }

    /// The operation on two bytes.
    pub fn on_bytes(self, x: u8, y: u8) -> (z: u8)
        ensures
            z == self.apply(x as nat, y as nat),
    {
        match self {
            BitOp::And => x & y,
            BitOp::Or => x | y,
            BitOp::Xor => x ^ y,
        }
    }
}

/// Whether `low` and `high` hold the lower and the upper four bits of each
/// of the four bytes of `word`.
pub open spec fn nibbles_split(word: Seq<nat>, low: Seq<nat>, high: Seq<nat>) -> bool {
    &&& word.len() == 4 && low.len() == 4 && high.len() == 4
    &&& forall|i: int|
        0 <= i < 4 ==> {
            &&& #[trigger] word[i] == low[i] + 0x10 * high[i]
            &&& low[i] < 0x10
            &&& high[i] < 0x10
        }
}

/// Whether `a` is `op` of `b` and `c`, place by place.
pub open spec fn applied(op: BitOp, a: Seq<nat>, b: Seq<nat>, c: Seq<nat>) -> bool {
    forall|i: int| 0 <= i < 4 ==> #[trigger] a[i] == op.apply(b[i], c[i])
}

/// Whether the row `row` holds the bytes `a`, `b` and `c` split into halves
/// of four bits, with the halves of `a` being `op` of those of `b` and `c`.
pub open spec fn halves_applied(
    traces: &Traces,
    row: int,
    op: BitOp,
    a: Seq<nat>,
    b: Seq<nat>,
    c: Seq<nat>,
) -> bool {
    &&& nibbles_split(
        a,
        traces.field(row, Column::ValueA0_3),
        traces.field(row, Column::ValueA4_7),
    )
    &&& nibbles_split(
        b,
        traces.field(row, Column::ValueB0_3),
        traces.field(row, Column::ValueB4_7),
    )
    &&& nibbles_split(
        c,
        traces.field(row, Column::ValueC0_3),
        traces.field(row, Column::ValueC4_7),
    )
    &&& applied(
        op,
        traces.field(row, Column::ValueA0_3),
        traces.field(row, Column::ValueB0_3),
        traces.field(row, Column::ValueC0_3),
    )
    &&& applied(
        op,
        traces.field(row, Column::ValueA4_7),
        traces.field(row, Column::ValueB4_7),
        traces.field(row, Column::ValueC4_7),
    )
}

/// A bitwise operation on two bytes is the operation on their halves.
proof fn lemma_byte_op(x: u8, y: u8)
    by (bit_vector)
    ensures
        x == (x & 0xf) + 0x10 * (x >> 4),
        (x & 0xf) < 0x10,
        (x >> 4) < 0x10,
        (x & y) & 0xf == (x & 0xf) & (y & 0xf),
        (x & y) >> 4 == (x >> 4) & (y >> 4),
        (x | y) & 0xf == (x & 0xf) | (y & 0xf),
        (x | y) >> 4 == (x >> 4) | (y >> 4),
        (x ^ y) & 0xf == (x & 0xf) ^ (y & 0xf),
        (x ^ y) >> 4 == (x >> 4) ^ (y >> 4),
{
}

/// A bitwise operation on two words is the operation on their bytes.
proof fn lemma_word_op(b: u32, c: u32)
    by (bit_vector)
    ensures
        (b & c) % 0x100 == (b % 0x100) & (c % 0x100),
        (b & c) / 0x100 % 0x100 == (b / 0x100 % 0x100) & (c / 0x100 % 0x100),
        (b & c) / 0x1_0000 % 0x100 == (b / 0x1_0000 % 0x100) & (c / 0x1_0000 % 0x100),
        (b & c) / 0x100_0000 == (b / 0x100_0000) & (c / 0x100_0000),
        (b | c) % 0x100 == (b % 0x100) | (c % 0x100),
        (b | c) / 0x100 % 0x100 == (b / 0x100 % 0x100) | (c / 0x100 % 0x100),
        (b | c) / 0x1_0000 % 0x100 == (b / 0x1_0000 % 0x100) | (c / 0x1_0000 % 0x100),
        (b | c) / 0x100_0000 == (b / 0x100_0000) | (c / 0x100_0000),
        (b ^ c) % 0x100 == (b % 0x100) ^ (c % 0x100),
        (b ^ c) / 0x100 % 0x100 == (b / 0x100 % 0x100) ^ (c / 0x100 % 0x100),
        (b ^ c) / 0x1_0000 % 0x100 == (b / 0x1_0000 % 0x100) ^ (c / 0x1_0000 % 0x100),
        (b ^ c) / 0x100_0000 == (b / 0x100_0000) ^ (c / 0x100_0000),
{
}

/// The operation on two words.
pub open spec fn on_words(op: BitOp, b: u32, c: u32) -> u32 {
    match op {
        BitOp::And => b & c,
        BitOp::Or => b | c,
        BitOp::Xor => b ^ c,
    }
}

/// The lower and the upper four bits of each byte of `word`.
fn split(word: Word) -> (halves: (Word, Word))
    ensures
        nibbles_split(limbs(word), limbs(halves.0), limbs(halves.1)),
        forall|i: int| 0 <= i < 4 ==> #[trigger] halves.0[i] == word[i] & 0xf,
        forall|i: int| 0 <= i < 4 ==> #[trigger] halves.1[i] == word[i] >> 4,
{
    proof {
        lemma_byte_op(word[0], word[0]);
        lemma_byte_op(word[1], word[1]);
        lemma_byte_op(word[2], word[2]);
        lemma_byte_op(word[3], word[3]);
    }
    (
        [word[0] & 0xf, word[1] & 0xf, word[2] & 0xf, word[3] & 0xf],
        [word[0] >> 4, word[1] >> 4, word[2] >> 4, word[3] >> 4],
    )
}

/// The operation on two words, byte by byte.
fn on_word_bytes(op: BitOp, b: Word, c: Word) -> (a: Word)
    ensures
        forall|i: int| 0 <= i < 4 ==> #[trigger] a[i] == op.apply(b[i] as nat, c[i] as nat),
{
    [
        op.on_bytes(b[0], c[0]),
        op.on_bytes(b[1], c[1]),
        op.on_bytes(b[2], c[2]),
        op.on_bytes(b[3], c[3]),
    ]
}

/// The operation on the bytes of two words gives the bytes of the operation
/// on the words.
proof fn lemma_bytes_of_result(op: BitOp, b: u32, c: u32, a: Word, b_bytes: Word, c_bytes: Word)
    requires
        limbs(b_bytes) == word_limbs(b),
        limbs(c_bytes) == word_limbs(c),
        forall|i: int|
            0 <= i < 4 ==> #[trigger] a[i] == op.apply(b_bytes[i] as nat, c_bytes[i] as nat),
    ensures
        limbs(a) == word_limbs(on_words(op, b, c)),
{
    reveal(word_limbs);
    lemma_word_op(b, c);
    assert(limbs(b_bytes)[0] == word_limbs(b)[0]);
    assert(limbs(b_bytes)[1] == word_limbs(b)[1]);
    assert(limbs(b_bytes)[2] == word_limbs(b)[2]);
    assert(limbs(b_bytes)[3] == word_limbs(b)[3]);
    assert(limbs(c_bytes)[0] == word_limbs(c)[0]);
    assert(limbs(c_bytes)[1] == word_limbs(c)[1]);
    assert(limbs(c_bytes)[2] == word_limbs(c)[2]);
    assert(limbs(c_bytes)[3] == word_limbs(c)[3]);
    assert(a[0] == op.apply(b_bytes[0] as nat, c_bytes[0] as nat));
    assert(a[1] == op.apply(b_bytes[1] as nat, c_bytes[1] as nat));
    assert(a[2] == op.apply(b_bytes[2] as nat, c_bytes[2] as nat));
    assert(a[3] == op.apply(b_bytes[3] as nat, c_bytes[3] as nat));
    assert(limbs(a) =~= word_limbs(on_words(op, b, c)));
}

/// The halves of the operation on two bytes are the operation on their halves.
proof fn lemma_halves_of_result(
    op: BitOp,
    a: Word,
    b: Word,
    c: Word,
    a_halves: (Word, Word),
    b_halves: (Word, Word),
    c_halves: (Word, Word),
)
    requires
        forall|i: int| 0 <= i < 4 ==> #[trigger] a[i] == op.apply(b[i] as nat, c[i] as nat),
        forall|i: int| 0 <= i < 4 ==> #[trigger] a_halves.0[i] == a[i] & 0xf,
        forall|i: int| 0 <= i < 4 ==> #[trigger] a_halves.1[i] == a[i] >> 4,
        forall|i: int| 0 <= i < 4 ==> #[trigger] b_halves.0[i] == b[i] & 0xf,
        forall|i: int| 0 <= i < 4 ==> #[trigger] b_halves.1[i] == b[i] >> 4,
        forall|i: int| 0 <= i < 4 ==> #[trigger] c_halves.0[i] == c[i] & 0xf,
        forall|i: int| 0 <= i < 4 ==> #[trigger] c_halves.1[i] == c[i] >> 4,
    ensures
        applied(op, limbs(a_halves.0), limbs(b_halves.0), limbs(c_halves.0)),
        applied(op, limbs(a_halves.1), limbs(b_halves.1), limbs(c_halves.1)),
{
    assert forall|i: int| 0 <= i < 4 implies #[trigger] limbs(a_halves.0)[i] == op.apply(
        limbs(b_halves.0)[i],
        limbs(c_halves.0)[i],
    ) && limbs(a_halves.1)[i] == op.apply(limbs(b_halves.1)[i], limbs(c_halves.1)[i]) by {
        lemma_byte_op(b[i], c[i]);
        assert(a[i] == op.apply(b[i] as nat, c[i] as nat));
        assert(a_halves.0[i] == a[i] & 0xf);
        assert(a_halves.1[i] == a[i] >> 4);
        assert(b_halves.0[i] == b[i] & 0xf);
        assert(b_halves.1[i] == b[i] >> 4);
        assert(c_halves.0[i] == c[i] & 0xf);
        assert(c_halves.1[i] == c[i] >> 4);
    }
    assert forall|i: int| 0 <= i < 4 implies #[trigger] limbs(a_halves.1)[i] == op.apply(
        limbs(b_halves.1)[i],
        limbs(c_halves.1)[i],
    ) by {
        assert(limbs(a_halves.0)[i] == op.apply(limbs(b_halves.0)[i], limbs(c_halves.0)[i]));
    }
}

/// Fills the result of a bitwise operation and the halves of four bits of
/// its operands, on which the lookup table of the operation is defined.
pub struct BitOpChip;

impl BitOpChip {
    /// Whether the chip has work to do on `step`.
    pub open spec fn applies(step: Option<Step>) -> bool {
        step matches Some(s) && BitOp::of(s) is Some
    }

    /// The fields that the chip writes.
    pub open spec fn owned() -> Set<Column> {
        set![
            Column::ValueA,
            Column::ValueA0_3,
            Column::ValueA4_7,
            Column::ValueB0_3,
            Column::ValueB4_7,
            Column::ValueC0_3,
            Column::ValueC4_7,
        ]
    }

    /// The fields that the chip's identities speak of.
    pub open spec fn reads() -> Set<Column> {
        set![
            Column::IsAnd,
            Column::IsOr,
            Column::IsXor,
            Column::ValueA,
            Column::ValueB,
            Column::ValueC,
            Column::ValueA0_3,
            Column::ValueA4_7,
            Column::ValueB0_3,
            Column::ValueB4_7,
            Column::ValueC0_3,
            Column::ValueC4_7,
        ]
    }

    /// What the row of `step` holds once the chip has filled it.
    pub open spec fn witnessed(traces: &Traces, row: int, step: Step) -> bool {
        &&& traces.field(row, Column::ValueA) == word_limbs(step.result_spec())
        &&& BitOp::of(step) matches Some(op) && halves_applied(
            traces,
            row,
            op,
            traces.field(row, Column::ValueA),
            word_limbs(step.value_b_spec()),
            word_limbs(step.value_c_spec()),
        )
    }

    /// The identities of one of the three operations.
    pub open spec fn constraints_of(traces: &Traces, row: int, op: BitOp) -> bool {
        traces.field(row, op.flag())[0] == 1 ==> halves_applied(
            traces,
            row,
            op,
            traces.field(row, Column::ValueA),
            traces.field(row, Column::ValueB),
            traces.field(row, Column::ValueC),
        )
    }

    /// On a bitwise operation, the bytes of the three operands are split into
    /// halves of four bits, and each half of the first operand is the
    /// operation on the halves of the second and third in its place.
    pub open spec fn constraints(traces: &Traces, row: int) -> bool {
        &&& Self::constraints_of(traces, row, BitOp::And)
        &&& Self::constraints_of(traces, row, BitOp::Or)
        &&& Self::constraints_of(traces, row, BitOp::Xor)
    }

    /// What the chip filled holds of a row for as long as the chip's fields
    /// stay as they are.
    pub proof fn lemma_witnessed_kept(before: &Traces, after: &Traces, row: int, step: Step)
        requires
            Self::witnessed(before, row, step),
            agree_on(before, after, row, Self::owned()),
        ensures
            Self::witnessed(after, row, step),
    {
        assert(Self::owned().contains(Column::ValueA));
        assert(Self::owned().contains(Column::ValueA0_3));
        assert(Self::owned().contains(Column::ValueA4_7));
        assert(Self::owned().contains(Column::ValueB0_3));
        assert(Self::owned().contains(Column::ValueB4_7));
        assert(Self::owned().contains(Column::ValueC0_3));
        assert(Self::owned().contains(Column::ValueC4_7));
    }

    /// The identities hold of a row for as long as its fields stay as they are.
    pub proof fn lemma_constraints_kept(before: &Traces, after: &Traces, row: int)
        requires
            Self::constraints(before, row),
            agree_on(before, after, row, Self::reads()),
        ensures
            Self::constraints(after, row),
    {
        assert(Self::reads().contains(Column::IsAnd));
        assert(Self::reads().contains(Column::IsOr));
        assert(Self::reads().contains(Column::IsXor));
        assert(Self::reads().contains(Column::ValueA));
        assert(Self::reads().contains(Column::ValueB));
        assert(Self::reads().contains(Column::ValueC));
        assert(Self::reads().contains(Column::ValueA0_3));
        assert(Self::reads().contains(Column::ValueA4_7));
        assert(Self::reads().contains(Column::ValueB0_3));
        assert(Self::reads().contains(Column::ValueB4_7));
        assert(Self::reads().contains(Column::ValueC0_3));
        assert(Self::reads().contains(Column::ValueC4_7));
    }

    /// The identities hold of a row that the CPU chip has filled after this chip.
    pub proof fn lemma_constraints(traces: &Traces, row: int, step: Option<Step>)
        requires
            CpuChip::filled(traces, row, step),
            step matches Some(s) ==> s.wf() && supports(s),
            Self::applies(step) ==> Self::witnessed(traces, row, step->0),
        ensures
            Self::constraints(traces, row),
    {
        reveal(CpuChip::filled);
        assert(is_flag(Column::IsAnd) && is_flag(Column::IsOr) && is_flag(Column::IsXor));
        assert(traces.field(row, Column::IsAnd) == seq![
            bit(Column::IsAnd == selected_flag(step)),
        ]);
        assert(traces.field(row, Column::IsOr) == seq![bit(Column::IsOr == selected_flag(step))]);
        assert(traces.field(row, Column::IsXor) == seq![
            bit(Column::IsXor == selected_flag(step)),
        ]);
    }

    /// On a bitwise operation, writes the result to `ValueA` and the halves
    /// of four bits of each byte of the three operands to the fields of
    /// those halves. Leaves the trace as it is on every other step.
    pub fn fill_main_trace(traces: &mut Traces, row_idx: usize, vm_step: &Option<Step>)
        requires
            old(traces).wf(),
            row_idx < old(traces).rows(),
            *vm_step matches Some(s) ==> s.wf(),
        ensures
            final(traces).wf(),
            final(traces).same_outside(old(traces), row_idx as int, Self::owned()),
            !Self::applies(*vm_step) ==> final(traces)@ == old(traces)@,
            Self::applies(*vm_step) ==> Self::witnessed(final(traces), row_idx as int, vm_step->0),
    {
        let step = match vm_step {
            Some(step) => step,
            None => {
                return ;
            },
        };
        let op = match step.opcode() {
            Some(BuiltinOpcode::AND) | Some(BuiltinOpcode::ANDI) => BitOp::And,
            Some(BuiltinOpcode::OR) | Some(BuiltinOpcode::ORI) => BitOp::Or,
            Some(BuiltinOpcode::XOR) | Some(BuiltinOpcode::XORI) => BitOp::Xor,
            _ => {
                return ;
            },
        };
        let value_b = u32_to_word(step.get_value_b());
        let value_c = u32_to_word(step.get_value_c());
        let value_a = on_word_bytes(op, value_b, value_c);
        let a_halves = split(value_a);
        let b_halves = split(value_b);
        let c_halves = split(value_c);
        proof {
            lemma_bytes_of_result(
                op,
                step.value_b_spec(),
                step.value_c_spec(),
                value_a,
                value_b,
                value_c,
            );
            lemma_halves_of_result(op, value_a, value_b, value_c, a_halves, b_halves, c_halves);
            assert(step.result_spec() == on_words(op, step.value_b_spec(), step.value_c_spec()));
        }
        traces.fill_columns_bytes(row_idx, Column::ValueA, value_a);
        traces.fill_columns_bytes(row_idx, Column::ValueA0_3, a_halves.0);
        traces.fill_columns_bytes(row_idx, Column::ValueA4_7, a_halves.1);
        traces.fill_columns_bytes(row_idx, Column::ValueB0_3, b_halves.0);
        traces.fill_columns_bytes(row_idx, Column::ValueB4_7, b_halves.1);
        traces.fill_columns_bytes(row_idx, Column::ValueC0_3, c_halves.0);
        traces.fill_columns_bytes(row_idx, Column::ValueC4_7, c_halves.1);
    }
}

} // verus!
