//! Arithmetic on machine words as four bytes, with the carries and borrows
//! that the constraints of the chips speak of.

use vstd::prelude::*;
use vstd::arithmetic::div_mod::lemma_fundamental_div_mod_converse;
use crate::column::Column;
use crate::field::{differs_witnessed, BaseField, P};
use crate::trace::{bit, Traces};

verus! {

/// A machine word as its bytes, lowest first.
pub type Word = [u8; 4];

/// One flag per byte of a machine word.
pub type BoolWord = [bool; 4];

/// The number that the bytes of `word` stand for.
pub open spec fn word_to_nat(word: Word) -> nat {
    (word[0] + 0x100 * word[1] + 0x1_0000 * word[2] + 0x100_0000 * word[3]) as nat
}

/// The bytes of `word` as numbers.
pub open spec fn limbs(word: Word) -> Seq<nat> {
    seq![word[0] as nat, word[1] as nat, word[2] as nat, word[3] as nat]
}

/// The flags of `flags` as 0 or 1 each.
pub open spec fn bits(flags: BoolWord) -> Seq<nat> {
    seq![bit(flags[0]), bit(flags[1]), bit(flags[2]), bit(flags[3])]
}

/// Whether each of the four numbers is 0 or 1.
pub open spec fn is_flag_word(flags: Seq<nat>) -> bool {
    flags.len() == 4 && flags[0] <= 1 && flags[1] <= 1 && flags[2] <= 1 && flags[3] <= 1
}

/// Whether `sum` and `carry` are the bytes and byte-wise carries of `a + b`:
/// in each place the two bytes and the carry from the place below add up to
/// the byte of the sum, plus 256 where a carry leaves the place.
pub open spec fn is_sum_with_carries(a: Seq<nat>, b: Seq<nat>, sum: Seq<nat>, carry: Seq<nat>) -> bool {
    &&& a[0] + b[0] == sum[0] + 0x100 * carry[0]
    &&& a[1] + b[1] + carry[0] == sum[1] + 0x100 * carry[1]
    &&& a[2] + b[2] + carry[1] == sum[2] + 0x100 * carry[2]
    &&& a[3] + b[3] + carry[2] == sum[3] + 0x100 * carry[3]
}

/// Whether `diff` and `borrow` are the bytes and byte-wise borrows of
/// `a - b`: in each place the byte of `a`, less the byte of `b` and the borrow
/// of the place below, is the byte of the difference, less 256 where the
/// place borrows.
pub open spec fn is_difference_with_borrows(
    a: Seq<nat>,
    b: Seq<nat>,
    diff: Seq<nat>,
    borrow: Seq<nat>,
) -> bool {
    &&& a[0] - b[0] == diff[0] - 0x100 * borrow[0]
    &&& a[1] - b[1] - borrow[0] == diff[1] - 0x100 * borrow[1]
    &&& a[2] - b[2] - borrow[1] == diff[2] - 0x100 * borrow[2]
    &&& a[3] - b[3] - borrow[2] == diff[3] - 0x100 * borrow[3]
}

/// The bytes of a word are the base-256 digits of the number that they stand for.
pub proof fn lemma_limbs_of_word(word: Word)
    ensures
        word_to_nat(word) <= u32::MAX,
        crate::trace::word_limbs(word_to_nat(word) as u32) == limbs(word),
{
    reveal(crate::trace::word_limbs);
    let value = word_to_nat(word) as int;
    let (w0, w1, w2, w3) = (word[0] as int, word[1] as int, word[2] as int, word[3] as int);
    lemma_fundamental_div_mod_converse(value, 0x100, w1 + 0x100 * w2 + 0x1_0000 * w3, w0);
    lemma_fundamental_div_mod_converse(value, 0x1_0000, w2 + 0x100 * w3, w0 + 0x100 * w1);
    lemma_fundamental_div_mod_converse(
        value,
        0x100_0000,
        w3,
        w0 + 0x100 * w1 + 0x1_0000 * w2,
    );
    lemma_fundamental_div_mod_converse(w1 + 0x100 * w2 + 0x1_0000 * w3, 0x100, w2 + 0x100 * w3, w1);
    lemma_fundamental_div_mod_converse(w2 + 0x100 * w3, 0x100, w3, w2);
    assert(crate::trace::word_limbs(value as u32) =~= limbs(word));
}

/// Four bytes are the base-256 digits of the number that they stand for.
pub proof fn lemma_limbs_of_value(value: u32, b0: nat, b1: nat, b2: nat, b3: nat)
    requires
        b0 < 0x100,
        b1 < 0x100,
        b2 < 0x100,
        b3 < 0x100,
        value == b0 + 0x100 * b1 + 0x1_0000 * b2 + 0x100_0000 * b3,
    ensures
        crate::trace::word_limbs(value) == seq![b0, b1, b2, b3],
{
    reveal(crate::trace::word_limbs);
    let (w0, w1, w2, w3) = (b0 as int, b1 as int, b2 as int, b3 as int);
    lemma_fundamental_div_mod_converse(value as int, 0x100, w1 + 0x100 * w2 + 0x1_0000 * w3, w0);
    lemma_fundamental_div_mod_converse(value as int, 0x1_0000, w2 + 0x100 * w3, w0 + 0x100 * w1);
    lemma_fundamental_div_mod_converse(
        value as int,
        0x100_0000,
        w3,
        w0 + 0x100 * w1 + 0x1_0000 * w2,
    );
    lemma_fundamental_div_mod_converse(w1 + 0x100 * w2 + 0x1_0000 * w3, 0x100, w2 + 0x100 * w3, w1);
    lemma_fundamental_div_mod_converse(w2 + 0x100 * w3, 0x100, w3, w2);
    assert(crate::trace::word_limbs(value) =~= seq![b0, b1, b2, b3]);
}

/// The base-256 digits of a machine word are bytes.
pub proof fn lemma_word_limbs_are_bytes(value: u32)
    ensures
        crate::trace::word_limbs(value).len() == 4,
        crate::trace::word_limbs(value)[0] < 0x100,
        crate::trace::word_limbs(value)[1] < 0x100,
        crate::trace::word_limbs(value)[2] < 0x100,
        crate::trace::word_limbs(value)[3] < 0x100,
{
    reveal(crate::trace::word_limbs);
}

/// The base-256 digits of zero are zeros.
pub proof fn lemma_word_limbs_of_zero()
    ensures
        crate::trace::word_limbs(0) == seq![0nat, 0nat, 0nat, 0nat],
{
    reveal(crate::trace::word_limbs);
    assert(crate::trace::word_limbs(0) =~= seq![0nat, 0nat, 0nat, 0nat]);
}

/// The base-256 digits of a machine word stand for the word.
pub proof fn lemma_word_value_of_limbs(value: u32)
    ensures
        crate::trace::word_value(crate::trace::word_limbs(value)) == value,
{
    reveal(crate::trace::word_limbs);
}

/// The bytes of `value`, lowest first.
pub fn u32_to_word(value: u32) -> (word: Word)
    ensures
        word_to_nat(word) == value,
        limbs(word) == crate::trace::word_limbs(value),
{
    let word: Word = [
        (value % 0x100) as u8,
        (value / 0x100 % 0x100) as u8,
        (value / 0x1_0000 % 0x100) as u8,
        (value / 0x100_0000) as u8,
    ];
    proof {
        reveal(crate::trace::word_limbs);
    }
    assert(limbs(word) =~= crate::trace::word_limbs(value));
    word
}

/// The number that the bytes of `word` stand for.
pub fn word_to_u32(word: Word) -> (value: u32)
    ensures
        value == word_to_nat(word),
{
    let b0: u32 = word[0] as u32;
    let b1: u32 = word[1] as u32;
    let b2: u32 = word[2] as u32;
    let b3: u32 = word[3] as u32;
    b0 + 0x100 * b1 + 0x1_0000 * b2 + 0x100_0000 * b3
}

/// One place of an addition: the byte of the sum and the carry that leaves the place.
fn add_limb(a: u8, b: u8, carry_in: bool) -> (out: (u8, bool))
    ensures
        a + b + bit(carry_in) == out.0 + 0x100 * bit(out.1),
{
    let total: u16 = a as u16 + b as u16 + if carry_in {
        1
    } else {
        0
    };
    if total >= 0x100 {
        ((total - 0x100) as u8, true)
    } else {
        (total as u8, false)
    }
}

/// One place of a subtraction: the byte of the difference and whether the place borrows.
fn sub_limb(a: u8, b: u8, borrow_in: bool) -> (out: (u8, bool))
    ensures
        a - b - bit(borrow_in) == out.0 - 0x100 * bit(out.1),
{
    let taken: u16 = b as u16 + if borrow_in {
        1
    } else {
        0
    };
    if (a as u16) < taken {
        ((a as u16 + 0x100 - taken) as u8, true)
    } else {
        ((a as u16 - taken) as u8, false)
    }
}

/// Adds two words byte by byte, returning the bytes of the sum modulo `2^32`
/// and the carry that leaves each place.
pub fn add_with_carries(a: Word, b: Word) -> (out: (Word, BoolWord))
    ensures
        is_sum_with_carries(limbs(a), limbs(b), limbs(out.0), bits(out.1)),
        word_to_nat(out.0) == (word_to_nat(a) + word_to_nat(b)) % 0x1_0000_0000,
        bit(out.1[3]) == (word_to_nat(a) + word_to_nat(b)) / 0x1_0000_0000,
{
    let (s0, c0) = add_limb(a[0], b[0], false);
    let (s1, c1) = add_limb(a[1], b[1], c0);
    let (s2, c2) = add_limb(a[2], b[2], c1);
    let (s3, c3) = add_limb(a[3], b[3], c2);
    let sum: Word = [s0, s1, s2, s3];
    let carry: BoolWord = [c0, c1, c2, c3];
    assert(word_to_nat(a) + word_to_nat(b) == word_to_nat(sum) + 0x1_0000_0000 * bit(c3));
    (sum, carry)
}

/// Subtracts `b` from `a` byte by byte, returning the bytes of the
/// difference modulo `2^32` and whether each place borrows.
pub fn subtract_with_borrow(a: Word, b: Word) -> (out: (Word, BoolWord))
    ensures
        is_difference_with_borrows(limbs(a), limbs(b), limbs(out.0), bits(out.1)),
        word_to_nat(out.0) == (word_to_nat(a) - word_to_nat(b)) % 0x1_0000_0000,
        out.1[3] == (word_to_nat(a) < word_to_nat(b)),
{
    let (d0, b0) = sub_limb(a[0], b[0], false);
    let (d1, b1) = sub_limb(a[1], b[1], b0);
    let (d2, b2) = sub_limb(a[2], b[2], b1);
    let (d3, b3) = sub_limb(a[3], b[3], b2);
    let diff: Word = [d0, d1, d2, d3];
    let borrow: BoolWord = [b0, b1, b2, b3];
    assert(word_to_nat(a) - word_to_nat(b) == word_to_nat(diff) - 0x1_0000_0000 * bit(b3));
    (diff, borrow)
}

/// The number that the lower two bytes of `word` stand for.
pub open spec fn low_half(word: Seq<nat>) -> nat {
    word[0] + 0x100 * word[1]
}

/// The number that the upper two bytes of `word` stand for.
pub open spec fn high_half(word: Seq<nat>) -> nat {
    word[2] + 0x100 * word[3]
}

/// Whether the row `row` holds the comparison of the words `a` and `b`, half
/// by half: `Neq12` and `Neq34` are the flags of whether the lower and the
/// upper halves differ, each with its witnesses, and `Neq` is 1 where either
/// flag is.
pub open spec fn halves_compared(traces: &Traces, row: int, a: Seq<nat>, b: Seq<nat>) -> bool {
    let low = traces.field(row, Column::Neq12)[0];
    let high = traces.field(row, Column::Neq34)[0];
    &&& differs_witnessed(
        low_half(a),
        low_half(b),
        low,
        traces.field(row, Column::Neq12Aux)[0],
        traces.field(row, Column::Neq12AuxInv)[0],
    )
    &&& differs_witnessed(
        high_half(a),
        high_half(b),
        high,
        traces.field(row, Column::Neq34Aux)[0],
        traces.field(row, Column::Neq34AuxInv)[0],
    )
    &&& traces.field(row, Column::Neq)[0] + low * high == low + high
}

/// Whether `x` and `y` differ, with the witnesses of that: the inverse of
/// their difference in the field and that difference, or twice 1 where they
/// are equal.
pub fn differ_witness(x: u32, y: u32) -> (out: (bool, BaseField, BaseField))
    requires
        x < P,
        y < P,
    ensures
        out.0 == (x != y),
        differs_witnessed(x as nat, y as nat, bit(out.0), out.1@, out.2@),
{
    let difference = BaseField::from_u32(x).minus(BaseField::from_u32(y));
    if difference.is_zero() {
        proof {
            assert(0 * 1 == 0);
            assert(1nat * 1nat == 1);
            assert(difference@ * 1 == 0) by (nonlinear_arith)
                requires
                    difference@ == 0,
            ;
        }
        (false, BaseField::one(), BaseField::one())
    } else {
        let inverse = difference.inverse();
        proof {
            assert(inverse@ * difference@ == difference@ * inverse@) by (nonlinear_arith);
        }
        (true, inverse, difference)
    }
}
/// Whether `sign_x` and `sign_y` are the highest bits of the words `x` and
/// `y`: each is 0 or 1, and the highest byte of its word is 128 times the
/// bit plus a rest below 128, which `rest` holds in its first two places.
pub open spec fn signs_witnessed(
    x: Seq<nat>,
    y: Seq<nat>,
    sign_x: nat,
    sign_y: nat,
    rest: Seq<nat>,
) -> bool {
    &&& sign_x <= 1 && sign_y <= 1
    &&& rest.len() == 4 && rest[0] < 0x80 && rest[1] < 0x80 && rest[2] == 0 && rest[3] == 0
    &&& x[3] == rest[0] + 0x80 * sign_x
    &&& y[3] == rest[1] + 0x80 * sign_y
}

/// Whether the first of two numbers in two's complement is the smaller one,
/// given their sign bits and the borrow out of their unsigned difference: a
/// negative number is smaller than one that is not, and numbers of one sign
/// compare as their bits do.
pub open spec fn signed_less(sign_x: nat, sign_y: nat, borrow: nat) -> nat {
    if sign_x != sign_y {
        sign_x
    } else {
        borrow
    }
}

/// The comparison of two words as numbers in two's complement.
pub struct SignedComparison {
    /// The bytes of the first word less the second.
    pub diff: Word,
    /// The borrows of that subtraction.
    pub borrow: BoolWord,
    /// The sign bit of the first word.
    pub sign_x: bool,
    /// The sign bit of the second word.
    pub sign_y: bool,
    /// The highest bytes of the two words without their sign bits.
    pub rest: Word,
    /// Whether the first word is the smaller one.
    pub less: bool,
}

/// Numbers in two's complement compare by their sign bits first: a negative
/// number is smaller than one that is not, and numbers of one sign compare as
/// their bits do.
pub proof fn lemma_signed_order(x: u32, y: u32)
    ensures
        (crate::step::signed(x) < crate::step::signed(y)) == if (x >= 0x8000_0000) != (y
            >= 0x8000_0000) {
            x >= 0x8000_0000
        } else {
            x < y
        },
{
}

/// The sign bit of a word is the highest bit of its highest byte.
proof fn lemma_sign_of_word(word: Word)
    ensures
        (word[3] >= 0x80) == (word_to_nat(word) >= 0x8000_0000),
        word_to_nat(word) <= u32::MAX,
{
}

/// Compares two words as numbers in two's complement.
pub fn compare_signed(x: Word, y: Word) -> (out: SignedComparison)
    ensures
        is_difference_with_borrows(limbs(x), limbs(y), limbs(out.diff), bits(out.borrow)),
        signs_witnessed(limbs(x), limbs(y), bit(out.sign_x), bit(out.sign_y), limbs(out.rest)),
        bit(out.less) == signed_less(bit(out.sign_x), bit(out.sign_y), bit(out.borrow[3])),
        out.less == (crate::step::signed(word_to_nat(x) as u32) < crate::step::signed(
            word_to_nat(y) as u32,
        )),
{
    let (diff, borrow) = subtract_with_borrow(x, y);
    let sign_x = x[3] >= 0x80;
    let sign_y = y[3] >= 0x80;
    let rest: Word = [
        if sign_x {
            x[3] - 0x80
        } else {
            x[3]
        },
        if sign_y {
            y[3] - 0x80
        } else {
            y[3]
        },
        0,
        0,
    ];
    let less = if sign_x != sign_y {
        sign_x
    } else {
        borrow[3]
    };
    proof {
        lemma_sign_of_word(x);
        lemma_sign_of_word(y);
        lemma_signed_order(word_to_nat(x) as u32, word_to_nat(y) as u32);
    }
    SignedComparison { diff, borrow, sign_x, sign_y, rest, less }
}

/// Whether `cleared` is the word `word` with its lowest bit, `bit`, cleared:
/// the lowest byte of `word` is twice `half`, which is below 128, plus
/// `bit`, which is 0 or 1, and `cleared` has twice `half` in its place.
pub open spec fn lowest_bit_cleared(word: Seq<nat>, bit: nat, half: nat, cleared: Seq<nat>) -> bool {
    &&& bit <= 1
    &&& half < 0x80
    &&& word[0] == 2 * half + bit
    &&& cleared == seq![2 * half, word[1], word[2], word[3]]
}

} // verus!
