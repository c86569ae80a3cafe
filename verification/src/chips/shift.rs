//! Shifts: `SLL`, `SRL`, `SRA` and their immediate forms.
//!
//! A shift by `8 * k + s` bits is made in two stages. The first shifts by
//! `s` bits: each byte is multiplied by `2^s`, or divided by it, and what
//! leaves a byte enters its neighbour. The second moves whole bytes, by one
//! place if the fourth bit of the amount is set, and by two if the fifth is.

use vstd::prelude::*;
use vstd::arithmetic::div_mod::{lemma_fundamental_div_mod, lemma_fundamental_div_mod_converse};
use vstd::arithmetic::power2::{lemma2_to64, lemma_pow2_adds, pow2};
use crate::chips::cpu::{is_flag, selected_flag, supports, CpuChip};
use crate::chips::utils::{
    lemma_limbs_of_value,
    lemma_word_limbs_are_bytes,
    lemma_word_value_of_limbs,
    limbs,
    u32_to_word,
    Word,
};
use crate::column::Column;
use crate::field::BaseField;
use crate::riscv::BuiltinOpcode;
use crate::step::{shifted_left, shifted_right, shifted_right_signed, signed, wrap, Step};
use crate::trace::{agree_on, bit, word_limbs, word_value, Traces};

verus! {

/// One of the three shifts.
#[derive(Debug, Copy, Clone, PartialEq, Eq, Structural)]
pub enum ShiftOp {
    Left,
    Right,
    RightSigned,
}

impl ShiftOp {
    /// The flag that marks the rows of the shift.
    pub open spec fn flag(self) -> Column {
        match self {
            ShiftOp::Left => Column::IsSll,
            ShiftOp::Right => Column::IsSrl,
            ShiftOp::RightSigned => Column::IsSra,
        }
    }

    /// The shift that `step` performs, if it performs one.
    pub open spec fn of(step: Step) -> Option<ShiftOp> {
        match step.instruction.opcode.builtin {
            Some(BuiltinOpcode::SLL) | Some(BuiltinOpcode::SLLI) => Some(ShiftOp::Left),
            Some(BuiltinOpcode::SRL) | Some(BuiltinOpcode::SRLI) => Some(ShiftOp::Right),
            Some(BuiltinOpcode::SRA) | Some(BuiltinOpcode::SRAI) => Some(ShiftOp::RightSigned),
            _ => None,
        }
    }

    /// The shift of `value` by `amount`.
    pub open spec fn on_words(self, value: u32, amount: u32) -> u32 {
        match self {
            ShiftOp::Left => shifted_left(value, amount),
            ShiftOp::Right => shifted_right(value, amount),
            ShiftOp::RightSigned => shifted_right_signed(value, amount),
        }
    }
}

/// What a row holds about a shift, as numbers.
pub ghost struct ShiftValues {
    /// The five bits of the amount, lowest first.
    pub bits: Seq<nat>,
    /// What the lowest byte of the third operand holds above those bits.
    pub rest: nat,
    /// `2^s`, where `s` is the number that the lowest three bits stand for.
    pub exp: nat,
    /// `2^(8 - s)`.
    pub inverse: nat,
    /// The bit that comes in from the left.
    pub sign: nat,
    /// The highest byte of the second operand without its highest bit.
    pub low: nat,
    /// Per byte of the second operand, what stays in the byte's place.
    pub rem: Seq<nat>,
    /// Per byte of the second operand, what moves to the neighbour.
    pub qt: Seq<nat>,
    /// The second operand shifted by `s` bits.
    pub bits_shifted: Seq<nat>,
    /// That, moved by one byte if the fourth bit of the amount is set.
    pub bytes_shifted: Seq<nat>,
    /// That, moved by two bytes if the fifth bit of the amount is set.
    pub result: Seq<nat>,
}

/// Whether the bits of `w` are the lowest five bits of `c0`, and its two
/// powers of two those of the lowest three.
pub open spec fn amount_split(c0: nat, w: ShiftValues) -> bool {
    &&& w.bits.len() == 5
    &&& w.bits[0] <= 1 && w.bits[1] <= 1 && w.bits[2] <= 1 && w.bits[3] <= 1 && w.bits[4] <= 1
    &&& w.rest < 8
    &&& c0 == w.bits[0] + 2 * w.bits[1] + 4 * w.bits[2] + 8 * w.bits[3] + 16 * w.bits[4] + 32
        * w.rest
    &&& w.exp == (1 + w.bits[0]) * (1 + 3 * w.bits[1]) * (1 + 15 * w.bits[2])
    &&& w.exp * w.inverse == 0x100
}

/// Whether `sign` is the bit that a shift of a word with the highest byte
/// `b3` brings in from the left: the highest bit of the word where the
/// shift keeps the sign, and zero for the others.
pub open spec fn sign_split(op: ShiftOp, b3: nat, w: ShiftValues) -> bool {
    match op {
        ShiftOp::RightSigned => w.sign <= 1 && w.low < 0x80 && b3 == 0x80 * w.sign + w.low,
        _ => w.sign == 0 && w.low == 0,
    }
}

/// Whether `rem` and `qt` are the lower byte and what is above it of `x`
/// times `exp`.
pub open spec fn scaled(x: nat, exp: nat, rem: nat, qt: nat) -> bool {
    x * exp == rem + 0x100 * qt && rem < 0x100 && qt < 0x100
}

/// Whether `qt` and `rem` are the quotient and the remainder of `x` by `exp`.
pub open spec fn divided(x: nat, exp: nat, rem: nat, qt: nat) -> bool {
    x == qt * exp + rem && rem < exp
}

/// `yes` if `flag` is set, and `no` if it is not.
pub open spec fn selected(flag: nat, yes: Seq<nat>, no: Seq<nat>) -> Seq<nat> {
    if flag == 1 {
        yes
    } else {
        no
    }
}

/// The two stages of a shift of `b` to the left.
pub open spec fn shifts_left(b: Seq<nat>, w: ShiftValues) -> bool {
    let h = w.bits_shifted;
    let g = w.bytes_shifted;
    &&& w.rem.len() == 4 && w.qt.len() == 4
    &&& scaled(b[0], w.exp, w.rem[0], w.qt[0])
    &&& scaled(b[1], w.exp, w.rem[1], w.qt[1])
    &&& scaled(b[2], w.exp, w.rem[2], w.qt[2])
    &&& scaled(b[3], w.exp, w.rem[3], w.qt[3])
    &&& h == seq![w.rem[0], w.rem[1] + w.qt[0], w.rem[2] + w.qt[1], w.rem[3] + w.qt[2]]
    &&& g == selected(w.bits[3], seq![0nat, h[0], h[1], h[2]], h)
    &&& w.result == selected(w.bits[4], seq![0nat, 0nat, g[0], g[1]], g)
}

/// The two stages of a shift of `b` to the right.
pub open spec fn shifts_right(b: Seq<nat>, w: ShiftValues) -> bool {
    let h = w.bits_shifted;
    let g = w.bytes_shifted;
    let fill = 0xff * w.sign;
    &&& w.rem.len() == 4 && w.qt.len() == 4
    &&& divided(b[0], w.exp, w.rem[0], w.qt[0])
    &&& divided(b[1], w.exp, w.rem[1], w.qt[1])
    &&& divided(b[2], w.exp, w.rem[2], w.qt[2])
    &&& divided(b[3], w.exp, w.rem[3], w.qt[3])
    &&& h == seq![
        w.qt[0] + w.rem[1] * w.inverse,
        w.qt[1] + w.rem[2] * w.inverse,
        w.qt[2] + w.rem[3] * w.inverse,
        (w.qt[3] + w.sign * (0x100 - w.inverse)) as nat,
    ]
    &&& g == selected(w.bits[3], seq![h[1], h[2], h[3], fill], h)
    &&& w.result == selected(w.bits[4], seq![g[2], g[3], fill, fill], g)
}

/// Whether `w` holds the shift `op` of the word with the bytes `b` by the
/// amount in the lowest byte of `c`, stage by stage.
pub open spec fn shift_witnessed(op: ShiftOp, b: Seq<nat>, c: Seq<nat>, w: ShiftValues) -> bool {
    &&& amount_split(c[0], w)
    &&& sign_split(op, b[3], w)
    &&& match op {
        ShiftOp::Left => shifts_left(b, w),
        _ => shifts_right(b, w),
    }
}

/// The power of two that a shift multiplies or divides by, from its parts.
proof fn lemma_power(w: ShiftValues, c: u32)
    requires
        amount_split((c % 0x100) as nat, w),
    ensures
        w.exp == pow2(w.bits[0] + 2 * w.bits[1] + 4 * w.bits[2]),
        1 <= w.exp <= 0x80,
        2 <= w.inverse <= 0x100,
        pow2((c % 32) as nat) == w.exp * pow2(8 * w.bits[3] + 16 * w.bits[4]),
        pow2(8 * w.bits[3] + 16 * w.bits[4]) == byte_step(w.bits[3], w.bits[4]),
{
    lemma2_to64();
    let s = w.bits[0] + 2 * w.bits[1] + 4 * w.bits[2];
    let k = 8 * w.bits[3] + 16 * w.bits[4];
    lemma_pow2_adds(s, k);
    assert(c % 32 == s + k);
    lemma_exp(w.bits[0], w.bits[1], w.bits[2], w.exp);
    assert(w.exp == pow2(s));
    assert(2 <= w.inverse <= 0x100) by (nonlinear_arith)
        requires
            w.exp * w.inverse == 0x100,
            1 <= w.exp <= 0x80,
    ;
}

/// The product that puts a power of two together from three bits.
proof fn lemma_exp(x: nat, y: nat, z: nat, exp: nat)
    by (nonlinear_arith)
    requires
        x <= 1,
        y <= 1,
        z <= 1,
        exp == (1 + x) * (1 + 3 * y) * (1 + 15 * z),
    ensures
        x == 0 && y == 0 && z == 0 ==> exp == 1,
        x == 1 && y == 0 && z == 0 ==> exp == 2,
        x == 0 && y == 1 && z == 0 ==> exp == 4,
        x == 1 && y == 1 && z == 0 ==> exp == 8,
        x == 0 && y == 0 && z == 1 ==> exp == 0x10,
        x == 1 && y == 0 && z == 1 ==> exp == 0x20,
        x == 0 && y == 1 && z == 1 ==> exp == 0x40,
        x == 1 && y == 1 && z == 1 ==> exp == 0x80,
{
}

/// A byte times a power of two below 256: what is above the lower byte is
/// less than the power, and the lower byte leaves room for as much.
proof fn lemma_scaled(x: nat, exp: nat, inverse: nat, rem: nat, qt: nat)
    by (nonlinear_arith)
    requires
        x < 0x100,
        exp * inverse == 0x100,
        scaled(x, exp, rem, qt),
    ensures
        qt < exp,
        rem + exp <= 0x100,
{
    assert(rem == exp * (x - inverse * qt));
    assert(x - inverse * qt < inverse);
    assert(exp * (x - inverse * qt) <= exp * (inverse - 1));
}

/// A byte divided by a power of two below 256: the quotient is less than
/// 256 by the power, and the remainder times as much is less than 256.
proof fn lemma_divided(x: nat, exp: nat, inverse: nat, rem: nat, qt: nat)
    by (nonlinear_arith)
    requires
        x < 0x100,
        exp * inverse == 0x100,
        divided(x, exp, rem, qt),
    ensures
        qt < inverse,
        rem * inverse + inverse <= 0x100,
{
    assert(qt * exp < inverse * exp);
    assert((rem + 1) * inverse <= exp * inverse);
}

/// The number that the bytes of `word` stand for, taken together with a
/// sign bit above them.
pub open spec fn extended(word: Seq<nat>, sign: nat) -> int {
    word_value(word) - 0x1_0000_0000 * sign
}

/// The first stage of a shift to the left multiplies by the smaller power of two.
proof fn lemma_left_bits(b: u32, w: ShiftValues)
    requires
        w.exp * w.inverse == 0x100,
        shifts_left(word_limbs(b), w),
    ensures
        w.bits_shifted.len() == 4,
        w.bits_shifted[0] < 0x100,
        w.bits_shifted[1] < 0x100,
        w.bits_shifted[2] < 0x100,
        w.bits_shifted[3] < 0x100,
        b * w.exp == word_value(w.bits_shifted) + 0x1_0000_0000 * w.qt[3],
{
    lemma_word_limbs_are_bytes(b);
    lemma_word_value_of_limbs(b);
    let l = word_limbs(b);
    let e = w.exp;
    lemma_scaled(l[0], e, w.inverse, w.rem[0], w.qt[0]);
    lemma_scaled(l[1], e, w.inverse, w.rem[1], w.qt[1]);
    lemma_scaled(l[2], e, w.inverse, w.rem[2], w.qt[2]);
    lemma_scaled(l[3], e, w.inverse, w.rem[3], w.qt[3]);
    let h = w.bits_shifted;
    assert(h[0] == w.rem[0]);
    assert(h[1] == w.rem[1] + w.qt[0]);
    assert(h[2] == w.rem[2] + w.qt[1]);
    assert(h[3] == w.rem[3] + w.qt[2]);
    assert(b * e == l[0] * e + 0x100 * (l[1] * e) + 0x1_0000 * (l[2] * e) + 0x100_0000 * (l[3]
        * e)) by (nonlinear_arith)
        requires
            b == l[0] + 0x100 * l[1] + 0x1_0000 * l[2] + 0x100_0000 * l[3],
    ;
}

/// The bytes that a shift to the left by whole bytes drops, as a number.
spec fn lifted(h: Seq<nat>, fourth: nat, fifth: nat) -> nat {
    if fifth == 1 {
        if fourth == 1 {
            h[1] + 0x100 * h[2] + 0x1_0000 * h[3]
        } else {
            h[2] + 0x100 * h[3]
        }
    } else {
        if fourth == 1 {
            h[3]
        } else {
            0
        }
    }
}

/// The second stage of a shift to the left multiplies by the power of 256.
proof fn lemma_left_bytes(h: Seq<nat>, g: Seq<nat>, r: Seq<nat>, fourth: nat, fifth: nat)
    requires
        h.len() == 4 && h[0] < 0x100 && h[1] < 0x100 && h[2] < 0x100 && h[3] < 0x100,
        fourth <= 1,
        fifth <= 1,
        g == selected(fourth, seq![0nat, h[0], h[1], h[2]], h),
        r == selected(fifth, seq![0nat, 0nat, g[0], g[1]], g),
    ensures
        r.len() == 4 && r[0] < 0x100 && r[1] < 0x100 && r[2] < 0x100 && r[3] < 0x100,
        word_value(h) * byte_step(fourth, fifth) == word_value(r) + 0x1_0000_0000 * lifted(
            h,
            fourth,
            fifth,
        ),
{
}

/// The two stages of a shift to the left give the second operand times the
/// power of two, without what leaves the word.
proof fn lemma_left(b: u32, c: u32, w: ShiftValues)
    requires
        amount_split((c % 0x100) as nat, w),
        shifts_left(word_limbs(b), w),
    ensures
        w.result == word_limbs(shifted_left(b, c)),
{
    lemma_power(w, c);
    lemma_left_bits(b, w);
    let e = w.exp;
    let h = w.bits_shifted;
    let r = w.result;
    lemma_left_bytes(h, w.bytes_shifted, r, w.bits[3], w.bits[4]);
    let kc = byte_step(w.bits[3], w.bits[4]);
    let over = lifted(h, w.bits[3], w.bits[4]);
    assert(b * (e * kc) == word_value(r) + 0x1_0000_0000 * (over + w.qt[3] * kc))
        by (nonlinear_arith)
        requires
            b * e == word_value(h) + 0x1_0000_0000 * w.qt[3],
            word_value(h) * kc == word_value(r) + 0x1_0000_0000 * over,
    ;
    let power = pow2((c % 32) as nat);
    let lost = over + w.qt[3] * kc;
    assert(power == e * kc);
    assert(b * power == lost * 0x1_0000_0000 + word_value(r)) by (nonlinear_arith)
        requires
            b * (e * kc) == word_value(r) + 0x1_0000_0000 * (over + w.qt[3] * kc),
            power == e * kc,
            lost == over + w.qt[3] * kc,
    ;
    lemma_fundamental_div_mod_converse(
        b * power,
        0x1_0000_0000,
        lost as int,
        word_value(r) as int,
    );
    lemma_limbs_of_value(shifted_left(b, c), r[0], r[1], r[2], r[3]);
    assert(r =~= seq![r[0], r[1], r[2], r[3]]);
}

/// The first stage of a shift to the right divides by the smaller power of two.
proof fn lemma_right_bits(b: u32, w: ShiftValues)
    requires
        w.sign <= 1,
        1 <= w.exp,
        w.exp * w.inverse == 0x100,
        2 <= w.inverse <= 0x100,
        shifts_right(word_limbs(b), w),
    ensures
        w.bits_shifted.len() == 4,
        w.bits_shifted[0] < 0x100,
        w.bits_shifted[1] < 0x100,
        w.bits_shifted[2] < 0x100,
        w.bits_shifted[3] < 0x100,
        w.exp * extended(w.bits_shifted, w.sign) + w.rem[0] == b - 0x1_0000_0000 * w.sign,
        w.rem[0] < w.exp,
{
    lemma_word_limbs_are_bytes(b);
    lemma_word_value_of_limbs(b);
    let l = word_limbs(b);
    let e = w.exp;
    let inv = w.inverse;
    lemma_divided(l[0], e, inv, w.rem[0], w.qt[0]);
    lemma_divided(l[1], e, inv, w.rem[1], w.qt[1]);
    lemma_divided(l[2], e, inv, w.rem[2], w.qt[2]);
    lemma_divided(l[3], e, inv, w.rem[3], w.qt[3]);
    let h = w.bits_shifted;
    assert(h[0] == w.qt[0] + w.rem[1] * inv);
    assert(h[1] == w.qt[1] + w.rem[2] * inv);
    assert(h[2] == w.qt[2] + w.rem[3] * inv);
    assert(w.sign * (0x100 - inv) == if w.sign == 1 {
        0x100 - inv
    } else {
        0
    }) by (nonlinear_arith)
        requires
            w.sign <= 1,
    ;
    assert(h[3] == w.qt[3] + w.sign * (0x100 - inv));
    assert(e * extended(h, w.sign) + w.rem[0] == b - 0x1_0000_0000 * w.sign) by (nonlinear_arith)
        requires
            b == l[0] + 0x100 * l[1] + 0x1_0000 * l[2] + 0x100_0000 * l[3],
            l[0] == w.qt[0] * e + w.rem[0],
            l[1] == w.qt[1] * e + w.rem[1],
            l[2] == w.qt[2] * e + w.rem[2],
            l[3] == w.qt[3] * e + w.rem[3],
            e * inv == 0x100,
            extended(h, w.sign) == w.qt[0] + w.rem[1] * inv + 0x100 * (w.qt[1] + w.rem[2] * inv)
                + 0x1_0000 * (w.qt[2] + w.rem[3] * inv) + 0x100_0000 * (w.qt[3] + w.sign * (0x100
                - inv)) - 0x1_0000_0000 * w.sign,
    ;
}

/// By how much a shift by whole bytes multiplies or divides.
pub open spec fn byte_step(fourth: nat, fifth: nat) -> nat {
    if fifth == 1 {
        if fourth == 1 {
            0x100_0000
        } else {
            0x1_0000
        }
    } else {
        if fourth == 1 {
            0x100
        } else {
            1
        }
    }
}

/// The bytes that a shift to the right by whole bytes drops, as a number.
spec fn dropped(h: Seq<nat>, fourth: nat, fifth: nat) -> nat {
    if fifth == 1 {
        if fourth == 1 {
            h[0] + 0x100 * h[1] + 0x1_0000 * h[2]
        } else {
            h[0] + 0x100 * h[1]
        }
    } else {
        if fourth == 1 {
            h[0]
        } else {
            0
        }
    }
}

/// The second stage of a shift to the right divides by the power of 256.
proof fn lemma_right_bytes(h: Seq<nat>, g: Seq<nat>, r: Seq<nat>, sign: nat, fourth: nat, fifth: nat)
    requires
        h.len() == 4 && h[0] < 0x100 && h[1] < 0x100 && h[2] < 0x100 && h[3] < 0x100,
        sign <= 1,
        fourth <= 1,
        fifth <= 1,
        g == selected(fourth, seq![h[1], h[2], h[3], 0xff * sign], h),
        r == selected(fifth, seq![g[2], g[3], 0xff * sign, 0xff * sign], g),
    ensures
        r.len() == 4 && r[0] < 0x100 && r[1] < 0x100 && r[2] < 0x100 && r[3] < 0x100,
        byte_step(fourth, fifth) * extended(r, sign) + dropped(h, fourth, fifth) == extended(
            h,
            sign,
        ),
        dropped(h, fourth, fifth) < byte_step(fourth, fifth),
{
}

/// The two stages of a shift to the right divide by the power of two: the
/// second operand, or what it stands for with the bit that comes in as its
/// sign.
proof fn lemma_right_value(b: u32, c: u32, w: ShiftValues)
    requires
        amount_split((c % 0x100) as nat, w),
        w.sign <= 1,
        shifts_right(word_limbs(b), w),
    ensures
        w.result.len() == 4,
        w.result[0] < 0x100,
        w.result[1] < 0x100,
        w.result[2] < 0x100,
        w.result[3] < 0x100,
        (b - 0x1_0000_0000 * w.sign) / (pow2((c % 32) as nat) as int) == extended(w.result, w.sign),
{
    lemma_power(w, c);
    lemma_right_bits(b, w);
    let e = w.exp;
    let h = w.bits_shifted;
    let r = w.result;
    lemma_right_bytes(h, w.bytes_shifted, r, w.sign, w.bits[3], w.bits[4]);
    let kc = byte_step(w.bits[3], w.bits[4]);
    let low = dropped(h, w.bits[3], w.bits[4]);
    let value = b - 0x1_0000_0000 * w.sign;
    let power = pow2((c % 32) as nat);
    let rest = e * low + w.rem[0];
    assert(power == e * kc);
    assert(value == extended(r, w.sign) * power + rest && 0 <= rest < power) by (nonlinear_arith)
        requires
            e * extended(h, w.sign) + w.rem[0] == value,
            kc * extended(r, w.sign) + low == extended(h, w.sign),
            0 <= low < kc,
            0 <= w.rem[0] < e,
            power == e * kc,
            rest == e * low + w.rem[0],
    ;
    lemma_fundamental_div_mod_converse(value, power as int, extended(r, w.sign), rest as int);
}

/// The highest bit of a word, from its highest byte.
proof fn lemma_sign(b: u32, sign: nat, low: nat)
    requires
        sign <= 1,
        low < 0x80,
        word_limbs(b)[3] == 0x80 * sign + low,
    ensures
        signed(b) == b - 0x1_0000_0000 * sign,
{
    reveal(word_limbs);
}

/// The two stages of a shift to the right give the second operand, with
/// its sign where the shift keeps it, divided by the power of two.
proof fn lemma_right(op: ShiftOp, b: u32, c: u32, w: ShiftValues)
    requires
        op != ShiftOp::Left,
        amount_split((c % 0x100) as nat, w),
        sign_split(op, word_limbs(b)[3], w),
        shifts_right(word_limbs(b), w),
    ensures
        w.result == word_limbs(op.on_words(b, c)),
{
    lemma_right_value(b, c, w);
    let r = w.result;
    let quotient = (b - 0x1_0000_0000 * w.sign) / (pow2((c % 32) as nat) as int);
    assert(quotient == word_value(r) - 0x1_0000_0000 * w.sign);
    assert(0 <= word_value(r) < 0x1_0000_0000);
    if op == ShiftOp::RightSigned {
        lemma_sign(b, w.sign, w.low);
        assert(op.on_words(b, c) == wrap(quotient));
        assert(wrap(quotient) == word_value(r));
    } else {
        assert(w.sign == 0);
        assert(b as nat / pow2((c % 32) as nat) == quotient);
        assert(op.on_words(b, c) == word_value(r));
    }
    lemma_limbs_of_value(op.on_words(b, c), r[0], r[1], r[2], r[3]);
    assert(r =~= seq![r[0], r[1], r[2], r[3]]);
}

/// The identities of a shift leave one result: the shift of the second
/// operand by the lowest five bits of the third.
pub proof fn lemma_shift_sound(op: ShiftOp, b: u32, c: u32, w: ShiftValues)
    requires
        shift_witnessed(op, word_limbs(b), word_limbs(c), w),
    ensures
        w.result == word_limbs(op.on_words(b, c)),
{
    assert(word_limbs(c)[0] == c % 0x100) by {
        reveal(word_limbs);
    }
    match op {
        ShiftOp::Left => lemma_left(b, c, w),
        _ => lemma_right(op, b, c, w),
    }
}

/// What a row holds about a shift.
#[derive(Debug, Copy, Clone)]
pub struct ShiftWitness {
    /// The five bits of the amount, lowest first.
    pub bits: [bool; 5],
    /// What the lowest byte of the third operand holds above those bits.
    pub rest: u8,
    /// `2^s`, where `s` is the number that the lowest three bits stand for.
    pub exp: u8,
    /// `2^(8 - s)`.
    pub inverse: u32,
    /// The bit that comes in from the left.
    pub sign: bool,
    /// The highest byte of the second operand without its highest bit.
    pub low: u8,
    /// Per byte of the second operand, what stays in the byte's place.
    pub rem: Word,
    /// Per byte of the second operand, what moves to the neighbour.
    pub qt: Word,
    /// The second operand shifted by `s` bits.
    pub bits_shifted: Word,
    /// That, moved by one byte if the fourth bit of the amount is set.
    pub bytes_shifted: Word,
    /// That, moved by two bytes if the fifth bit of the amount is set.
    pub result: Word,
}

impl View for ShiftWitness {
    type V = ShiftValues;

    open spec fn view(&self) -> ShiftValues {
        ShiftValues {
            bits: seq![
                bit(self.bits[0]),
                bit(self.bits[1]),
                bit(self.bits[2]),
                bit(self.bits[3]),
                bit(self.bits[4]),
            ],
            rest: self.rest as nat,
            exp: self.exp as nat,
            inverse: self.inverse as nat,
            sign: bit(self.sign),
            low: self.low as nat,
            rem: limbs(self.rem),
            qt: limbs(self.qt),
            bits_shifted: limbs(self.bits_shifted),
            bytes_shifted: limbs(self.bytes_shifted),
            result: limbs(self.result),
        }
    }
}

/// The smaller power of two of a shift by `amount` bits, and 256 divided by it.
fn powers(amount: u8) -> (out: (u8, u32))
    requires
        amount < 32,
    ensures
        out.0 == (1 + bit(amount % 2 == 1)) * (1 + 3 * bit(amount / 2 % 2 == 1)) * (1 + 15 * bit(
            amount / 4 % 2 == 1,
        )),
        out.0 * out.1 == 0x100,
        1 <= out.0 <= 0x80,
        2 <= out.1 <= 0x100,
{
    proof {
        lemma_exp(
            bit(amount % 2 == 1),
            bit(amount / 2 % 2 == 1),
            bit(amount / 4 % 2 == 1),
            (1 + bit(amount % 2 == 1)) * (1 + 3 * bit(amount / 2 % 2 == 1)) * (1 + 15 * bit(
                amount / 4 % 2 == 1,
            )),
        );
    }
    let small: u8 = amount % 8;
    if small == 0 {
        (1, 0x100)
    } else if small == 1 {
        (2, 0x80)
    } else if small == 2 {
        (4, 0x40)
    } else if small == 3 {
        (8, 0x20)
    } else if small == 4 {
        (0x10, 0x10)
    } else if small == 5 {
        (0x20, 8)
    } else if small == 6 {
        (0x40, 4)
    } else {
        (0x80, 2)
    }
}

/// The lower byte of `x` times `exp`, and what is above it.
fn scale_byte(x: u8, exp: u8, inverse: u32) -> (out: (u8, u8))
    requires
        exp * inverse == 0x100,
    ensures
        scaled(x as nat, exp as nat, out.0 as nat, out.1 as nat),
        out.1 < exp,
        out.0 + exp <= 0x100,
{
    assert(x * exp <= 0xff * 0xff) by (nonlinear_arith)
        requires
            x <= 0xff,
            exp <= 0xff,
    ;
    let product: u32 = (x as u32) * (exp as u32);
    let rem: u32 = product % 0x100;
    let qt: u32 = product / 0x100;
    proof {
        assert(x as nat * exp as nat == product);
        lemma_scaled(x as nat, exp as nat, inverse as nat, rem as nat, qt as nat);
    }
    (rem as u8, qt as u8)
}

/// The remainder and the quotient of `x` by `exp`.
fn divide_byte(x: u8, exp: u8, inverse: u32) -> (out: (u8, u8))
    requires
        exp * inverse == 0x100,
        1 <= exp,
    ensures
        divided(x as nat, exp as nat, out.0 as nat, out.1 as nat),
        out.1 < inverse,
        out.0 * inverse + inverse <= 0x100,
{
    let qt: u8 = x / exp;
    let rem: u8 = x % exp;
    proof {
        lemma_fundamental_div_mod(x as int, exp as int);
        assert(x as nat == qt as nat * exp as nat + rem as nat) by (nonlinear_arith)
            requires
                x == exp * qt + rem,
        ;
        lemma_divided(x as nat, exp as nat, inverse as nat, rem as nat, qt as nat);
    }
    (rem, qt)
}

/// The word `h` moved to the left by one byte if `fourth` is set, and that
/// by two bytes if `fifth` is set.
fn move_left(h: Word, fourth: bool, fifth: bool) -> (out: (Word, Word))
    ensures
        limbs(out.0) == selected(
            bit(fourth),
            seq![0nat, h[0] as nat, h[1] as nat, h[2] as nat],
            limbs(h),
        ),
        limbs(out.1) == selected(
            bit(fifth),
            seq![0nat, 0nat, out.0[0] as nat, out.0[1] as nat],
            limbs(out.0),
        ),
{
    let g: Word = if fourth {
        [0, h[0], h[1], h[2]]
    } else {
        h
    };
    let r: Word = if fifth {
        [0, 0, g[0], g[1]]
    } else {
        g
    };
    assert(limbs(g) =~= selected(
        bit(fourth),
        seq![0nat, h[0] as nat, h[1] as nat, h[2] as nat],
        limbs(h),
    ));
    assert(limbs(r) =~= selected(
        bit(fifth),
        seq![0nat, 0nat, g[0] as nat, g[1] as nat],
        limbs(g),
    ));
    (g, r)
}

/// The word `h` moved to the right by one byte if `fourth` is set, and that
/// by two bytes if `fifth` is set; copies of `sign` come in from the left.
fn move_right(h: Word, fourth: bool, fifth: bool, sign: bool) -> (out: (Word, Word))
    ensures
        limbs(out.0) == selected(
            bit(fourth),
            seq![h[1] as nat, h[2] as nat, h[3] as nat, 0xff * bit(sign)],
            limbs(h),
        ),
        limbs(out.1) == selected(
            bit(fifth),
            seq![out.0[2] as nat, out.0[3] as nat, 0xff * bit(sign), 0xff * bit(sign)],
            limbs(out.0),
        ),
{
    let fill: u8 = if sign {
        0xff
    } else {
        0
    };
    let g: Word = if fourth {
        [h[1], h[2], h[3], fill]
    } else {
        h
    };
    let r: Word = if fifth {
        [g[2], g[3], fill, fill]
    } else {
        g
    };
    assert(limbs(g) =~= selected(
        bit(fourth),
        seq![h[1] as nat, h[2] as nat, h[3] as nat, 0xff * bit(sign)],
        limbs(h),
    ));
    assert(limbs(r) =~= selected(
        bit(fifth),
        seq![g[2] as nat, g[3] as nat, 0xff * bit(sign), 0xff * bit(sign)],
        limbs(g),
    ));
    (g, r)
}

/// The parts of the amount of a shift that the lowest byte `c0` of the
/// third operand holds.
struct Amount {
    bits: [bool; 5],
    rest: u8,
    exp: u8,
    inverse: u32,
}

/// Whether `w` holds the parts of `amount`.
spec fn amount_of(w: ShiftValues, amount: Amount) -> bool {
    &&& w.bits == seq![
        bit(amount.bits[0]),
        bit(amount.bits[1]),
        bit(amount.bits[2]),
        bit(amount.bits[3]),
        bit(amount.bits[4]),
    ]
    &&& w.rest == amount.rest
    &&& w.exp == amount.exp
    &&& w.inverse == amount.inverse
}

/// Cuts the lowest byte of the third operand of a shift into the bits of
/// the amount and what is above them.
fn split_amount(c0: u8) -> (amount: Amount)
    ensures
        forall|w: ShiftValues| amount_of(w, amount) ==> amount_split(c0 as nat, w),
        amount.exp * amount.inverse == 0x100,
        1 <= amount.exp,
        amount.inverse <= 0x100,
{
    let low: u8 = c0 % 32;
    let bits = [low % 2 == 1, low / 2 % 2 == 1, low / 4 % 2 == 1, low / 8 % 2 == 1, low / 16 == 1];
    let (exp, inverse) = powers(low);
    Amount { bits, rest: c0 / 32, exp, inverse }
}

/// The shift of the word with the bytes `b` to the left, stage by stage.
fn shift_left_witness(b: Word, amount: Amount) -> (w: ShiftWitness)
    requires
        amount.exp * amount.inverse == 0x100,
    ensures
        amount_of(w@, amount),
        sign_split(ShiftOp::Left, b[3] as nat, w@),
        shifts_left(limbs(b), w@),
{
    let (rem0, qt0) = scale_byte(b[0], amount.exp, amount.inverse);
    let (rem1, qt1) = scale_byte(b[1], amount.exp, amount.inverse);
    let (rem2, qt2) = scale_byte(b[2], amount.exp, amount.inverse);
    let (rem3, qt3) = scale_byte(b[3], amount.exp, amount.inverse);
    let h: Word = [rem0, rem1 + qt0, rem2 + qt1, rem3 + qt2];
    let (g, r) = move_left(h, amount.bits[3], amount.bits[4]);
    let w = ShiftWitness {
        bits: amount.bits,
        rest: amount.rest,
        exp: amount.exp,
        inverse: amount.inverse,
        sign: false,
        low: 0,
        rem: [rem0, rem1, rem2, rem3],
        qt: [qt0, qt1, qt2, qt3],
        bits_shifted: h,
        bytes_shifted: g,
        result: r,
    };
    assert(w@.bits_shifted =~= seq![
        w@.rem[0],
        w@.rem[1] + w@.qt[0],
        w@.rem[2] + w@.qt[1],
        w@.rem[3] + w@.qt[2],
    ]);
    w
}

/// The shift of the word with the bytes `b` to the right, stage by stage;
/// copies of the highest bit of the word come in from the left if
/// `keep_sign` is set, and zeros if it is not.
fn shift_right_witness(b: Word, amount: Amount, keep_sign: bool) -> (w: ShiftWitness)
    requires
        amount.exp * amount.inverse == 0x100,
        1 <= amount.exp,
    ensures
        amount_of(w@, amount),
        sign_split(
            if keep_sign {
                ShiftOp::RightSigned
            } else {
                ShiftOp::Right
            },
            b[3] as nat,
            w@,
        ),
        shifts_right(limbs(b), w@),
{
    let inverse = amount.inverse;
    let (rem0, qt0) = divide_byte(b[0], amount.exp, inverse);
    let (rem1, qt1) = divide_byte(b[1], amount.exp, inverse);
    let (rem2, qt2) = divide_byte(b[2], amount.exp, inverse);
    let (rem3, qt3) = divide_byte(b[3], amount.exp, inverse);
    let sign = keep_sign && b[3] >= 0x80;
    let low: u8 = if keep_sign {
        b[3] % 0x80
    } else {
        0
    };
    let fill: u32 = if sign {
        0x100 - inverse
    } else {
        0
    };
    assert(bit(sign) * (0x100 - inverse) == fill) by (nonlinear_arith)
        requires
            fill == if sign {
                0x100 - inverse
            } else {
                0
            },
    ;
    let h: Word = [
        (qt0 as u32 + rem1 as u32 * inverse) as u8,
        (qt1 as u32 + rem2 as u32 * inverse) as u8,
        (qt2 as u32 + rem3 as u32 * inverse) as u8,
        (qt3 as u32 + fill) as u8,
    ];
    let (g, r) = move_right(h, amount.bits[3], amount.bits[4], sign);
    let w = ShiftWitness {
        bits: amount.bits,
        rest: amount.rest,
        exp: amount.exp,
        inverse,
        sign,
        low,
        rem: [rem0, rem1, rem2, rem3],
        qt: [qt0, qt1, qt2, qt3],
        bits_shifted: h,
        bytes_shifted: g,
        result: r,
    };
    assert(w@.bits_shifted =~= seq![
        w@.qt[0] + w@.rem[1] * w@.inverse,
        w@.qt[1] + w@.rem[2] * w@.inverse,
        w@.qt[2] + w@.rem[3] * w@.inverse,
        (w@.qt[3] + w@.sign * (0x100 - w@.inverse)) as nat,
    ]);
    w
}

/// The shift `op` of the word with the bytes `b` by the amount in the lowest
/// byte of `c`, stage by stage.
pub fn shift_witness(op: ShiftOp, b: Word, c: Word) -> (w: ShiftWitness)
    ensures
        shift_witnessed(op, limbs(b), limbs(c), w@),
        w.inverse <= 0x100,
{
    let amount = split_amount(c[0]);
    match op {
        ShiftOp::Left => shift_left_witness(b, amount),
        ShiftOp::Right => shift_right_witness(b, amount, false),
        ShiftOp::RightSigned => shift_right_witness(b, amount, true),
    }
}

/// What the row `row` holds about a shift.
pub open spec fn row_values(traces: &Traces, row: int) -> ShiftValues {
    ShiftValues {
        bits: seq![
            traces.field(row, Column::ShiftBit1)[0],
            traces.field(row, Column::ShiftBit2)[0],
            traces.field(row, Column::ShiftBit3)[0],
            traces.field(row, Column::ShiftBit4)[0],
            traces.field(row, Column::ShiftBit5)[0],
        ],
        rest: traces.field(row, Column::QtAux)[0],
        exp: traces.field(row, Column::Exp1_3)[0],
        inverse: traces.field(row, Column::Exp)[0],
        sign: traces.field(row, Column::SgnB)[0],
        low: traces.field(row, Column::RemAux)[0],
        rem: traces.field(row, Column::Rem),
        qt: traces.field(row, Column::Qt),
        bits_shifted: traces.field(row, Column::Helper1),
        bytes_shifted: traces.field(row, Column::Helper2),
        result: traces.field(row, Column::ValueA),
    }
}

/// Fills the result of a shift and the two stages that lead to it.
pub struct ShiftChip;

impl ShiftChip {
    /// Whether the chip has work to do on `step`.
    pub open spec fn applies(step: Option<Step>) -> bool {
        step matches Some(s) && ShiftOp::of(s) is Some
    }

    /// The fields that the chip writes.
    pub open spec fn owned() -> Set<Column> {
        set![
            Column::ShiftBit1,
            Column::ShiftBit2,
            Column::ShiftBit3,
            Column::ShiftBit4,
            Column::ShiftBit5,
            Column::QtAux,
            Column::Exp1_3,
            Column::Exp,
            Column::SgnB,
            Column::RemAux,
            Column::Rem,
            Column::Qt,
            Column::Helper1,
            Column::Helper2,
            Column::ValueA,
        ]
    }

    /// The fields that the chip's identities speak of.
    pub open spec fn reads() -> Set<Column> {
        set![
            Column::IsSll,
            Column::IsSrl,
            Column::IsSra,
            Column::ValueB,
            Column::ValueC,
            Column::ShiftBit1,
            Column::ShiftBit2,
            Column::ShiftBit3,
            Column::ShiftBit4,
            Column::ShiftBit5,
            Column::QtAux,
            Column::Exp1_3,
            Column::Exp,
            Column::SgnB,
            Column::RemAux,
            Column::Rem,
            Column::Qt,
            Column::Helper1,
            Column::Helper2,
            Column::ValueA,
        ]
    }

    /// What the row of `step` holds once the chip has filled it.
    pub open spec fn witnessed(traces: &Traces, row: int, step: Step) -> bool {
        &&& traces.field(row, Column::ValueA) == word_limbs(step.result_spec())
        &&& ShiftOp::of(step) matches Some(op) && shift_witnessed(
            op,
            word_limbs(step.value_b_spec()),
            word_limbs(step.value_c_spec()),
            row_values(traces, row),
        )
    }

    /// The identities of one of the three shifts.
    pub open spec fn constraints_of(traces: &Traces, row: int, op: ShiftOp) -> bool {
        traces.field(row, op.flag())[0] == 1 ==> shift_witnessed(
            op,
            traces.field(row, Column::ValueB),
            traces.field(row, Column::ValueC),
            row_values(traces, row),
        )
    }

    /// On a shift, the row holds the bits of the amount, the power of two
    /// of its lowest three bits, the second operand shifted by those, and
    /// that moved by as many whole bytes as the other two bits say, which
    /// is the first operand.
    pub open spec fn constraints(traces: &Traces, row: int) -> bool {
        &&& Self::constraints_of(traces, row, ShiftOp::Left)
        &&& Self::constraints_of(traces, row, ShiftOp::Right)
        &&& Self::constraints_of(traces, row, ShiftOp::RightSigned)
    }

    /// What the chip filled holds of a row for as long as the chip's fields
    /// stay as they are.
    pub proof fn lemma_witnessed_kept(before: &Traces, after: &Traces, row: int, step: Step)
        requires
            Self::witnessed(before, row, step),
            agree_on(before, after, row, Self::owned()),
        ensures
            Self::witnessed(after, row, step),
    {
        assert(Self::owned().contains(Column::ShiftBit1));
        assert(Self::owned().contains(Column::ShiftBit2));
        assert(Self::owned().contains(Column::ShiftBit3));
        assert(Self::owned().contains(Column::ShiftBit4));
        assert(Self::owned().contains(Column::ShiftBit5));
        assert(Self::owned().contains(Column::QtAux));
        assert(Self::owned().contains(Column::Exp1_3));
        assert(Self::owned().contains(Column::Exp));
        assert(Self::owned().contains(Column::SgnB));
        assert(Self::owned().contains(Column::RemAux));
        assert(Self::owned().contains(Column::Rem));
        assert(Self::owned().contains(Column::Qt));
        assert(Self::owned().contains(Column::Helper1));
        assert(Self::owned().contains(Column::Helper2));
        assert(Self::owned().contains(Column::ValueA));
        assert(row_values(after, row) == row_values(before, row));
    }

    /// The identities hold of a row for as long as its fields stay as they are.
    pub proof fn lemma_constraints_kept(before: &Traces, after: &Traces, row: int)
        requires
            Self::constraints(before, row),
            agree_on(before, after, row, Self::reads()),
        ensures
            Self::constraints(after, row),
    {
        assert(Self::reads().contains(Column::IsSll));
        assert(Self::reads().contains(Column::IsSrl));
        assert(Self::reads().contains(Column::IsSra));
        assert(Self::reads().contains(Column::ValueB));
        assert(Self::reads().contains(Column::ValueC));
        assert(Self::reads().contains(Column::ShiftBit1));
        assert(Self::reads().contains(Column::ShiftBit2));
        assert(Self::reads().contains(Column::ShiftBit3));
        assert(Self::reads().contains(Column::ShiftBit4));
        assert(Self::reads().contains(Column::ShiftBit5));
        assert(Self::reads().contains(Column::QtAux));
        assert(Self::reads().contains(Column::Exp1_3));
        assert(Self::reads().contains(Column::Exp));
        assert(Self::reads().contains(Column::SgnB));
        assert(Self::reads().contains(Column::RemAux));
        assert(Self::reads().contains(Column::Rem));
        assert(Self::reads().contains(Column::Qt));
        assert(Self::reads().contains(Column::Helper1));
        assert(Self::reads().contains(Column::Helper2));
        assert(Self::reads().contains(Column::ValueA));
        assert(row_values(after, row) == row_values(before, row));
    }

    /// The identities hold of a row that the CPU chip has filled after this chip.
    pub proof fn lemma_constraints(traces: &Traces, row: int, step: Option<Step>)
        requires
            CpuChip::filled(traces, row, step),
            step matches Some(s) ==> s.wf() && supports(s),
            Self::applies(step) ==> Self::witnessed(traces, row, step->0),
        ensures
            Self::constraints(traces, row),
    {
        reveal(CpuChip::filled);
        assert(is_flag(Column::IsSll) && is_flag(Column::IsSrl) && is_flag(Column::IsSra));
        assert(traces.field(row, Column::IsSll) == seq![
            bit(Column::IsSll == selected_flag(step)),
        ]);
        assert(traces.field(row, Column::IsSrl) == seq![
            bit(Column::IsSrl == selected_flag(step)),
        ]);
        assert(traces.field(row, Column::IsSra) == seq![
            bit(Column::IsSra == selected_flag(step)),
        ]);
    }

    /// Writes what `w` holds to `row_idx`.
    fn fill_witness(traces: &mut Traces, row_idx: usize, w: ShiftWitness)
        requires
            old(traces).wf(),
            row_idx < old(traces).rows(),
            w.inverse <= 0x100,
        ensures
            final(traces).wf(),
            final(traces).same_outside(old(traces), row_idx as int, Self::owned()),
            row_values(final(traces), row_idx as int) == w@,
    {
        traces.fill_columns_bool(row_idx, Column::ShiftBit1, w.bits[0]);
        traces.fill_columns_bool(row_idx, Column::ShiftBit2, w.bits[1]);
        traces.fill_columns_bool(row_idx, Column::ShiftBit3, w.bits[2]);
        traces.fill_columns_bool(row_idx, Column::ShiftBit4, w.bits[3]);
        traces.fill_columns_bool(row_idx, Column::ShiftBit5, w.bits[4]);
        traces.fill_columns_value(row_idx, Column::QtAux, BaseField::from_u32(w.rest as u32));
        traces.fill_columns_value(row_idx, Column::Exp1_3, BaseField::from_u32(w.exp as u32));
        traces.fill_columns_value(row_idx, Column::Exp, BaseField::from_u32(w.inverse));
        traces.fill_columns_bool(row_idx, Column::SgnB, w.sign);
        traces.fill_columns_value(row_idx, Column::RemAux, BaseField::from_u32(w.low as u32));
        traces.fill_columns_bytes(row_idx, Column::Rem, w.rem);
        traces.fill_columns_bytes(row_idx, Column::Qt, w.qt);
        traces.fill_columns_bytes(row_idx, Column::Helper1, w.bits_shifted);
        traces.fill_columns_bytes(row_idx, Column::Helper2, w.bytes_shifted);
        traces.fill_columns_bytes(row_idx, Column::ValueA, w.result);
        proof {
            let values = row_values(traces, row_idx as int);
            assert(values.rest == w@.rest);
            assert(values.exp == w@.exp);
            assert(values.inverse == w@.inverse);
            assert(values.sign == w@.sign);
            assert(values.low == w@.low);
            assert(values.bits =~= w@.bits);
            assert(values.rem =~= w@.rem);
            assert(values.qt =~= w@.qt);
            assert(values.bits_shifted =~= w@.bits_shifted);
            assert(values.bytes_shifted =~= w@.bytes_shifted);
            assert(values.result =~= w@.result);
        }
    }

    /// On a shift, writes the result to `ValueA`, with the bits of the
    /// amount and the two stages that lead to the result. Leaves the trace
    /// as it is on every other step.
    pub fn fill_main_trace(traces: &mut Traces, row_idx: usize, vm_step: &Option<Step>)
        requires
            old(traces).wf(),
            row_idx < old(traces).rows(),
            *vm_step matches Some(s) ==> s.wf(),
        ensures
            final(traces).wf(),
            final(traces).same_outside(old(traces), row_idx as int, Self::owned()),
            !Self::applies(*vm_step) ==> final(traces)@ == old(traces)@,
            Self::applies(*vm_step) ==> Self::witnessed(final(traces), row_idx as int, vm_step->0),
    {
        let step = match vm_step {
            Some(step) => step,
            None => {
                return ;
            },
        };
        let op = match step.opcode() {
            Some(BuiltinOpcode::SLL) | Some(BuiltinOpcode::SLLI) => ShiftOp::Left,
            Some(BuiltinOpcode::SRL) | Some(BuiltinOpcode::SRLI) => ShiftOp::Right,
            Some(BuiltinOpcode::SRA) | Some(BuiltinOpcode::SRAI) => ShiftOp::RightSigned,
            _ => {
                return ;
            },
        };
        let value_b = u32_to_word(step.get_value_b());
        let value_c = u32_to_word(step.get_value_c());
        let w = shift_witness(op, value_b, value_c);
        proof {
            lemma_shift_sound(op, step.value_b_spec(), step.value_c_spec(), w@);
        }
        Self::fill_witness(traces, row_idx, w);
    }
}

} // verus!
