//! Elements of the prime field with `2^31 - 1` elements, in which every trace value lives.

use vstd::prelude::*;
use vstd::arithmetic::div_mod::{lemma_mul_mod_noop_general, lemma_small_mod};

verus! {

/// The field's modulus, `2^31 - 1`.
pub const P: u32 = 2147483647;

/// `<M31 as num_traits::Zero>::zero` of stwo: the field's additive identity,
/// whose representative is 0.
#[verifier::external_body]
fn m31_zero() -> (r: u32)
    ensures
        r == 0,
{
    <stwo::core::fields::m31::M31 as num_traits::Zero>::zero().0
}

/// `<M31 as num_traits::One>::one` of stwo: the field's multiplicative
/// identity, whose representative is 1.
#[verifier::external_body]
fn m31_one() -> (r: u32)
    ensures
        r == 1,
{
    <stwo::core::fields::m31::M31 as num_traits::One>::one().0
}

/// `<M31 as From<u32>>::from` of stwo: the element that `value` stands for,
/// as its representative below the modulus.
#[verifier::external_body]
fn m31_from_u32(value: u32) -> (r: u32)
    ensures
        r == value % P,
{
    stwo::core::fields::m31::M31::from(value).0
}

/// `<M31 as Add>::add` of stwo on two representatives below the modulus:
/// the representative of their sum.
#[verifier::external_body]
fn m31_add(a: u32, b: u32) -> (r: u32)
    requires
        a < P,
        b < P,
    ensures
        r == (a + b) % (P as int),
{
    (stwo::core::fields::m31::M31::from_u32_unchecked(a)
        + stwo::core::fields::m31::M31::from_u32_unchecked(b)).0
}

/// `<M31 as Sub>::sub` of stwo on two representatives below the modulus:
/// the representative of their difference.
#[verifier::external_body]
fn m31_sub(a: u32, b: u32) -> (r: u32)
    requires
        a < P,
        b < P,
    ensures
        r == (a + P - b) % (P as int),
{
    (stwo::core::fields::m31::M31::from_u32_unchecked(a)
        - stwo::core::fields::m31::M31::from_u32_unchecked(b)).0
}

/// `<M31 as Mul>::mul` of stwo on two representatives below the modulus:
/// the representative of their product.
#[verifier::external_body]
fn m31_mul(a: u32, b: u32) -> (r: u32)
    requires
        a < P,
        b < P,
    ensures
        r == (a * b) % (P as int),
{
    (stwo::core::fields::m31::M31::from_u32_unchecked(a)
        * stwo::core::fields::m31::M31::from_u32_unchecked(b)).0
}

/// `M31::inverse` of stwo on a nonzero representative below the modulus (it
/// panics on zero): the representative of the multiplicative inverse.
#[verifier::external_body]
fn m31_inverse(a: u32) -> (r: u32)
    requires
        0 < a < P,
    ensures
        r < P,
        (a * r) % (P as int) == 1,
{
    stwo::core::fields::m31::M31::from_u32_unchecked(a).inverse().0
}

/// The representative of `x - y` for representatives `x` and `y`.
pub open spec fn field_sub(x: nat, y: nat) -> nat {
    ((x + P - y) % (P as int)) as nat
}

/// Whether `flag`, `aux` and `aux_inv` witness whether `x` and `y` differ:
/// `aux` is invertible, with inverse `aux_inv`, and the difference of `x`
/// and `y` times `aux` is `flag`, which is 0 or 1.
pub open spec fn differs_witnessed(x: nat, y: nat, flag: nat, aux: nat, aux_inv: nat) -> bool {
    &&& flag <= 1
    &&& (aux * aux_inv) % (P as nat) == 1
    &&& (field_sub(x, y) * aux) % (P as nat) == flag
}

/// A witnessed flag is 1 if the two elements differ and 0 if they are equal.
pub proof fn lemma_differs_witness_sound(x: nat, y: nat, flag: nat, aux: nat, aux_inv: nat)
    requires
        x < P,
        y < P,
        differs_witnessed(x, y, flag, aux, aux_inv),
    ensures
        flag == 1 <==> x != y,
{
    let p = P as int;
    let d = field_sub(x, y) as int;
    if x == y {
        assert(d == 0);
        assert(0 * aux == 0);
    } else {
        assert(d != 0);
        if flag == 0 {
            // d * aux is a multiple of the modulus, so d * aux * aux_inv is
            // one too; but aux * aux_inv is 1 more than a multiple, so that
            // product leaves the remainder d, which is not zero
            let da: int = d * (aux as int);
            let ai: int = (aux as int) * (aux_inv as int);
            let inv: int = aux_inv as int;
            lemma_mul_mod_noop_general(da, inv, p);
            lemma_mul_mod_noop_general(d, ai, p);
            assert(da * inv == d * ai) by (nonlinear_arith)
                requires
                    da == d * (aux as int),
                    ai == (aux as int) * (aux_inv as int),
                    inv == aux_inv as int,
            ;
            assert(((da % p) * inv) % p == 0) by {
                assert(da % p == 0);
                assert((da % p) * inv == 0) by (nonlinear_arith)
                    requires
                        da % p == 0,
                ;
            }
            assert((d * (ai % p)) % p == d) by {
                assert(ai % p == 1);
                assert(d * (ai % p) == d) by (nonlinear_arith)
                    requires
                        ai % p == 1,
                ;
                lemma_small_mod(d as nat, p as nat);
            }
        }
    }
}

/// An element of the field, held as its representative in `[0, P)`.
#[derive(Debug, Copy, Clone, PartialEq, Eq, Structural, Hash)]
pub struct BaseField {
    value: u32,
}

impl View for BaseField {
    type V = nat;

    /// The representative in `[0, P)`.
    closed spec fn view(&self) -> nat {
        self.value as nat
    }
}

impl BaseField {
    #[verifier::type_invariant]
    spec fn reduced(self) -> bool {
        self.value < P
    }

    /// The additive identity.
    pub fn zero() -> (r: Self)
        ensures
            r@ == 0,
    {
        BaseField { value: m31_zero() }
    }

    /// The multiplicative identity.
    pub fn one() -> (r: Self)
        ensures
            r@ == 1,
    {
        BaseField { value: m31_one() }
    }

    /// The element that the integer `value` stands for.
    pub fn from_u32(value: u32) -> (r: Self)
        ensures
            r@ == value % P,
    {
        BaseField { value: m31_from_u32(value) }
    }

    /// The element 1 for `true`, 0 for `false`.
    pub fn from_bool(flag: bool) -> (r: Self)
        ensures
            r@ == if flag { 1nat } else { 0nat },
    {
        if flag {
            Self::one()
        } else {
            Self::zero()
        }
    }

    /// The representative in `[0, P)`.
    pub fn value(&self) -> (value: u32)
        ensures
            value == self@,
            value < P,
    {
        proof {
            use_type_invariant(self);
        }
        self.value
    }

    pub fn is_zero(&self) -> (zero: bool)
        ensures
            zero == (self@ == 0),
    {
        self.value == 0
    }

    /// The sum of `self` and `rhs` in the field.
    pub fn plus(self, rhs: BaseField) -> (r: Self)
        ensures
            r@ == (self@ + rhs@) % (P as nat),
    {
        proof {
            use_type_invariant(&self);
            use_type_invariant(&rhs);
        }
        BaseField { value: m31_add(self.value, rhs.value) }
    }

    /// The difference of `self` and `rhs` in the field.
    pub fn minus(self, rhs: BaseField) -> (r: Self)
        ensures
            r@ == field_sub(self@, rhs@),
            self@ < P,
            rhs@ < P,
    {
        proof {
            use_type_invariant(&self);
            use_type_invariant(&rhs);
        }
        BaseField { value: m31_sub(self.value, rhs.value) }
    }

    /// The product of `self` and `rhs` in the field.
    pub fn times(self, rhs: BaseField) -> (r: Self)
        ensures
            r@ == (self@ * rhs@) % (P as nat),
    {
        proof {
            use_type_invariant(&self);
            use_type_invariant(&rhs);
            assert(0 <= self.value * rhs.value) by (nonlinear_arith);
        }
        BaseField { value: m31_mul(self.value, rhs.value) }
    }

    /// The multiplicative inverse of a nonzero element.
    pub fn inverse(&self) -> (r: Self)
        requires
            self@ != 0,
        ensures
            (self@ * r@) % (P as nat) == 1,
    {
        proof {
            use_type_invariant(self);
        }
        let value = m31_inverse(self.value);
        proof {
            assert(0 <= self.value * value) by (nonlinear_arith);
        }
        BaseField { value }
    }
}

} // verus!
