//! Reordering of a column from the order of execution into the order in which
//! the commitment scheme expects the evaluations of a polynomial on a circle
//! domain, and back.
//!
//! The rows of a trace are numbered along a coset `G_2n + <G_n>`. A circle
//! domain lists the same points as a half coset followed by its conjugate, and
//! the commitment scheme wants that list with every index bit-reversed.

use vstd::prelude::*;
use vstd::arithmetic::power2::{
    lemma_pow2_pos,
    lemma_pow2_strictly_increases,
    lemma_pow2_unfold,
    pow2,
};

verus! {

/// The number whose binary digits are the lowest `bits` digits of `index` in
/// reverse order.
pub open spec fn bit_reverse_spec(index: nat, bits: nat) -> nat
    decreases bits,
{
    if bits == 0 {
        0
    } else {
        (index % 2) * pow2((bits - 1) as nat) + bit_reverse_spec(index / 2, (bits - 1) as nat)
    }
}

/// What [`bit_reverse_index`] returns: with no digits to reverse the index
/// stays as it is.
pub open spec fn bit_reverse_index_spec(index: nat, log_size: nat) -> nat {
    if log_size == 0 {
        index
    } else {
        bit_reverse_spec(index, log_size)
    }
}

/// Whether `n` is a power of two.
pub open spec fn is_power_of_two(n: nat) -> bool {
    exists|k: nat| n == #[trigger] pow2(k)
}

/// The exponent of a power of two.
pub open spec fn log2_spec(n: nat) -> nat
    recommends
        is_power_of_two(n),
{
    choose|k: nat| n == #[trigger] pow2(k)
}

/// `values` with the element at each index moved to the bit-reversed index.
pub open spec fn bit_reversed<T>(values: Seq<T>) -> Seq<T>
    recommends
        is_power_of_two(values.len()),
{
    Seq::new(
        values.len(),
        |i: int| values[bit_reverse_spec(i as nat, log2_spec(values.len())) as int],
    )
}

/// The values of a column in coset order, listed in circle-domain order: the
/// even rows upwards, then the odd rows downwards.
pub open spec fn circle_domain_order<T>(values: Seq<T>) -> Seq<T> {
    let half = values.len() / 2;
    Seq::new(
        2 * half,
        |i: int|
            if i < half {
                values[2 * i]
            } else {
                values[values.len() - 1 - 2 * (i - half)]
            },
    )
}

/// The values of a column in circle-domain order, listed in coset order.
pub open spec fn coset_order<T>(values: Seq<T>) -> Seq<T> {
    let half = values.len() / 2;
    Seq::new(
        2 * half,
        |i: int|
            if i % 2 == 0 {
                values[i / 2]
            } else {
                values[values.len() - 1 - i / 2]
            },
    )
}

/// A reversed number has no more digits than were reversed.
pub proof fn lemma_bit_reverse_bound(index: nat, bits: nat)
    ensures
        bit_reverse_spec(index, bits) < pow2(bits),
    decreases bits,
{
    lemma_pow2_pos(bits);
    if bits > 0 {
        let below = (bits - 1) as nat;
        lemma_bit_reverse_bound(index / 2, below);
        lemma_pow2_unfold(bits);
        assert((index % 2) * pow2(below) <= pow2(below)) by (nonlinear_arith)
            requires
                index % 2 <= 1,
        ;
    }
}

/// Reversing moves the highest of `bits` digits to the lowest place.
proof fn lemma_bit_reverse_top(high: nat, low: nat, bits: nat)
    requires
        bits > 0,
        high <= 1,
        low < pow2((bits - 1) as nat),
    ensures
        bit_reverse_spec(high * pow2((bits - 1) as nat) + low, bits) == high + 2
            * bit_reverse_spec(low, (bits - 1) as nat),
    decreases bits,
{
    let below = (bits - 1) as nat;
    let index = high * pow2(below) + low;
    if bits == 1 {
        assert(pow2(0) == 1) by {
            vstd::arithmetic::power2::lemma2_to64();
        }
        assert(low == 0);
        assert(index == high);
        assert(bit_reverse_spec(high / 2, 0) == 0);
        assert(bit_reverse_spec(low, 0) == 0);
    } else {
        let lower = (bits - 2) as nat;
        lemma_pow2_unfold(below);
        assert(pow2(below) == 2 * pow2(lower));
        assert(index == 2 * (high * pow2(lower) + low / 2) + low % 2) by (nonlinear_arith)
            requires
                index == high * pow2(below) + low,
                pow2(below) == 2 * pow2(lower),
        ;
        assert(index % 2 == low % 2);
        assert(index / 2 == high * pow2(lower) + low / 2);
        assert(low / 2 < pow2(lower));
        lemma_bit_reverse_top(high, low / 2, below);
        assert(bit_reverse_spec(index / 2, below) == high + 2 * bit_reverse_spec(low / 2, lower));
        assert(bit_reverse_spec(low, below) == (low % 2) * pow2(lower) + bit_reverse_spec(
            low / 2,
            lower,
        ));
        assert((low % 2) * pow2(below) == 2 * ((low % 2) * pow2(lower))) by (nonlinear_arith)
            requires
                pow2(below) == 2 * pow2(lower),
        ;
    }
}

/// Reversing the digits twice gives the number back.
pub proof fn lemma_bit_reverse_involution(index: nat, bits: nat)
    requires
        index < pow2(bits),
    ensures
        bit_reverse_spec(bit_reverse_spec(index, bits), bits) == index,
    decreases bits,
{
    if bits == 0 {
        assert(pow2(0) == 1) by {
            vstd::arithmetic::power2::lemma2_to64();
        }
    } else {
        let below = (bits - 1) as nat;
        lemma_pow2_unfold(bits);
        let rest = bit_reverse_spec(index / 2, below);
        lemma_bit_reverse_bound(index / 2, below);
        lemma_bit_reverse_involution(index / 2, below);
        lemma_bit_reverse_top(index % 2, rest, bits);
    }
}

/// The exponent of a power of two is unique.
pub proof fn lemma_log2_of_pow2(k: nat)
    ensures
        is_power_of_two(pow2(k)),
        log2_spec(pow2(k)) == k,
{
    let j = log2_spec(pow2(k));
    if j < k {
        lemma_pow2_strictly_increases(j, k);
    } else if k < j {
        lemma_pow2_strictly_increases(k, j);
    }
}

/// Moving every element to its bit-reversed index twice restores a column
/// whose length is a power of two.
pub proof fn lemma_bit_reversed_twice<T>(values: Seq<T>)
    requires
        is_power_of_two(values.len()),
    ensures
        bit_reversed(bit_reversed(values)) == values,
{
    let bits = log2_spec(values.len());
    let once = bit_reversed(values);
    assert forall|i: int| 0 <= i < values.len() implies #[trigger] bit_reversed(once)[i]
        == values[i] by {
        lemma_bit_reverse_bound(i as nat, bits);
        lemma_bit_reverse_involution(i as nat, bits);
    }
    assert(bit_reversed(once) =~= values);
}

/// Listing a column of even length in circle-domain order and then in coset
/// order again restores it.
pub proof fn lemma_coset_order_restores<T>(values: Seq<T>)
    requires
        values.len() % 2 == 0,
    ensures
        coset_order(circle_domain_order(values)) == values,
{
    assert(coset_order(circle_domain_order(values)) =~= values);
}

/// Listing a column of even length in coset order and then in circle-domain
/// order again restores it.
pub proof fn lemma_circle_domain_order_restores<T>(values: Seq<T>)
    requires
        values.len() % 2 == 0,
    ensures
        circle_domain_order(coset_order(values)) == values,
{
    assert(circle_domain_order(coset_order(values)) =~= values);
}

/// The order in which the commitment scheme takes a column that is given in
/// the order of execution.
pub open spec fn committed_order<T>(values: Seq<T>) -> Seq<T> {
    bit_reversed(circle_domain_order(values))
}

/// The order of execution of a column that is given in the order of the
/// commitment scheme.
pub open spec fn execution_order<T>(values: Seq<T>) -> Seq<T> {
    coset_order(bit_reversed(values))
}

/// Reordering a column of `2^k` values, `k > 0`, for the commitment scheme
/// and back reproduces the column.
pub proof fn lemma_reordering_round_trip<T>(values: Seq<T>, k: nat)
    requires
        k > 0,
        values.len() == pow2(k),
    ensures
        execution_order(committed_order(values)) == values,
{
    lemma_pow2_unfold(k);
    lemma_log2_of_pow2(k);
    let circle = circle_domain_order(values);
    assert(circle.len() == values.len());
    lemma_bit_reversed_twice(circle);
    lemma_coset_order_restores(values);
}

/// Returns the bit reversed index of `i` which is represented by `log_size` bits.
pub fn bit_reverse_index(i: usize, log_size: u32) -> (reversed: usize)
    requires
        log_size <= usize::BITS,
    ensures
        reversed == bit_reverse_index_spec(i as nat, log_size as nat),
{
    if log_size == 0 {
        return i;
    }
    let mut reversed: usize = 0;
    let mut rest: usize = i;
    let mut done: u32 = 0;
    proof {
        vstd::layout::unsigned_int_max_values();
        assert(pow2(0) == 1) by {
            vstd::arithmetic::power2::lemma2_to64();
        }
        assert(reversed * pow2(log_size as nat) == 0);
    }
    while done < log_size
        invariant
            done <= log_size <= usize::BITS,
            usize::MAX == pow2(usize::BITS as nat) - 1,
            reversed < pow2(done as nat),
            bit_reverse_spec(i as nat, log_size as nat) == reversed * pow2(
                (log_size - done) as nat,
            ) + bit_reverse_spec(rest as nat, (log_size - done) as nat),
        decreases log_size - done,
    {
        proof {
            let left = (log_size - done) as nat;
            lemma_pow2_unfold(left);
            lemma_pow2_unfold((done + 1) as nat);
            if done + 1 < usize::BITS {
                lemma_pow2_strictly_increases((done + 1) as nat, usize::BITS as nat);
            }
            assert(2 * reversed + rest % 2 < pow2((done + 1) as nat));
            assert(reversed * pow2(left) + (rest % 2) * pow2((left - 1) as nat) == (2 * reversed
                + rest % 2) * pow2((left - 1) as nat)) by (nonlinear_arith)
                requires
                    pow2(left) == 2 * pow2((left - 1) as nat),
            ;
        }
        reversed = 2 * reversed + rest % 2;
        rest = rest / 2;
        done = done + 1;
    }
    proof {
        assert(pow2(0) == 1) by {
            vstd::arithmetic::power2::lemma2_to64();
        }
        assert(reversed * pow2(0) == reversed) by (nonlinear_arith)
            requires
                pow2(0) == 1,
        ;
    }
    reversed
}

/// The exponent of the power of two `n`.
fn log2_of_power_of_two(n: usize) -> (log: u32)
    requires
        is_power_of_two(n as nat),
    ensures
        log == log2_spec(n as nat),
        n == pow2(log as nat),
        log < usize::BITS,
{
    let ghost k = log2_spec(n as nat);
    let mut log: u32 = 0;
    let mut rest: usize = n;
    proof {
        vstd::layout::unsigned_int_max_values();
        assert(pow2(0) == 1) by {
            vstd::arithmetic::power2::lemma2_to64();
        }
        if k >= usize::BITS {
            if k > usize::BITS {
                lemma_pow2_strictly_increases(usize::BITS as nat, k);
            }
        }
        assert(rest * pow2(0) == rest) by (nonlinear_arith)
            requires
                pow2(0) == 1,
        ;
    }
    while rest > 1
        invariant
            n == pow2(k),
            k < usize::BITS,
            log <= k,
            rest == pow2((k - log) as nat),
        decreases rest,
    {
        proof {
            if log == k {
                assert(pow2(0) == 1) by {
                    vstd::arithmetic::power2::lemma2_to64();
                }
            }
            lemma_pow2_unfold((k - log) as nat);
        }
        rest = rest / 2;
        log = log + 1;
    }
    proof {
        lemma_pow2_pos((k - log) as nat);
        if log < k {
            lemma_pow2_unfold((k - log) as nat);
            lemma_pow2_pos((k - log - 1) as nat);
        }
    }
    log
}

/// Performs a naive bit-reversal permutation inplace.
pub fn bit_reverse<T: Copy>(v: &mut Vec<T>)
    requires
        is_power_of_two(old(v).len() as nat),
    ensures
        final(v)@ == bit_reversed(old(v)@),
{
    let n = v.len();
    let log_n = log2_of_power_of_two(n);
    let ghost bits = log_n as nat;
    let ghost before = v@;
    let mut i: usize = 0;
    while i < n
        invariant
            i <= n,
            n == pow2(bits),
            bits == log_n,
            bits == log2_spec(n as nat),
            log_n < usize::BITS,
            v.len() == n,
            before.len() == n,
            forall|x: int|
                0 <= x < n ==> #[trigger] v[x] == if x < i || bit_reverse_spec(x as nat, bits)
                    < i {
                    before[bit_reverse_spec(x as nat, bits) as int]
                } else {
                    before[x]
                },
        decreases n - i,
    {
        let j = bit_reverse_index(i, log_n);
        proof {
            lemma_bit_reverse_bound(i as nat, bits);
            lemma_bit_reverse_involution(i as nat, bits);
            if bits == 0 {
                assert(pow2(0) == 1) by {
                    vstd::arithmetic::power2::lemma2_to64();
                }
                assert(bit_reverse_spec(i as nat, 0) == 0);
            }
            assert(j == bit_reverse_spec(i as nat, bits));
        }
        let ghost prev = v@;
        if j > i {
            let a = v[i];
            let b = v[j];
            v.set(i, b);
            v.set(j, a);
        }
        proof {
            assert forall|x: int| 0 <= x < n implies #[trigger] v[x] == if x < i + 1
                || bit_reverse_spec(x as nat, bits) < i + 1 {
                before[bit_reverse_spec(x as nat, bits) as int]
            } else {
                before[x]
            } by {
                lemma_bit_reverse_bound(x as nat, bits);
                lemma_bit_reverse_involution(x as nat, bits);
                assert(prev[x] == if x < i || bit_reverse_spec(x as nat, bits) < i {
                    before[bit_reverse_spec(x as nat, bits) as int]
                } else {
                    before[x]
                });
                assert(prev[i as int] == if bit_reverse_spec(i as nat, bits) < i {
                    before[bit_reverse_spec(i as nat, bits) as int]
                } else {
                    before[i as int]
                });
                if j > i {
                    assert(prev[j as int] == before[j as int]);
                }
            }
        }
        i = i + 1;
    }
    proof {
        assert forall|x: int| 0 <= x < n implies #[trigger] v[x] == bit_reversed(before)[x] by {
            lemma_bit_reverse_bound(x as nat, bits);
        }
        assert(v@ =~= bit_reversed(before));
    }
}

/// Lists the values of a column, given in coset order, in circle-domain order.
pub fn coset_order_to_circle_domain_order<T: Copy>(values: &[T]) -> (ordered: Vec<T>)
    ensures
        ordered@ == circle_domain_order(values@),
{
    let n = values.len();
    let half_len = n / 2;
    let mut ordered: Vec<T> = Vec::with_capacity(n);
    let mut i: usize = 0;
    while i < half_len
        invariant
            i <= half_len,
            half_len == n / 2,
            n == values@.len(),
            ordered.len() == i,
            forall|x: int| 0 <= x < i ==> #[trigger] ordered[x] == values@[2 * x],
        decreases half_len - i,
    {
        ordered.push(values[2 * i]);
        i = i + 1;
    }
    let mut i: usize = 0;
    while i < half_len
        invariant
            i <= half_len,
            half_len == n / 2,
            n == values@.len(),
            ordered.len() == half_len + i,
            forall|x: int| 0 <= x < half_len ==> #[trigger] ordered[x] == values@[2 * x],
            forall|x: int|
                half_len <= x < half_len + i ==> #[trigger] ordered[x] == values@[n - 1
                    - 2 * (x - half_len)],
        decreases half_len - i,
    {
        ordered.push(values[n - 1 - 2 * i]);
        i = i + 1;
    }
    proof {
        assert(ordered@ =~= circle_domain_order(values@));
    }
    ordered
}

/// Lists the values of a column, given in circle-domain order, in coset order.
pub fn circle_domain_order_to_coset_order<T: Copy>(values: &[T]) -> (ordered: Vec<T>)
    ensures
        ordered@ == coset_order(values@),
{
    let n = values.len();
    let half_len = n / 2;
    let mut ordered: Vec<T> = Vec::with_capacity(n);
    let mut i: usize = 0;
    while i < half_len
        invariant
            i <= half_len,
            half_len == n / 2,
            n == values@.len(),
            ordered.len() == 2 * i,
            forall|x: int|
                0 <= x < 2 * i ==> #[trigger] ordered[x] == if x % 2 == 0 {
                    values@[x / 2]
                } else {
                    values@[n - 1 - x / 2]
                },
        decreases half_len - i,
    {
        ordered.push(values[i]);
        ordered.push(values[n - 1 - i]);
        i = i + 1;
    }
    proof {
        assert(ordered@ =~= coset_order(values@));
    }
    ordered
}

} // verus!
