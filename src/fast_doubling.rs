//! The fast-doubling computation of F(n), one bit of the index at a time
//! from the most significant set bit down.

use crate::bigint::{big_add, big_mul, big_one, big_sub, big_value, big_zero};
use crate::fib_math::{fib, lemma_fib_doubling};
use num_bigint::BigUint;
use vstd::arithmetic::div_mod::{lemma_basic_div, lemma_div_denominator};
use vstd::arithmetic::power2::{lemma2_to64, lemma_pow2_pos, lemma_pow2_unfold, pow2};
use vstd::bits::lemma_u128_shr_is_div;
use vstd::prelude::*;

verus! {

/// Relies on `u128::leading_zeros`: `r` zero bits stand above the highest set
/// bit of `i`, so `i` is below 2^(128 - r) and, unless it is zero, at least
/// 2^(127 - r).
pub assume_specification[ u128::leading_zeros ](i: u128) -> (r: u32)
    ensures
        r <= 128,
        r == 128 <==> i == 0,
        (i as nat) < pow2((128 - r) as nat),
        r < 128 ==> pow2((127 - r) as nat) <= i,
;

/// The index formed by the bits of `n` at positions `i` and above.
pub open spec fn high_bits(n: u128, i: nat) -> nat {
    n as nat / pow2(i)
}

/// Dropping one more low bit halves the prefix: the prefix from position `i`
/// is twice the prefix from `i + 1`, plus bit `i`, which `(n >> i) & 1` reads.
proof fn lemma_high_bits_step(n: u128, i: u32)
    requires
        i < 128,
    ensures
        high_bits(n, i as nat) == 2 * high_bits(n, i as nat + 1) + (if (n >> i) & 1 == 1 {
            1int
        } else {
            0int
        }),
{
    let p = pow2(i as nat);
    lemma_pow2_pos(i as nat);
    lemma_pow2_unfold(i as nat + 1);
    lemma_div_denominator(n as int, p as int, 2);
    let x = n >> (i as u128);
    lemma_u128_shr_is_div(n, i as u128);
    assert(n >> i == n >> (i as u128)) by (bit_vector)
        requires
            i < 128,
    ;
    assert(((x & 1) == 1) == (x % 2 == 1)) by (bit_vector);
    assert(high_bits(n, i as nat + 1) == high_bits(n, i as nat) / 2);
}

/// Computes F(n) by fast doubling. For `n = 0` it returns zero at once;
/// otherwise it keeps the pair (F(k), F(k + 1)) for the index `k` formed by
/// the bits of `n` read so far, doubles `k` at each bit and adds one where the
/// bit is set.
pub fn fibonacci_fast_doubling_iterative(n: u128) -> (r: BigUint)
    ensures
        big_value(r) == fib(n as nat),
{
    if n == 0 {
        return big_zero();
    }
    let msb_index: u32 = 127 - n.leading_zeros();
    let mut a = big_zero();
    let mut b = big_one();
    // bits at positions below `i` are still to be read
    let mut i: u32 = msb_index + 1;
    proof {
        lemma_pow2_pos(i as nat);
        lemma_basic_div(n as int, pow2(i as nat) as int);
        assert(fib(1) == 1);
    }
    while i > 0
        invariant
            i <= 128,
            big_value(a) == fib(high_bits(n, i as nat)),
            big_value(b) == fib(high_bits(n, i as nat) + 1),
        decreases i,
    {
        i = i - 1;
        let ghost k = high_bits(n, i as nat + 1);
        proof {
            lemma_fib_doubling(k);
            lemma_high_bits_step(n, i);
        }
        // doubling: (F(k), F(k + 1)) becomes (F(2k), F(2k + 1))
        let twice_b = big_add(&b, &b);
        let diff = big_sub(&twice_b, &a);
        let c = big_mul(&a, &diff);
        let a_sq = big_mul(&a, &a);
        let b_sq = big_mul(&b, &b);
        let d = big_add(&a_sq, &b_sq);
        a = c;
        b = d;
        // advance: where bit `i` is set, (F(2k), F(2k + 1)) becomes (F(2k + 1), F(2k + 2))
        if (n >> i) & 1 == 1 {
            let t = big_add(&a, &b);
            a = b;
            b = t;
        }
    }
    proof {
        lemma2_to64();
    }
    a
}

/// The result is determined by the index: two results for the same `n` hold
/// the same number.
pub proof fn lemma_result_deterministic(n: u128, r1: BigUint, r2: BigUint)
    requires
        big_value(r1) == fib(n as nat),
        big_value(r2) == fib(n as nat),
    ensures
        big_value(r1) == big_value(r2),
{
}

} // verus!
