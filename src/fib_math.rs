//! The Fibonacci sequence as a mathematical function, and the identities
//! that fast doubling rests on.

use vstd::arithmetic::power2::{lemma_pow2_unfold, pow2};
use vstd::prelude::*;

verus! {

/// The n-th Fibonacci number: F(0) = 0, F(1) = 1, F(n) = F(n-1) + F(n-2).
pub open spec fn fib(n: nat) -> nat
    decreases n,
{
    if n == 0 {
        0
    } else if n == 1 {
        1
    } else {
        fib((n - 1) as nat) + fib((n - 2) as nat)
    }
}

/// The addition formula: F(m + n + 1) = F(m + 1) * F(n + 1) + F(m) * F(n).
pub proof fn lemma_fib_add(m: nat, n: nat)
    ensures
        fib(m + n + 1) == fib(m + 1) * fib(n + 1) + fib(m) * fib(n),
    decreases n,
{
    if n == 0 {
        assert(fib(1) == 1);
        assert(fib(m + 1) * 1 + fib(m) * 0 == fib(m + 1));
    } else if n == 1 {
        assert(fib(2) == 1) by {
            reveal_with_fuel(fib, 3);
        }
        assert(fib(m + 2) == fib(m + 1) + fib(m));
        assert(fib(m + 1) * 1 + fib(m) * 1 == fib(m + 1) + fib(m));
    } else {
        let n1 = (n - 1) as nat;
        let n2 = (n - 2) as nat;
        lemma_fib_add(m, n1);
        lemma_fib_add(m, n2);
        let (a, b) = (fib(m) as int, fib(m + 1) as int);
        let (x, y, z) = (fib(n2) as int, fib(n1) as int, fib(n) as int);
        assert(fib(n + 1) == z + y);
        assert(fib(n) == y + x);
        assert(fib(m + n + 1) == fib(m + n) + fib(m + n1));
        assert(fib(m + n) == b * z + a * y);
        assert(fib(m + n1) == b * y + a * x);
        assert(b * z + a * y + b * y + a * x == b * (z + y) + a * (y + x)) by (nonlinear_arith);
        assert(fib(m + n + 1) == b * (z + y) + a * (y + x));
    }
}

/// The doubling identities: F(2k) = F(k) * (2 F(k+1) - F(k)) and
/// F(2k + 1) = F(k)^2 + F(k+1)^2.
pub proof fn lemma_fib_doubling(k: nat)
    ensures
        fib(2 * k) == fib(k) * (2 * fib(k + 1) - fib(k)),
        fib(2 * k + 1) == fib(k) * fib(k) + fib(k + 1) * fib(k + 1),
{
    lemma_fib_add(k, k);
    lemma_fib_monotone(k);
    if k > 0 {
        let k1 = (k - 1) as nat;
        lemma_fib_add(k, k1);
        let (a, b, p) = (fib(k) as int, fib(k + 1) as int, fib(k1) as int);
        assert(b == a + p);
        assert(b * a + a * p == a * (2 * b - a)) by (nonlinear_arith)
            requires
                b == a + p,
        ;
    }
}

/// The recurrence: F(n) = F(n-1) + F(n-2) for every n of at least 2.
pub proof fn lemma_fib_recurrence(n: nat)
    requires
        n >= 2,
    ensures
        fib(n) == fib((n - 1) as nat) + fib((n - 2) as nat),
{
}

/// The sequence never decreases: F(n) <= F(n + 1), with a strict step from
/// index 2 on.
pub proof fn lemma_fib_monotone(n: nat)
    ensures
        fib(n) <= fib(n + 1),
        n >= 2 ==> fib(n) < fib(n + 1),
    decreases n,
{
    if n >= 1 {
        lemma_fib_monotone((n - 1) as nat);
    }
    if n == 1 {
        assert(fib(2) == 1) by {
            reveal_with_fuel(fib, 3);
        }
    }
}

/// Exponential bounds on the sequence: 2^(n/2) <= F(n + 1) and F(n) < 2^n,
/// so the number of digits of F(n) grows linearly in n, between these two rates.
pub proof fn lemma_fib_growth_bounds(n: nat)
    ensures
        pow2(n / 2) <= fib(n + 1),
        fib(n) < pow2(n),
    decreases n,
{
    if n >= 2 {
        lemma_fib_growth_bounds((n - 1) as nat);
        lemma_fib_growth_bounds((n - 2) as nat);
        lemma_fib_monotone((n - 1) as nat);
        lemma_pow2_unfold(n);
        lemma_pow2_unfold((n - 1) as nat);
        lemma_pow2_unfold(n / 2);
        assert((n - 2) as nat / 2 == n / 2 - 1);
    } else {
        lemma_pow2_unfold(1);
        lemma_pow2_unfold(2);
        assert(pow2(0) == 1) by {
            reveal_with_fuel(vstd::arithmetic::power::pow, 1);
        }
        assert(fib(2) == 1) by {
            reveal_with_fuel(fib, 3);
        }
    }
}

} // verus!
