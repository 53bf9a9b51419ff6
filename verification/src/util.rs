//! Small integer utilities for trace sizing.

use vstd::arithmetic::power2::is_pow2;
use vstd::arithmetic::power2::pow2;
use vstd::prelude::*;

verus! {

/// The first power of two that is at least `n`, starting the doubling at `p`.
pub open spec fn next_pow2_from(p: nat, n: nat) -> nat
    decreases (if p < n { n - p } else { 0 })
        when p >= 1
{
    if p >= n {
        p
    } else {
        next_pow2_from(2 * p, n)
    }
}

/// The padded row count of a trace with `n` real rows: the least power of two
/// that is at least `n`, and never below four.
pub open spec fn spec_padded_height(n: nat) -> nat {
    next_pow2_from(4, n)
}

/// `next_pow2_from` keeps powers of two and dominates both arguments.
pub proof fn lemma_next_pow2_from(p: nat, n: nat, k: nat)
    requires
        p == pow2(k),
        p >= 1,
    ensures
        exists|j: nat| next_pow2_from(p, n) == pow2(j),
        next_pow2_from(p, n) >= p,
        next_pow2_from(p, n) >= n,
    decreases (if p < n { n - p } else { 0 }),
{
    if p >= n {
        assert(next_pow2_from(p, n) == pow2(k));
    } else {
        assert(2 * p == pow2(k + 1)) by {
            vstd::arithmetic::power2::lemma_pow2_unfold(k + 1);
        }
        lemma_next_pow2_from(2 * p, n, k + 1);
    }
}

/// The padded height is a power of two, at least four, and at least `n`.
pub proof fn lemma_padded_height(n: nat)
    ensures
        is_pow2(spec_padded_height(n) as int),
        spec_padded_height(n) >= 4,
        spec_padded_height(n) >= n,
{
    assert(pow2(2) == 4) by {
        vstd::arithmetic::power2::lemma2_to64();
    }
    lemma_next_pow2_from(4, n, 2);
    let j = choose|j: nat| spec_padded_height(n) == pow2(j);
    assert(spec_padded_height(n) == pow2(j));
    vstd::arithmetic::power2::lemma_pow2(j);
    assert(vstd::arithmetic::power2::is_pow2_exists(spec_padded_height(n) as int));
    vstd::arithmetic::power2::is_pow2_equiv(spec_padded_height(n) as int);
}

/// Compute the padded row count: the least power of two at least `n`, with a
/// floor of four.
pub fn padded_height(n: usize) -> (r: usize)
    requires
        n <= usize::MAX / 2,
    ensures
        r as nat == spec_padded_height(n as nat),
        r >= 4,
        r >= n,
        is_pow2(r as int),
{
    let mut p: usize = 4;
    while p < n
        invariant
            4 <= p,
            n <= usize::MAX / 2,
            next_pow2_from(p as nat, n as nat) == spec_padded_height(n as nat),
        decreases (if p < n { n as int - p as int } else { 0int }),
    {
        p = p * 2;
    }
    proof {
        lemma_padded_height(n as nat);
    }
    p
}

/// The ceiling of the base-two logarithm: the least `k` with `pow2(k) >= n`.
pub fn log2_ceil_usize(n: usize) -> (r: usize)
    requires
        n <= usize::MAX / 2,
    ensures
        pow2(r as nat) >= n,
        r > 0 ==> pow2((r - 1) as nat) < n,
{
    let mut k: usize = 0;
    let mut p: usize = 1;
    proof {
        vstd::arithmetic::power2::lemma2_to64();
    }
    while p < n
        invariant
            n <= usize::MAX / 2,
            1 <= p,
            k <= p,
            p as nat == pow2(k as nat),
            k > 0 ==> pow2((k - 1) as nat) < n,
        decreases (if p < n { n as int - p as int } else { 0int }),
    {
        proof {
            vstd::arithmetic::power2::lemma_pow2_unfold(k as nat + 1);
        }
        p = p * 2;
        k = k + 1;
    }
    k
}

} // verus!
