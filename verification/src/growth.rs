//! The capacity growth policy: the next power of two at or above a requested
//! minimum. The spec functions here are what the container's contracts speak
//! of; the lemmas pin down the usual facts about powers of two.

use vstd::prelude::*;

verus! {

/// Holds exactly of the powers of two (1, 2, 4, ...).
pub open spec fn is_pow2(n: nat) -> bool
    decreases n,
{
    if n == 0 {
        false
    } else if n == 1 {
        true
    } else {
        n % 2 == 0 && is_pow2(n / 2)
    }
}

/// The smallest power of two at or above `n` (and at least 1).
pub open spec fn next_pow2(n: nat) -> nat
    decreases n,
{
    if n <= 1 {
        1
    } else {
        2 * next_pow2((n + 1) / 2)
    }
}

/// The largest request the growth policy accepts: `next_pow2` of anything at
/// or below this bound still fits in `usize`.
pub open spec fn growth_limit() -> int {
    usize::MAX as int / 2 + 1
}

/// The capacity after `n` single pushes onto a container of length `len`
/// and capacity `cap`: each push that finds the container full grows it to
/// the next power of two that fits one more element.
pub open spec fn pushed_cap(len: nat, cap: nat, n: nat) -> nat
    decreases n,
{
    if n == 0 {
        cap
    } else {
        let grown = if len == cap {
            next_pow2(len + 1)
        } else {
            cap
        };
        pushed_cap(len + 1, grown, (n - 1) as nat)
    }
}

/// `next_pow2(n)` is a power of two, at or above both `n` and 1.
pub proof fn lemma_next_pow2_bounds(n: nat)
    ensures
        next_pow2(n) >= n,
        next_pow2(n) >= 1,
        is_pow2(next_pow2(n)),
    decreases n,
{
    if n > 1 {
        lemma_next_pow2_bounds((n + 1) / 2);
    }
}

/// No power of two lies strictly between a power of two and its double.
pub proof fn lemma_pow2_lt(a: nat, b: nat)
    requires
        is_pow2(a),
        is_pow2(b),
        a < b,
    ensures
        2 * a <= b,
    decreases a,
{
    if a > 1 {
        lemma_pow2_lt(a / 2, b / 2);
    }
}

/// `next_pow2(n)` is the least power of two at or above `n`.
pub proof fn lemma_next_pow2_least(n: nat, p: nat)
    requires
        is_pow2(p),
        p >= n,
    ensures
        next_pow2(n) <= p,
    decreases n,
{
    if n > 1 {
        lemma_next_pow2_least((n + 1) / 2, p / 2);
    }
}

/// Computes the next power of two at or above `n`.
pub fn next_power_of_two(n: usize) -> (r: usize)
    requires
        n <= growth_limit(),
    ensures
        r == next_pow2(n as nat),
{
    proof {
        lemma_next_pow2_bounds(n as nat);
    }
    let mut p: usize = 1;
    while p < n
        invariant
            1 <= p,
            is_pow2(p as nat),
            p <= next_pow2(n as nat),
            n <= growth_limit(),
        decreases 2 * n - p,
    {
        proof {
            lemma_next_pow2_bounds(n as nat);
            // p is a power of two strictly below next_pow2(n), so its double
            // still fits below or at next_pow2(n).
            lemma_pow2_lt(p as nat, next_pow2(n as nat));
        }
        p = p * 2;
    }
    proof {
        lemma_next_pow2_least(n as nat, p as nat);
    }
    p
}

} // verus!
