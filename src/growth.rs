//! The capacity policy of [`crate::MyVec`]: no slots until the first append,
//! four slots then, and twice as many each time an append finds the array full.
use vstd::prelude::*;
use vstd::arithmetic::power2::{
    lemma2_to64, lemma_pow2_pos, lemma_pow2_strictly_increases, lemma_pow2_unfold, pow2,
};

verus! {

/// The number of slots set aside on the first append.
pub const FIRST_CAPACITY: usize = 4;

/// `c` is one of the capacities the policy can reach once something was
/// appended: four times a power of two.
pub open spec fn is_growth_step(c: nat) -> bool {
    exists|k: nat| c == 4 * pow2(k)
}

/// The capacity after one append onto an array with capacity `cap` holding
/// `len` elements.
pub open spec fn grown_capacity(cap: nat, len: nat) -> nat {
    if cap == 0 {
        FIRST_CAPACITY as nat
    } else if len < cap {
        cap
    } else {
        cap * 2
    }
}

/// The capacity of a fresh array after `n` appends.
pub open spec fn capacity_after(n: nat) -> nat
    decreases n,
{
    if n == 0 {
        0
    } else {
        grown_capacity(capacity_after((n - 1) as nat), (n - 1) as nat)
    }
}

/// The first capacity is a step of the policy.
pub proof fn lemma_first_capacity_is_step()
    ensures
        is_growth_step(FIRST_CAPACITY as nat),
{
    lemma2_to64();
    assert(FIRST_CAPACITY as nat == 4 * pow2(0));
}

/// Doubling a step of the policy gives the next step.
pub proof fn lemma_double_is_step(c: nat)
    requires
        is_growth_step(c),
    ensures
        is_growth_step(c * 2),
{
    let k = choose|k: nat| c == 4 * pow2(k);
    lemma_pow2_unfold(k + 1);
    assert(c * 2 == 4 * pow2(k + 1));
}

/// Of two different steps of the policy, the larger is at least twice the smaller.
pub proof fn lemma_steps_double_apart(c: nat, d: nat)
    requires
        is_growth_step(c),
        is_growth_step(d),
        c < d,
    ensures
        c * 2 <= d,
{
    let j = choose|j: nat| c == 4 * pow2(j);
    let k = choose|k: nat| d == 4 * pow2(k);
    if k <= j {
        if k < j {
            lemma_pow2_strictly_increases(k, j);
        }
        assert(false);
    }
    lemma_pow2_unfold(j + 1);
    if j + 1 < k {
        lemma_pow2_strictly_increases(j + 1, k);
    }
}

/// Every step of the policy is at least the first capacity.
pub proof fn lemma_step_at_least_first(c: nat)
    requires
        is_growth_step(c),
    ensures
        FIRST_CAPACITY <= c,
{
    let k = choose|k: nat| c == 4 * pow2(k);
    lemma_pow2_pos(k);
}

/// The bounds that `n` appends leave on the capacity, from which the growth
/// law below follows.
proof fn lemma_capacity_after_bounds(n: nat)
    ensures
        n == 0 ==> capacity_after(n) == 0,
        n > 0 ==> is_growth_step(capacity_after(n)),
        n <= capacity_after(n),
        n > 0 ==> capacity_after(n) == FIRST_CAPACITY || capacity_after(n) < 2 * n,
    decreases n,
{
    if n > 0 {
        let m = (n - 1) as nat;
        lemma_capacity_after_bounds(m);
        let c = capacity_after(m);
        if m == 0 {
            lemma_first_capacity_is_step();
        } else if m == c {
            lemma_double_is_step(c);
            lemma_step_at_least_first(c);
        }
    }
}

/// Growth sequence: after `n` appends onto a fresh array the capacity is zero
/// when `n` is zero, and otherwise the smallest of 4, 8, 16, ... that is at
/// least `n`.
pub proof fn lemma_growth_sequence(n: nat)
    ensures
        n == 0 ==> capacity_after(n) == 0,
        n > 0 ==> is_growth_step(capacity_after(n)),
        n <= capacity_after(n),
        forall|c: nat| is_growth_step(c) && n <= c ==> capacity_after(n) <= c,
{
    lemma_capacity_after_bounds(n);
    let cap = capacity_after(n);
    assert forall|c: nat| is_growth_step(c) && n <= c implies cap <= c by {
        if c < cap {
            lemma_steps_double_apart(c, cap);
            lemma_step_at_least_first(c);
        }
    }
}

} // verus!
