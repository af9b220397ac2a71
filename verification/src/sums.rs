//! Sums of natural numbers.
use vstd::prelude::*;

verus! {

/// The sum of `f(0)` to `f(n - 1)`.
pub open spec fn sum_of(n: nat, f: spec_fn(int) -> nat) -> nat
    decreases n,
{
    if n == 0 { 0 } else { sum_of((n - 1) as nat, f) + f(n - 1) }
}

/// A sum grows with its terms.
pub proof fn lemma_sum_le(n: nat, f: spec_fn(int) -> nat, g: spec_fn(int) -> nat)
    requires
        forall|i: int| 0 <= i < n ==> #[trigger] g(i) <= f(i),
    ensures
        sum_of(n, g) <= sum_of(n, f),
    decreases n,
{
    if n > 0 {
        lemma_sum_le((n - 1) as nat, f, g);
        assert(g(n - 1) <= f(n - 1));
    }
}

/// A sum with a smaller term, and none larger, is smaller.
pub proof fn lemma_sum_lt(n: nat, f: spec_fn(int) -> nat, g: spec_fn(int) -> nat, k: int)
    requires
        forall|i: int| 0 <= i < n ==> #[trigger] g(i) <= f(i),
        0 <= k < n,
        g(k) < f(k),
    ensures
        sum_of(n, g) < sum_of(n, f),
    decreases n,
{
    if k == n - 1 {
        lemma_sum_le((n - 1) as nat, f, g);
    } else {
        lemma_sum_lt((n - 1) as nat, f, g, k);
        assert(g(n - 1) <= f(n - 1));
    }
}

/// A sum of bounded terms is bounded.
pub proof fn lemma_sum_bound(n: nat, f: spec_fn(int) -> nat, b: nat)
    requires
        forall|i: int| 0 <= i < n ==> #[trigger] f(i) <= b,
    ensures
        sum_of(n, f) <= n * b,
    decreases n,
{
    if n > 0 {
        lemma_sum_bound((n - 1) as nat, f, b);
        assert(f(n - 1) <= b);
        assert((n - 1) * b + b == n * b) by (nonlinear_arith);
    }
}

} // verus!
