//! What the zone operations mean for the concrete values they describe.
use crate::domains::zone::dbm::{
    chain, clamp_spec, lemma_put_square, Bounds, EdgeOrigin, Zone, INF, NEG_BOUND, POS_BOUND,
};
use crate::domains::zone::ops::{
    sync_32, sync_64, sync_down, sync_ranges, sync_up, tighten_signed, truncated_div, wrapped_neg,
};
use crate::machine::reg::{Reg, DBM_DIM};
use crate::num::clip64;
use crate::sums::{lemma_sum_bound, lemma_sum_le, lemma_sum_lt, sum_of};
use vstd::prelude::*;

verus! {

/// The values `v` respect every bound of the matrix.
pub open spec fn models(m: Seq<Seq<i64>>, v: spec_fn(int) -> int) -> bool {
    forall|i: int, j: int|
        0 <= i < m.len() && 0 <= j < m.len() && #[trigger] m[i][j] < INF ==> v(i) - v(j) <= m[i][j]
}

/// Every entry of `a` is at most the entry of `b`.
pub open spec fn tighter(a: Seq<Seq<i64>>, b: Seq<Seq<i64>>) -> bool {
    forall|i: int, j: int|
        0 <= i < b.len() && 0 <= j < b.len() ==> #[trigger] a[i][j] <= b[i][j]
}

proof fn lemma_tighter_models(a: Seq<Seq<i64>>, b: Seq<Seq<i64>>, v: spec_fn(int) -> int)
    requires
        a.len() == b.len(),
        tighter(a, b),
        models(a, v),
    ensures
        models(b, v),
{
    assert forall|i: int, j: int|
        0 <= i < b.len() && 0 <= j < b.len() && #[trigger] b[i][j] < INF implies v(i) - v(j)
        <= b[i][j] by {
        assert(a[i][j] <= b[i][j]);
    }
}

pub proof fn lemma_relax(z: Zone, k: int, i: int, dik: i64, j: int, n: int)
    requires
        z.sized(n),
        0 <= k < n,
        0 <= i < n,
        0 <= j < n,
        dik < INF,
    ensures
        z.relax(k, i, dik, j).sized(n),
        z.relax(k, i, dik, j).bounds == z.bounds,
        tighter(z.relax(k, i, dik, j).m, z.m),
        forall|v: spec_fn(int) -> int|
            #[trigger] models(z.m, v) && v(i) - v(k) <= dik ==> models(
                z.relax(k, i, dik, j).m,
                v,
            ),
{
    let r = z.relax(k, i, dik, j);
    let via = chain(dik, z.m[k][j]);
    lemma_put_square(z.m, i, j, via, n);
    match z.prov {
        Some(t) => {
            lemma_put_square(
                t.edges,
                i,
                j,
                EdgeOrigin::Derived { via: k as usize },
                n,
            );
        },
        None => {},
    }
    assert forall|v: spec_fn(int) -> int|
        #[trigger] models(z.m, v) && v(i) - v(k) <= dik implies models(r.m, v) by {
        assert forall|a: int, b: int|
            0 <= a < r.m.len() && 0 <= b < r.m.len() && #[trigger] r.m[a][b] < INF implies v(a)
            - v(b) <= r.m[a][b] by {
            if r.m[a][b] != z.m[a][b] {
                assert(z.m[k][j] < INF);
            }
        }
    }
}

pub proof fn lemma_relax_row(z: Zone, k: int, i: int, dik: i64, c: nat, n: int)
    requires
        z.sized(n),
        0 <= k < n,
        0 <= i < n,
        c <= n,
        dik < INF,
    ensures
        z.relax_row(k, i, dik, c).sized(n),
        z.relax_row(k, i, dik, c).bounds == z.bounds,
        tighter(z.relax_row(k, i, dik, c).m, z.m),
        forall|v: spec_fn(int) -> int|
            #[trigger] models(z.m, v) && v(i) - v(k) <= dik ==> models(
                z.relax_row(k, i, dik, c).m,
                v,
            ),
    decreases c,
{
    if c > 0 {
        lemma_relax_row(z, k, i, dik, (c - 1) as nat, n);
        let w = z.relax_row(k, i, dik, (c - 1) as nat);
        lemma_relax(w, k, i, dik, c - 1, n);
        let r = z.relax_row(k, i, dik, c);
        assert(tighter(r.m, z.m)) by {
            assert forall|a: int, b: int| 0 <= a < n && 0 <= b < n implies #[trigger] r.m[a][b]
                <= z.m[a][b] by {
                assert(r.m[a][b] <= w.m[a][b]);
                assert(w.m[a][b] <= z.m[a][b]);
            }
        }
    }
}

pub proof fn lemma_relax_rows(z: Zone, k: int, c: nat, n: int)
    requires
        z.sized(n),
        0 <= k < n,
        c <= n,
    ensures
        z.relax_rows(k, c).sized(n),
        z.relax_rows(k, c).bounds == z.bounds,
        tighter(z.relax_rows(k, c).m, z.m),
        forall|v: spec_fn(int) -> int|
            #[trigger] models(z.m, v) ==> models(z.relax_rows(k, c).m, v),
    decreases c,
{
    if c > 0 {
        lemma_relax_rows(z, k, (c - 1) as nat, n);
        let w = z.relax_rows(k, (c - 1) as nat);
        let r = z.relax_rows(k, c);
        let dik = w.m[c - 1][k];
        if dik < INF {
            lemma_relax_row(w, k, c - 1, dik, n as nat, n);
            assert(tighter(r.m, z.m)) by {
                assert forall|a: int, b: int| 0 <= a < n && 0 <= b < n implies #[trigger] r.m[a][b]
                    <= z.m[a][b] by {
                    assert(r.m[a][b] <= w.m[a][b]);
                    assert(w.m[a][b] <= z.m[a][b]);
                }
            }
            assert forall|v: spec_fn(int) -> int| #[trigger] models(z.m, v) implies models(
                r.m,
                v,
            ) by {
                assert(models(w.m, v));
                assert(v(c - 1) - v(k) <= w.m[c - 1][k]);
            }
        }
    }
}

pub proof fn lemma_close_through(z: Zone, c: nat, n: int)
    requires
        z.sized(n),
        c <= n,
    ensures
        z.close_through(c).sized(n),
        z.close_through(c).bounds == z.bounds,
        tighter(z.close_through(c).m, z.m),
        forall|v: spec_fn(int) -> int|
            #[trigger] models(z.m, v) ==> models(z.close_through(c).m, v),
    decreases c,
{
    if c > 0 {
        lemma_close_through(z, (c - 1) as nat, n);
        let w = z.close_through((c - 1) as nat);
        let r = z.close_through(c);
        lemma_relax_rows(w, c - 1, n as nat, n);
        assert(tighter(r.m, z.m)) by {
            assert forall|a: int, b: int| 0 <= a < n && 0 <= b < n implies #[trigger] r.m[a][b]
                <= z.m[a][b] by {
                assert(r.m[a][b] <= w.m[a][b]);
                assert(w.m[a][b] <= z.m[a][b]);
            }
        }
    }
}

/// Closure changes no meaning: exactly the same values respect the matrix
/// before and after. It only ever tightens entries, and leaves the ranges.
pub proof fn law_close_keeps_meaning(z: Zone, n: int, v: spec_fn(int) -> int)
    requires
        z.sized(n),
    ensures
        models(z.close().m, v) <==> models(z.m, v),
        tighter(z.close().m, z.m),
        z.close().bounds == z.bounds,
        z.close().sized(n),
{
    lemma_close_through(z, n as nat, n);
    if models(z.close().m, v) {
        lemma_tighter_models(z.close().m, z.m, v);
    }
}

/// A zone that says nothing allows all values.
pub proof fn law_top_allows_everything(n: nat, v: spec_fn(int) -> int)
    ensures
        models(Zone::top(n).m, v),
        !Zone::top(n).inconsistent(),
{
}

/// A negative diagonal entry rules out all values.
pub proof fn law_inconsistent_allows_nothing(z: Zone, n: int, v: spec_fn(int) -> int)
    requires
        z.sized(n),
        z.inconsistent(),
    ensures
        !models(z.m, v),
{
    let i = choose|i: int| 0 <= i < z.m.len() && (#[trigger] z.m[i])[i] < 0;
    if models(z.m, v) {
        assert(v(i) - v(i) <= z.m[i][i]);
    }
}

/// Adding a bound keeps exactly the values that respect it, as long as the
/// bound is in the range that is stored; a stronger bound is weakened, and a
/// weaker one dropped.
pub proof fn law_add_keeps_what_respects_the_bound(
    z: Zone,
    n: int,
    i: int,
    j: int,
    c: int,
    v: spec_fn(int) -> int,
)
    requires
        z.sized(n),
        0 <= i < n,
        0 <= j < n,
    ensures
        models(z.m, v) && v(i) - v(j) <= c ==> models(z.add(i, j, c).m, v),
        models(z.add(i, j, c).m, v) ==> models(z.m, v),
        NEG_BOUND <= c <= POS_BOUND && z.m[i][j] <= INF && models(z.add(i, j, c).m, v) ==> v(i) - v(
            j,
        ) <= c,
        tighter(z.add(i, j, c).m, z.m),
        z.add(i, j, c).sized(n),
{
    let r = z.add(i, j, c);
    let k = clamp_spec(c);
    lemma_put_square(z.m, i, j, k, n);
    match z.prov {
        Some(t) => {
            lemma_put_square(t.edges, i, j, EdgeOrigin::Primitive { pc: t.pc }, n);
        },
        None => {},
    }
    assert(tighter(r.m, z.m));
    if models(r.m, v) {
        lemma_tighter_models(r.m, z.m, v);
        assert(r.m[i][j] < INF ==> v(i) - v(j) <= r.m[i][j]);
    }
    if models(z.m, v) && v(i) - v(j) <= c {
        assert forall|a: int, b: int|
            0 <= a < r.m.len() && 0 <= b < r.m.len() && #[trigger] r.m[a][b] < INF implies v(a)
            - v(b) <= r.m[a][b] by {
            if a == i && b == j {
            } else {
                assert(r.m[a][b] == z.m[a][b]);
            }
        }
    }
}

/// The values `v` with that of variable `x` replaced.
pub open spec fn with_value(v: spec_fn(int) -> int, x: int, c: int) -> spec_fn(int) -> int {
    |k: int| if k == x { c } else { v(k) }
}

/// Forgetting a variable allows it every value, whatever it was before.
pub proof fn law_forget_allows_every_value(
    z: Zone,
    n: int,
    x: int,
    c: int,
    v: spec_fn(int) -> int,
)
    requires
        z.sized(n),
        0 <= x < n,
        models(z.m, v),
    ensures
        models(z.forget(x).m, with_value(v, x, c)),
        z.forget(x).sized(n),
{
    let r = z.forget(x);
    let w = with_value(v, x, c);
    assert forall|a: int, b: int|
        0 <= a < r.m.len() && 0 <= b < r.m.len() && #[trigger] r.m[a][b] < INF implies w(a) - w(b)
        <= r.m[a][b] by {
        if a != x && b != x {
            assert(r.m[a][b] == z.m[a][b]);
        }
    }
}

/// Widening allows all that either zone allows, and only ever gives entries
/// up: each one is kept or becomes "no constraint".
pub proof fn law_widen_is_an_upper_bound(z: Zone, newer: Zone, n: int, v: spec_fn(int) -> int)
    requires
        z.sized(n),
        newer.sized(n),
    ensures
        models(z.m, v) ==> models(z.widen(newer).m, v),
        models(newer.m, v) ==> models(z.widen(newer).m, v),
        forall|i: int, j: int|
            0 <= i < n && 0 <= j < n ==> #[trigger] z.widen(newer).m[i][j] == z.m[i][j] || z.widen(
                newer,
            ).m[i][j] == INF,
{
    let r = z.widen(newer);
    if models(z.m, v) {
        assert forall|a: int, b: int|
            0 <= a < r.m.len() && 0 <= b < r.m.len() && #[trigger] r.m[a][b] < INF implies v(a)
            - v(b) <= r.m[a][b] by {
            assert(r.m[a][b] == z.m[a][b]);
        }
    }
    if models(newer.m, v) {
        assert forall|a: int, b: int|
            0 <= a < r.m.len() && 0 <= b < r.m.len() && #[trigger] r.m[a][b] < INF implies v(a)
            - v(b) <= r.m[a][b] by {
            assert(r.m[a][b] == z.m[a][b]);
            assert(newer.m[a][b] <= z.m[a][b]);
        }
    }
}

/// Widening with the same zone again changes no entry.
pub proof fn law_widen_is_stable(z: Zone, newer: Zone, n: int)
    requires
        z.sized(n),
        newer.sized(n),
        forall|i: int, j: int| 0 <= i < n && 0 <= j < n ==> #[trigger] newer.m[i][j] <= INF,
    ensures
        z.widen(newer).widen(newer).m == z.widen(newer).m,
{
    let w = z.widen(newer);
    let r = w.widen(newer);
    assert forall|a: int| 0 <= a < n implies r.m[a] == w.m[a] by {
        assert forall|b: int| 0 <= b < n implies r.m[a][b] == w.m[a][b] by {
            assert(newer.m[a][b] <= INF);
        }
        assert(r.m[a] =~= w.m[a]);
    }
    assert(r.m =~= w.m);
}

/// One for an entry that is a constraint.
pub open spec fn finite_in_row(row: Seq<i64>) -> spec_fn(int) -> nat {
    |j: int| if row[j] < INF { 1 } else { 0 }
}

/// The constraints in each row of a matrix.
pub open spec fn finite_rows(m: Seq<Seq<i64>>) -> spec_fn(int) -> nat {
    |i: int| sum_of(m.len(), finite_in_row(m[i]))
}

/// How many entries of a matrix are constraints.
pub open spec fn finite_entries(m: Seq<Seq<i64>>) -> nat {
    sum_of(m.len(), finite_rows(m))
}

/// Widening converges: a step that changes the matrix leaves fewer constraints,
/// so however many steps there are, no more of them change it than there were
/// constraints at first.
pub proof fn law_widen_converges(z: Zone, newer: Zone, n: int)
    requires
        z.sized(n),
        newer.sized(n),
        forall|i: int, j: int| 0 <= i < n && 0 <= j < n ==> #[trigger] newer.m[i][j] <= INF,
    ensures
        z.widen(newer).m == z.m || finite_entries(z.widen(newer).m) < finite_entries(z.m),
        finite_entries(z.m) <= n * n,
{
    let w = z.widen(newer);
    assert forall|a: int| 0 <= a < n implies #[trigger] finite_rows(w.m)(a) <= finite_rows(z.m)(a) by {
        lemma_sum_le(n as nat, finite_in_row(z.m[a]), finite_in_row(w.m[a]));
    }
    if w.m != z.m {
        if forall|a: int, b: int| 0 <= a < n && 0 <= b < n ==> #[trigger] w.m[a][b] == z.m[a][b] {
            assert forall|a: int| 0 <= a < n implies w.m[a] == z.m[a] by {
                assert(w.m[a] =~= z.m[a]);
            }
            assert(w.m =~= z.m);
        }
        let (a, b) = choose|a: int, b: int|
            0 <= a < n && 0 <= b < n && #[trigger] w.m[a][b] != z.m[a][b];
        assert(newer.m[a][b] <= INF);
        lemma_sum_lt(n as nat, finite_in_row(z.m[a]), finite_in_row(w.m[a]), b);
        lemma_sum_lt(n as nat, finite_rows(z.m), finite_rows(w.m), a);
    }
    assert forall|a: int| 0 <= a < n implies #[trigger] finite_rows(z.m)(a) <= n by {
        lemma_sum_bound(n as nat, finite_in_row(z.m[a]), 1);
    }
    lemma_sum_bound(n as nat, finite_rows(z.m), n as nat);
}

/// Narrowing allows exactly what both zones allow.
pub proof fn law_narrow_is_the_meet(z: Zone, other: Zone, n: int, v: spec_fn(int) -> int)
    requires
        z.sized(n),
        other.sized(n),
    ensures
        models(z.narrow(other).m, v) <==> models(z.m, v) && models(other.m, v),
{
    let r = z.narrow(other);
    if models(r.m, v) {
        assert(tighter(r.m, z.m));
        assert(tighter(r.m, other.m));
        lemma_tighter_models(r.m, z.m, v);
        lemma_tighter_models(r.m, other.m, v);
    }
    if models(z.m, v) && models(other.m, v) {
        assert forall|a: int, b: int|
            0 <= a < r.m.len() && 0 <= b < r.m.len() && #[trigger] r.m[a][b] < INF implies v(a)
            - v(b) <= r.m[a][b] by {
            assert(r.m[a][b] == z.m[a][b] || r.m[a][b] == other.m[a][b]);
        }
    }
}

// ---- closure reaches a fixed point ------------------------------------------

/// Every finite entry lies between `-b` and `b`.
pub open spec fn within(m: Seq<Seq<i64>>, b: int) -> bool {
    forall|i: int, j: int|
        0 <= i < m.len() && 0 <= j < m.len() && #[trigger] m[i][j] < INF ==> -b <= m[i][j] <= b
}

/// No entry can be tightened through one of the first `c` variables.
pub open spec fn closed_through(m: Seq<Seq<i64>>, c: int) -> bool {
    forall|i: int, p: int, j: int|
        0 <= i < m.len() && 0 <= p < c && 0 <= j < m.len() && #[trigger] m[i][p] < INF
            && #[trigger] m[p][j] < INF ==> m[i][j] <= m[i][p] + m[p][j]
}

/// Entry `(i, j)` or the path through `k`, whichever is less.
pub open spec fn shorter(m: Seq<Seq<i64>>, i: int, k: int, j: int) -> int {
    if m[i][k] < INF && m[k][j] < INF && m[i][k] + m[k][j] < m[i][j] {
        m[i][k] + m[k][j]
    } else {
        m[i][j] as int
    }
}

proof fn lemma_relax_row_exact(z: Zone, k: int, i: int, dik: i64, c: nat, n: int, b: int)
    requires
        z.sized(n),
        0 <= k < n,
        0 <= i < n,
        c <= n,
        0 <= b,
        2 * b <= POS_BOUND,
        dik == z.m[i][k],
        dik < INF,
        -b <= dik <= b,
        forall|j: int| 0 <= j < n && #[trigger] z.m[k][j] < INF ==> -b <= z.m[k][j] <= b,
        z.m[k][k] >= 0,
    ensures
        forall|p: int, q: int|
            0 <= p < n && 0 <= q < n ==> #[trigger] z.relax_row(k, i, dik, c).m[p][q] == if p == i
                && q < c {
                shorter(z.m, i, k, q)
            } else {
                z.m[p][q] as int
            },
    decreases c,
{
    if c > 0 {
        lemma_relax_row_exact(z, k, i, dik, (c - 1) as nat, n, b);
        lemma_relax_row(z, k, i, dik, (c - 1) as nat, n);
        let w = z.relax_row(k, i, dik, (c - 1) as nat);
        let j = c - 1;
        let r = z.relax_row(k, i, dik, c);
        assert(w.m[k][j] == z.m[k][j]);
        assert(w.m[i][j] == z.m[i][j]);
        let via = chain(dik, w.m[k][j]);
        lemma_put_square(w.m, i, j, via, n);
        if w.m[k][j] < INF {
            assert(via == dik + w.m[k][j]);
        }
        assert forall|p: int, q: int| 0 <= p < n && 0 <= q < n implies #[trigger] r.m[p][q] == if p
            == i && q < c {
            shorter(z.m, i, k, q)
        } else {
            z.m[p][q] as int
        } by {
            assert(w.m[p][q] == if p == i && q < c - 1 {
                shorter(z.m, i, k, q)
            } else {
                z.m[p][q] as int
            });
        }
    }
}

proof fn lemma_relax_rows_exact(z: Zone, k: int, c: nat, n: int, b: int)
    requires
        z.sized(n),
        0 <= k < n,
        c <= n,
        0 <= b,
        2 * b <= POS_BOUND,
        within(z.m, b),
        z.m[k][k] >= 0,
    ensures
        forall|p: int, q: int|
            0 <= p < n && 0 <= q < n ==> #[trigger] z.relax_rows(k, c).m[p][q] == if p < c {
                shorter(z.m, p, k, q)
            } else {
                z.m[p][q] as int
            },
    decreases c,
{
    if c > 0 {
        lemma_relax_rows_exact(z, k, (c - 1) as nat, n, b);
        lemma_relax_rows(z, k, (c - 1) as nat, n);
        let w = z.relax_rows(k, (c - 1) as nat);
        let i = c - 1;
        let r = z.relax_rows(k, c);
        let dik = w.m[i][k];
        assert(dik == z.m[i][k]);
        assert forall|j: int| 0 <= j < n implies #[trigger] w.m[k][j] == z.m[k][j] by {
            assert(shorter(z.m, k, k, j) == z.m[k][j]);
        }
        if dik < INF {
            lemma_relax_row_exact(w, k, i, dik, n as nat, n, b);
            assert forall|p: int, q: int| 0 <= p < n && 0 <= q < n implies #[trigger] r.m[p][q]
                == if p < c {
                shorter(z.m, p, k, q)
            } else {
                z.m[p][q] as int
            } by {
                assert(w.m[p][q] == if p < c - 1 {
                    shorter(z.m, p, k, q)
                } else {
                    z.m[p][q] as int
                });
                assert(w.m[k][q] == z.m[k][q]);
            }
        } else {
            assert forall|p: int, q: int| 0 <= p < n && 0 <= q < n implies #[trigger] r.m[p][q]
                == if p < c {
                shorter(z.m, p, k, q)
            } else {
                z.m[p][q] as int
            } by {
                assert(w.m[p][q] == if p < c - 1 {
                    shorter(z.m, p, k, q)
                } else {
                    z.m[p][q] as int
                });
            }
        }
    }
}

proof fn lemma_pivot_closes(z: Zone, k: int, n: int, b: int)
    requires
        z.sized(n),
        0 <= k < n,
        0 <= b,
        2 * b <= POS_BOUND,
        within(z.m, b),
        closed_through(z.m, k),
        forall|i: int| 0 <= i < n ==> (#[trigger] z.m[i])[i] >= 0,
    ensures
        within(z.relax_rows(k, n as nat).m, 2 * b),
        closed_through(z.relax_rows(k, n as nat).m, k + 1),
{
    lemma_relax_rows_exact(z, k, n as nat, n, b);
    lemma_relax_rows(z, k, n as nat, n);
    let r = z.relax_rows(k, n as nat);
    let m = z.m;
    assert forall|i: int, j: int|
        0 <= i < r.m.len() && 0 <= j < r.m.len() && #[trigger] r.m[i][j] < INF implies -(2 * b)
        <= r.m[i][j] <= 2 * b by {
        assert(r.m[i][j] == shorter(m, i, k, j));
    }
    assert forall|i: int, p: int, j: int|
        0 <= i < r.m.len() && 0 <= p < k + 1 && 0 <= j < r.m.len() && #[trigger] r.m[i][p] < INF
            && #[trigger] r.m[p][j] < INF implies r.m[i][j] <= r.m[i][p] + r.m[p][j] by {
        assert(r.m[i][p] == shorter(m, i, k, p));
        assert(r.m[p][j] == shorter(m, p, k, j));
        assert(r.m[i][j] == shorter(m, i, k, j));
        assert(m[k][k] >= 0);
        if p < k {
            // Any of the four ways the two legs may run directly or through k.
            if m[i][p] < INF && m[p][j] < INF {
                assert(m[i][j] <= m[i][p] + m[p][j]);
            }
            if m[k][p] < INF && m[p][j] < INF {
                assert(m[k][j] <= m[k][p] + m[p][j]);
            }
            if m[i][p] < INF && m[p][k] < INF {
                assert(m[i][k] <= m[i][p] + m[p][k]);
            }
            if m[k][p] < INF && m[p][k] < INF {
                assert(m[k][k] <= m[k][p] + m[p][k]);
            }
        }
    }
}

/// `2` to the power `k`.
pub open spec fn doubled(k: nat) -> int
    decreases k,
{
    if k == 0 { 1 } else { 2 * doubled((k - 1) as nat) }
}

/// Finite bounds up to this magnitude never meet a clamp during closure.
pub const MODERATE: i64 = 0x1000_0000_0000;

/// Closure through more variables only tightens.
proof fn lemma_close_goes_on(z: Zone, c: nat, e: nat, n: int)
    requires
        z.sized(n),
        c <= e <= n,
    ensures
        tighter(z.close_through(e).m, z.close_through(c).m),
    decreases e,
{
    lemma_close_through(z, c, n);
    if c < e {
        lemma_close_goes_on(z, c, (e - 1) as nat, n);
        lemma_close_through(z, (e - 1) as nat, n);
        let w = z.close_through((e - 1) as nat);
        lemma_relax_rows(w, e - 1, n as nat, n);
        let (r, m) = (z.close_through(e).m, z.close_through(c).m);
        assert forall|a: int, b: int| 0 <= a < m.len() && 0 <= b < m.len() implies #[trigger] r[a][b]
            <= m[a][b] by {
            assert(r[a][b] <= w.m[a][b]);
            assert(w.m[a][b] <= m[a][b]);
        }
    }
}

/// As long as no diagonal entry becomes negative, closure through the first `c`
/// variables leaves nothing to tighten through them.
pub proof fn lemma_close_through_closed(z: Zone, c: nat, n: int)
    requires
        z.sized(n),
        n <= DBM_DIM,
        c <= n,
        within(z.m, MODERATE as int),
        forall|i: int| 0 <= i < n ==> (#[trigger] z.close_through(c).m[i])[i] >= 0,
    ensures
        z.close_through(c).sized(n),
        within(z.close_through(c).m, MODERATE * doubled(c)),
        closed_through(z.close_through(c).m, c as int),
    decreases c,
{
    lemma_close_through(z, c, n);
    if c > 0 {
        let w = z.close_through((c - 1) as nat);
        let r = z.close_through(c);
        lemma_close_goes_on(z, (c - 1) as nat, c, n);
        lemma_close_through(z, (c - 1) as nat, n);
        assert forall|i: int| 0 <= i < n implies (#[trigger] w.m[i])[i] >= 0 by {
            assert(r.m[i][i] <= w.m[i][i]);
        }
        lemma_close_through_closed(z, (c - 1) as nat, n);
        let b = MODERATE * doubled((c - 1) as nat);
        assert(0 <= b && 2 * b <= POS_BOUND) by {
            reveal_with_fuel(doubled, 16);
        }
        lemma_pivot_closes(w, c - 1, n, b);
        assert(2 * b == MODERATE * doubled(c)) by (nonlinear_arith)
            requires
                b == MODERATE * doubled((c - 1) as nat),
                doubled(c) == 2 * doubled((c - 1) as nat),
        ;
    }
}

/// A closed matrix without a negative diagonal entry is complete, and its
/// entries stay in the stored range.
pub proof fn lemma_closed(z: Zone, n: int)
    requires
        z.sized(n),
        n <= DBM_DIM,
        within(z.m, MODERATE as int),
        !z.close().inconsistent(),
    ensures
        z.close().sized(n),
        closed_through(z.close().m, n),
        within(z.close().m, POS_BOUND as int),
{
    lemma_close_through(z, n as nat, n);
    let w = z.close();
    assert forall|i: int| 0 <= i < n implies (#[trigger] w.m[i])[i] >= 0 by {}
    lemma_close_through_closed(z, n as nat, n);
    assert(MODERATE * doubled(n as nat) <= POS_BOUND) by {
        reveal_with_fuel(doubled, 16);
    }
}

/// The least of the first `k` entries of a row, or [`INF`].
pub open spec fn least_of(row: Seq<i64>, k: nat) -> int
    decreases k,
{
    if k == 0 {
        INF as int
    } else {
        let l = least_of(row, (k - 1) as nat);
        if row[k - 1] < l { row[k - 1] as int } else { l }
    }
}

proof fn lemma_least_of(row: Seq<i64>, k: nat)
    requires
        k <= row.len(),
    ensures
        forall|y: int| 0 <= y < k ==> least_of(row, k) <= #[trigger] row[y],
        least_of(row, k) < INF ==> exists|y: int| 0 <= y < k && #[trigger] row[y] == least_of(row, k),
    decreases k,
{
    if k > 0 {
        lemma_least_of(row, (k - 1) as nat);
        let l = least_of(row, (k - 1) as nat);
        if row[k - 1] < l {
            assert(row[k - 1] == least_of(row, k));
        } else if l < INF {
            let y = choose|y: int| 0 <= y < k - 1 && #[trigger] row[y] == l;
            assert(row[y] == least_of(row, k));
        }
    }
}

/// Closure decides whether there are values that respect the matrix: exactly if
/// no diagonal entry of the closed matrix is negative. Finite entries must be
/// of moderate size, and those on the diagonal zero.
pub proof fn law_consistency_is_decided(z: Zone, n: int)
    requires
        z.sized(n),
        n <= DBM_DIM,
        within(z.m, MODERATE as int),
        forall|i: int| 0 <= i < n ==> (#[trigger] z.m[i])[i] == 0,
    ensures
        z.close().inconsistent() <==> !exists|v: spec_fn(int) -> int| models(z.m, v),
{
    let w = z.close();
    lemma_close_through(z, n as nat, n);
    if w.inconsistent() {
        assert forall|v: spec_fn(int) -> int| !models(z.m, v) by {
            law_close_keeps_meaning(z, n, v);
            law_inconsistent_allows_nothing(w, n, v);
        }
    } else {
        lemma_closed(z, n);
        let v = |i: int| least_of(w.m[i], n as nat);
        assert forall|i: int, j: int|
            0 <= i < w.m.len() && 0 <= j < w.m.len() && #[trigger] w.m[i][j] < INF implies v(i)
            - v(j) <= w.m[i][j] by {
            lemma_least_of(w.m[i], n as nat);
            lemma_least_of(w.m[j], n as nat);
            assert(w.m[j][j] <= z.m[j][j]);
            let y = choose|y: int|
                0 <= y < n && #[trigger] w.m[j][y] == least_of(w.m[j], n as nat);
            assert(w.m[i][y] <= w.m[i][j] + w.m[j][y]);
        }
        assert(models(w.m, v));
        law_close_keeps_meaning(z, n, v);
        assert(models(z.m, v));
    }
}

/// Closure is complete: if some values respect the matrix and its finite
/// entries are of moderate size, no entry of the closed matrix can be
/// tightened through any variable, and closing again changes no entry.
pub proof fn law_close_is_transitive_and_idempotent(z: Zone, n: int, v: spec_fn(int) -> int)
    requires
        z.sized(n),
        n <= DBM_DIM,
        within(z.m, MODERATE as int),
        models(z.m, v),
    ensures
        closed_through(z.close().m, n),
        z.close().close().m == z.close().m,
{
    let w = z.close();
    law_close_keeps_meaning(z, n, v);
    if w.inconsistent() {
        law_inconsistent_allows_nothing(w, n, v);
    }
    lemma_closed(z, n);
    lemma_close_keeps_closed(w, n as nat, n);
}

proof fn lemma_rows_keep_closed(z: Zone, k: int, c: nat, n: int)
    requires
        z.sized(n),
        0 <= k < n,
        c <= n,
        closed_through(z.m, n),
        within(z.m, POS_BOUND as int),
    ensures
        z.relax_rows(k, c).m == z.m,
        z.relax_rows(k, c).sized(n),
    decreases c,
{
    if c > 0 {
        lemma_rows_keep_closed(z, k, (c - 1) as nat, n);
        let w = z.relax_rows(k, (c - 1) as nat);
        if w.m[c - 1][k] < INF {
            lemma_row_keeps_closed(w, k, c - 1, w.m[c - 1][k], n as nat, n);
        }
    }
}

proof fn lemma_row_keeps_closed(z: Zone, k: int, i: int, dik: i64, c: nat, n: int)
    requires
        z.sized(n),
        0 <= k < n,
        0 <= i < n,
        c <= n,
        closed_through(z.m, n),
        within(z.m, POS_BOUND as int),
        dik == z.m[i][k],
        dik < INF,
    ensures
        z.relax_row(k, i, dik, c).m == z.m,
        z.relax_row(k, i, dik, c).sized(n),
    decreases c,
{
    if c > 0 {
        lemma_row_keeps_closed(z, k, i, dik, (c - 1) as nat, n);
        let w = z.relax_row(k, i, dik, (c - 1) as nat);
        let j = c - 1;
        if z.m[k][j] < INF {
            assert(z.m[i][j] <= z.m[i][k] + z.m[k][j]);
            assert(chain(dik, z.m[k][j]) >= z.m[i][j] || z.m[i][j] < INF);
        }
    }
}

proof fn lemma_close_keeps_closed(z: Zone, c: nat, n: int)
    requires
        z.sized(n),
        c <= n,
        closed_through(z.m, n),
        within(z.m, POS_BOUND as int),
    ensures
        z.close_through(c).m == z.m,
        z.close_through(c).sized(n),
    decreases c,
{
    if c > 0 {
        lemma_close_keeps_closed(z, (c - 1) as nat, n);
        lemma_rows_keep_closed(z.close_through((c - 1) as nat), c - 1, n as nat, n);
    }
}

// ---- soundness of the domain operations --------------------------------------

/// A 64-bit pattern, given by its signed reading, read as unsigned.
pub open spec fn as_u64(x: int) -> int {
    x % 0x1_0000_0000_0000_0000
}

/// The low half of a 64-bit pattern, read as unsigned.
pub open spec fn as_u32(x: int) -> int {
    x % 0x1_0000_0000
}

/// The low half of a 64-bit pattern, read as signed.
pub open spec fn as_s32(x: int) -> int {
    if as_u32(x) < 0x8000_0000 { as_u32(x) } else { as_u32(x) - 0x1_0000_0000 }
}

/// The value with signed reading `x` lies in all the ranges.
pub open spec fn in_ranges(b: Bounds, x: int) -> bool {
    &&& i64::MIN <= x <= i64::MAX
    &&& b.s64_min <= x <= b.s64_max
    &&& b.u64_min <= as_u64(x) <= b.u64_max
    &&& b.u32_min <= as_u32(x) <= b.u32_max
    &&& b.s32_min <= as_s32(x) <= b.s32_max
}

/// The zone describes the values `v`: they respect the matrix, the zero
/// column is zero, and each register lies in its ranges.
pub open spec fn describes(z: Zone, v: spec_fn(int) -> int) -> bool {
    &&& z.sized(DBM_DIM as int)
    &&& models(z.m, v)
    &&& v(0) == 0
    &&& forall|i: int| 1 <= i < 12 ==> in_ranges(#[trigger] z.bounds[i], v(i))
}

/// Anything goes in the widest ranges.
proof fn lemma_unknown_ranges(x: int)
    requires
        i64::MIN <= x <= i64::MAX,
    ensures
        in_ranges(Bounds::unknown(), x),
{
}

proof fn lemma_sync_ranges(b: Bounds, x: int)
    requires
        in_ranges(b, x),
    ensures
        in_ranges(sync_ranges(b), x),
{
    let b1 = sync_64(b);
    assert(in_ranges(b1, x));
    let b2 = sync_32(b1);
    assert(in_ranges(b2, x));
    let b3 = sync_down(b2);
    assert(in_ranges(b3, x));
    assert(in_ranges(sync_up(b3), x));
}

/// Carrying ranges into each other never loses a value.
pub proof fn law_sync_ranges_is_sound(b: Bounds, x: int)
    requires
        in_ranges(b, x),
    ensures
        in_ranges(sync_ranges(b), x),
{
    lemma_sync_ranges(b, x);
}

pub proof fn lemma_add_describes(z: Zone, i: int, j: int, c: int, v: spec_fn(int) -> int)
    requires
        describes(z, v),
        0 <= i < DBM_DIM,
        0 <= j < DBM_DIM,
        v(i) - v(j) <= c,
    ensures
        describes(z.add(i, j, c), v),
        z.add(i, j, c).bounds == z.bounds,
{
    law_add_keeps_what_respects_the_bound(z, DBM_DIM as int, i, j, c, v);
}

pub proof fn lemma_close_describes(z: Zone, v: spec_fn(int) -> int)
    requires
        describes(z, v),
    ensures
        describes(z.close(), v),
        z.close().bounds == z.bounds,
{
    law_close_keeps_meaning(z, DBM_DIM as int, v);
}

pub proof fn lemma_forget_describes(z: Zone, x: int, c: int, v: spec_fn(int) -> int)
    requires
        describes(z, v),
        1 <= x < 12,
        i64::MIN <= c <= i64::MAX,
    ensures
        describes(z.forget(x), with_value(v, x, c)),
{
    law_forget_allows_every_value(z, DBM_DIM as int, x, c, v);
    lemma_unknown_ranges(c);
}

/// Keeping matrix and ranges in step never loses a value.
pub proof fn law_sync_is_sound(z: Zone, x: Reg, v: spec_fn(int) -> int)
    requires
        describes(z, v),
    ensures
        describes(z.sync(x), v),
{
    if x != Reg::Zero && !x.is_anchor() {
        let i = x.idx() as int;
        assert(in_ranges(z.bounds[i], v(i)));
        assert(z.m[i][0] < INF ==> v(i) - v(0) <= z.m[i][0]);
        assert(z.m[0][i] < INF ==> v(0) - v(i) <= z.m[0][i]);
        let t = tighten_signed(z.bounds[i], z.m[i][0], z.m[0][i]);
        assert(in_ranges(t, v(i)));
        lemma_sync_ranges(t, v(i));
        let b = sync_ranges(t);
        let z1 = z.with_bounds(i, b);
        assert(describes(z1, v));
        let z2 = if b.s64_max < i64::MAX { z1.add(i, 0, b.s64_max as int) } else { z1 };
        if b.s64_max < i64::MAX {
            lemma_add_describes(z1, i, 0, b.s64_max as int, v);
        }
        if b.s64_min > i64::MIN {
            lemma_add_describes(z2, 0, i, -b.s64_min, v);
        }
    }
}

/// Assuming a true fact about a register never loses a value.
pub proof fn law_assume_imm_is_sound(z: Zone, x: Reg, c: int, v: spec_fn(int) -> int)
    requires
        describes(z, v),
        i64::MIN <= c <= i64::MAX,
    ensures
        v(x.idx() as int) <= c ==> describes(z.assume_le_imm(x, c), v),
        v(x.idx() as int) >= c ==> describes(z.assume_ge_imm(x, c), v),
        v(x.idx() as int) == c ==> describes(z.assume_eq_imm(x, c), v),
        v(x.idx() as int) < c && !x.is_anchor() ==> describes(z.assume_lt_imm(x, c), v),
{
    let i = x.idx() as int;
    if v(i) <= c {
        lemma_add_describes(z, i, 0, c, v);
        lemma_close_describes(z.add(i, 0, c), v);
        law_sync_is_sound(z.add(i, 0, c).close(), x, v);
    }
    if v(i) >= c {
        lemma_add_describes(z, 0, i, -c, v);
        lemma_close_describes(z.add(0, i, -c), v);
        law_sync_is_sound(z.add(0, i, -c).close(), x, v);
    }
    if v(i) == c {
        let z1 = z.add(i, 0, c);
        let z2 = if c > i64::MIN { z1.add(0, i, -c) } else { z1 };
        if c > i64::MIN {
            lemma_add_describes(z1, 0, i, -c, v);
        }
        lemma_close_describes(z2, v);
        law_sync_is_sound(z2.close(), x, v);
    }
    if v(i) < c && !x.is_anchor() {
        assert(v(i) >= i64::MIN) by {
            if x != Reg::Zero {
                assert(in_ranges(z.bounds[i], v(i)));
            }
        }
        lemma_add_describes(z, i, 0, c - 1, v);
        lemma_close_describes(z.add(i, 0, c - 1), v);
        law_sync_is_sound(z.add(i, 0, c - 1).close(), x, v);
    }
}

/// Assuming a true relation between two variables never loses a value.
pub proof fn law_assume_reg_is_sound(z: Zone, x: Reg, y: Reg, c: int, v: spec_fn(int) -> int)
    requires
        describes(z, v),
        v(x.idx() as int) - v(y.idx() as int) <= c,
    ensures
        describes(z.add(x.idx() as int, y.idx() as int, c).close(), v),
{
    lemma_add_describes(z, x.idx() as int, y.idx() as int, c, v);
    lemma_close_describes(z.add(x.idx() as int, y.idx() as int, c), v);
}

/// A register that a program can write: neither the zero column nor an
/// anchor.
pub open spec fn writable(x: Reg) -> bool {
    x != Reg::Zero && !x.is_anchor()
}

/// After `x = imm` the zone describes the values with `x` set to `imm`.
pub proof fn law_assign_imm_is_sound(z: Zone, x: Reg, imm: int, v: spec_fn(int) -> int)
    requires
        describes(z, v),
        writable(x),
        i64::MIN <= imm <= i64::MAX,
    ensures
        describes(z.assign_imm(x, imm), with_value(v, x.idx() as int, imm)),
{
    let i = x.idx() as int;
    let w = with_value(v, i, imm);
    lemma_forget_describes(z, i, imm, v);
    lemma_add_describes(z.forget(i), i, 0, imm, w);
    let z1 = z.forget(i).add(i, 0, imm);
    let z2 = if imm > i64::MIN { z1.add(0, i, -imm) } else { z1 };
    if imm > i64::MIN {
        lemma_add_describes(z1, 0, i, -imm, w);
    }
    let b = z2.bounds[i];
    let z3 = z2.with_bounds(i, Bounds { s64_min: imm as i64, s64_max: imm as i64, ..b });
    assert(in_ranges(b, w(i)));
    assert(describes(z3, w));
    lemma_close_describes(z3, w);
    law_sync_is_sound(z3.close(), x, w);
}

/// After `dst = src + imm` the zone describes the values with `dst` set to
/// that sum. Assignment of one register to another is the case `imm == 0`;
/// of a register to itself, it changes nothing.
pub proof fn law_assign_reg_offset_is_sound(
    z: Zone,
    dst: Reg,
    src: Reg,
    imm: int,
    v: spec_fn(int) -> int,
)
    requires
        describes(z, v),
        writable(dst),
        i64::MIN <= imm <= i64::MAX,
        i64::MIN <= v(src.idx() as int) + imm <= i64::MAX,
    ensures
        describes(
            z.assign_reg_offset(dst, src, imm),
            with_value(v, dst.idx() as int, v(src.idx() as int) + imm),
        ),
        dst != src ==> z.assign_reg(dst, src) == z.assign_reg_offset(dst, src, 0),
        dst == src ==> z.assign_reg(dst, src) == z,
{
    let (i, j) = (dst.idx() as int, src.idx() as int);
    if dst == src {
        law_add_imm_is_sound(z, dst, imm, v);
    } else {
        let w = with_value(v, i, v(j) + imm);
        lemma_forget_describes(z, i, v(j) + imm, v);
        lemma_add_describes(z.forget(i), i, j, imm, w);
        let z1 = z.forget(i).add(i, j, imm);
        let z2 = if imm > i64::MIN { z1.add(j, i, -imm) } else { z1 };
        if imm > i64::MIN {
            lemma_add_describes(z1, j, i, -imm, w);
        }
        lemma_close_describes(z2, w);
    }
}

/// After `x += c` the zone describes the values with `x` grown by `c`, unless
/// the sum overflows.
pub proof fn law_add_imm_is_sound(z: Zone, x: Reg, c: int, v: spec_fn(int) -> int)
    requires
        describes(z, v),
        writable(x),
        i64::MIN <= v(x.idx() as int) + c <= i64::MAX,
    ensures
        describes(z.add_imm(x, c), with_value(v, x.idx() as int, v(x.idx() as int) + c)),
{
    let i = x.idx() as int;
    let w = with_value(v, i, v(i) + c);
    let z1 = Zone { m: z.shift(i, c), ..z };
    assert forall|a: int, b: int|
        0 <= a < z1.m.len() && 0 <= b < z1.m.len() && #[trigger] z1.m[a][b] < INF implies w(a) - w(
        b,
    ) <= z1.m[a][b] by {
        assert(z.m[a][b] < INF ==> v(a) - v(b) <= z.m[a][b]);
    }
    let z2 = z1.with_bounds(i, Zone::moved_bounds(z.bounds[i], c, c));
    assert(in_ranges(z.bounds[i], v(i)));
    assert(in_ranges(z2.bounds[i], w(i)));
    assert(z2.sized(DBM_DIM as int));
    assert(describes(z2, w));
    lemma_close_describes(z2, w);
}

/// After `dst += src` the zone describes the values with `dst` set to the sum,
/// unless it overflows.
pub proof fn law_add_reg_is_sound(z: Zone, dst: Reg, src: Reg, v: spec_fn(int) -> int)
    requires
        describes(z, v),
        writable(dst),
        i64::MIN <= v(dst.idx() as int) + v(src.idx() as int) <= i64::MAX,
    ensures
        describes(
            z.add_reg(dst, src),
            with_value(v, dst.idx() as int, v(dst.idx() as int) + v(src.idx() as int)),
        ),
{
    let (i, s) = (dst.idx() as int, src.idx() as int);
    let w = with_value(v, i, v(i) + v(s));
    let (lo, hi) = z.distance(s, 0);
    assert(z.m[s][0] < INF ==> v(s) - v(0) <= z.m[s][0]);
    assert(z.m[0][s] < INF ==> v(0) - v(s) <= z.m[0][s]);
    assert(z.m[i][0] < INF ==> v(i) - v(0) <= z.m[i][0]);
    assert(z.m[0][i] < INF ==> v(0) - v(i) <= z.m[0][i]);
    if lo != i64::MIN && hi != i64::MAX {
        assert(lo <= v(s) <= hi);
        let z1 = Zone { m: z.shift_up(i, lo as int, hi), ..z };
        assert forall|a: int, b: int|
            0 <= a < z1.m.len() && 0 <= b < z1.m.len() && #[trigger] z1.m[a][b] < INF implies w(a)
            - w(b) <= z1.m[a][b] by {
            assert(z.m[a][b] < INF ==> v(a) - v(b) <= z.m[a][b]);
        }
        let z2 = z1.with_bounds(i, Zone::moved_bounds(z.bounds[i], lo as int, hi as int));
        assert(in_ranges(z.bounds[i], v(i)));
        assert(in_ranges(z2.bounds[i], w(i)));
        assert(z2.sized(DBM_DIM as int));
        let z3 = z2.stamp(i);
        assert(z3.sized(DBM_DIM as int));
        assert(describes(z3, w));
        lemma_close_describes(z3, w);
    } else {
        let (dlo, dhi) = z.distance(i, 0);
        lemma_forget_describes(z, i, v(i) + v(s), v);
        let z1 = z.forget(i);
        let z2 = if dlo != i64::MIN && lo != i64::MIN {
            z1.assume_ge_imm(dst, clip64(dlo + lo) as int)
        } else {
            z1
        };
        if dlo != i64::MIN && lo != i64::MIN {
            law_assume_imm_is_sound(z1, dst, clip64(dlo + lo) as int, w);
        }
        let z3 = if dhi != i64::MAX && hi != i64::MAX {
            z2.assume_le_imm(dst, clip64(dhi + hi) as int)
        } else {
            z2
        };
        if dhi != i64::MAX && hi != i64::MAX {
            law_assume_imm_is_sound(z2, dst, clip64(dhi + hi) as int, w);
        }
        lemma_close_describes(z3, w);
    }
}

/// After `dst -= src` the zone describes the values with `dst` set to the
/// difference, unless it overflows.
pub proof fn law_sub_reg_is_sound(z: Zone, dst: Reg, src: Reg, v: spec_fn(int) -> int)
    requires
        describes(z, v),
        writable(dst),
        i64::MIN <= v(dst.idx() as int) - v(src.idx() as int) <= i64::MAX,
    ensures
        describes(
            z.sub_reg(dst, src),
            with_value(v, dst.idx() as int, v(dst.idx() as int) - v(src.idx() as int)),
        ),
{
    let (i, s) = (dst.idx() as int, src.idx() as int);
    let w = with_value(v, i, v(i) - v(s));
    let (lo, hi) = z.distance(s, 0);
    assert(z.m[s][0] < INF ==> v(s) - v(0) <= z.m[s][0]);
    assert(z.m[0][s] < INF ==> v(0) - v(s) <= z.m[0][s]);
    assert(z.m[i][0] < INF ==> v(i) - v(0) <= z.m[i][0]);
    assert(z.m[0][i] < INF ==> v(0) - v(i) <= z.m[0][i]);
    if lo != i64::MIN && hi != i64::MAX {
        assert(lo <= v(s) <= hi);
        let z1 = Zone { m: z.shift_down(i, lo as int, hi), ..z };
        assert forall|a: int, b: int|
            0 <= a < z1.m.len() && 0 <= b < z1.m.len() && #[trigger] z1.m[a][b] < INF implies w(a)
            - w(b) <= z1.m[a][b] by {
            assert(z.m[a][b] < INF ==> v(a) - v(b) <= z.m[a][b]);
        }
        let z2 = z1.with_bounds(i, Zone::moved_bounds(z.bounds[i], -hi, -lo));
        assert(in_ranges(z.bounds[i], v(i)));
        assert(in_ranges(z2.bounds[i], w(i)));
        assert(z2.sized(DBM_DIM as int));
        assert(describes(z2, w));
        lemma_close_describes(z2, w);
    } else {
        let (dlo, dhi) = z.distance(i, 0);
        lemma_forget_describes(z, i, v(i) - v(s), v);
        let z1 = z.forget(i);
        let z2 = if dlo != i64::MIN && hi != i64::MAX {
            z1.assume_ge_imm(dst, clip64(dlo - hi) as int)
        } else {
            z1
        };
        if dlo != i64::MIN && hi != i64::MAX {
            law_assume_imm_is_sound(z1, dst, clip64(dlo - hi) as int, w);
        }
        let z3 = if dhi != i64::MAX && lo != i64::MIN {
            z2.assume_le_imm(dst, clip64(dhi - lo) as int)
        } else {
            z2
        };
        if dhi != i64::MAX && lo != i64::MIN {
            law_assume_imm_is_sound(z2, dst, clip64(dhi - lo) as int, w);
        }
        lemma_close_describes(z3, w);
    }
}

/// After `dst &= mask` with a non-negative mask the zone describes the values
/// with `dst` set to the bits that both have.
pub proof fn law_and_imm_is_sound(z: Zone, dst: Reg, mask: i64, v: spec_fn(int) -> int)
    requires
        describes(z, v),
        writable(dst),
        mask >= 0,
    ensures
        describes(
            z.and_imm(dst, mask as int),
            with_value(v, dst.idx() as int, ((v(dst.idx() as int) as i64) & mask) as int),
        ),
{
    let i = dst.idx() as int;
    let x = v(i) as i64;
    let c = (x & mask) as int;
    let w = with_value(v, i, c);
    assert(mask >= 0 ==> 0 <= (x & mask) && (x & mask) <= mask) by (bit_vector);
    lemma_forget_describes(z, i, c, v);
    lemma_add_describes(z.forget(i), i, 0, mask as int, w);
    lemma_add_describes(z.forget(i).add(i, 0, mask as int), 0, i, 0, w);
    lemma_close_describes(z.forget(i).add(i, 0, mask as int).add(0, i, 0), w);
}

/// After `dst *= imm` the zone describes the values with `dst` set to the
/// product, unless it overflows.
pub proof fn law_mul_imm_is_sound(z: Zone, dst: Reg, imm: int, v: spec_fn(int) -> int)
    requires
        describes(z, v),
        writable(dst),
        i64::MIN <= imm <= i64::MAX,
        i64::MIN <= v(dst.idx() as int) * imm <= i64::MAX,
    ensures
        describes(
            z.mul_imm(dst, imm),
            with_value(v, dst.idx() as int, v(dst.idx() as int) * imm),
        ),
{
    let i = dst.idx() as int;
    let c = v(i) * imm;
    let w = with_value(v, i, c);
    assert(in_ranges(z.bounds[i], v(i)));
    assert(z.m[i][0] < INF ==> v(i) - v(0) <= z.m[i][0]);
    assert(z.m[0][i] < INF ==> v(0) - v(i) <= z.m[0][i]);
    if imm == 0 {
        law_assign_imm_is_sound(z, dst, 0, v);
    } else if imm == 1 {
        assert(describes(z, w)) by {
            assert forall|a: int, b: int|
                0 <= a < z.m.len() && 0 <= b < z.m.len() && #[trigger] z.m[a][b] < INF implies w(a)
                - w(b) <= z.m[a][b] by {}
            assert forall|k: int| 1 <= k < 12 implies in_ranges(#[trigger] z.bounds[k], w(k)) by {}
        }
    } else if imm < 0 {
        lemma_forget_describes(z, i, c, v);
        lemma_close_describes(z.forget(i), w);
    } else {
        lemma_forget_describes(z, i, c, v);
        let (lo, hi) = z.distance(i, 0);
        let z1 = z.forget(i);
        let z2 = if lo != i64::MIN { z1.assume_ge_imm(dst, clip64(lo * imm) as int) } else { z1 };
        if lo != i64::MIN {
            assert(lo * imm <= v(i) * imm) by (nonlinear_arith)
                requires
                    lo <= v(i),
                    imm > 0,
            ;
            law_assume_imm_is_sound(z1, dst, clip64(lo * imm) as int, w);
        }
        let z3 = if hi != i64::MAX { z2.assume_le_imm(dst, clip64(hi * imm) as int) } else { z2 };
        if hi != i64::MAX {
            assert(v(i) * imm <= hi * imm) by (nonlinear_arith)
                requires
                    v(i) <= hi,
                    imm > 0,
            ;
            law_assume_imm_is_sound(z2, dst, clip64(hi * imm) as int, w);
        }
        lemma_close_describes(z3, w);
    }
}

/// After `reg /= imm` the zone describes the values with a non-negative `reg`
/// divided.
pub proof fn law_div_imm_is_sound(z: Zone, reg: Reg, imm: int, v: spec_fn(int) -> int)
    requires
        describes(z, v),
        writable(reg),
        i64::MIN <= imm <= i64::MAX,
        imm != 0,
        v(reg.idx() as int) >= 0,
    ensures
        describes(
            z.div_imm(reg, imm),
            with_value(v, reg.idx() as int, truncated_div(v(reg.idx() as int), imm)),
        ),
{
    let i = reg.idx() as int;
    let d = if imm > 0 { imm } else { -imm };
    let q = v(i) / d;
    let c = truncated_div(v(i), imm);
    let w = with_value(v, i, c);
    assert(in_ranges(z.bounds[i], v(i)));
    assert(z.m[i][0] < INF ==> v(i) - v(0) <= z.m[i][0]);
    assert(z.m[0][i] < INF ==> v(0) - v(i) <= z.m[0][i]);
    assert(0 <= q <= v(i)) by (nonlinear_arith)
        requires
            q == v(i) / d,
            v(i) >= 0,
            d > 0,
    ;
    lemma_forget_describes(z, i, c, v);
    lemma_close_describes(z.forget(i), w);
    let (lo, hi) = z.distance(i, 0);
    let z1 = z.forget(i).close();
    if lo >= 0 && hi != i64::MAX && hi >= 0 {
        assert(lo as int / d <= q && q <= hi as int / d && 0 <= lo as int / d && hi as int / d
            <= hi) by (nonlinear_arith)
            requires
                q == v(i) / d,
                0 <= lo <= v(i) <= hi,
                d > 0,
        ;
        let (a, b) = (truncated_div(lo as int, imm), truncated_div(hi as int, imm));
        let (low, high) = if imm > 0 { (a, b) } else { (b, a) };
        law_assume_imm_is_sound(z1, reg, low, w);
        law_assume_imm_is_sound(z1.assume_ge_imm(reg, low), reg, high, w);
    }
}

/// After `reg = -reg` the zone describes the values with `reg` negated, unless
/// that overflows.
pub proof fn law_neg_is_sound(z: Zone, reg: Reg, v: spec_fn(int) -> int)
    requires
        describes(z, v),
        writable(reg),
        v(reg.idx() as int) != i64::MIN,
    ensures
        describes(z.neg(reg), with_value(v, reg.idx() as int, -v(reg.idx() as int))),
{
    let i = reg.idx() as int;
    let c = -v(i);
    let w = with_value(v, i, c);
    assert(in_ranges(z.bounds[i], v(i)));
    assert(z.m[i][0] < INF ==> v(i) - v(0) <= z.m[i][0]);
    assert(z.m[0][i] < INF ==> v(0) - v(i) <= z.m[0][i]);
    lemma_forget_describes(z, i, c, v);
    lemma_close_describes(z.forget(i), w);
    let (lo, hi) = z.distance(i, 0);
    let z1 = z.forget(i).close();
    if lo != i64::MIN && hi != i64::MAX {
        assert(hi != i64::MIN);
        law_assume_imm_is_sound(z1, reg, wrapped_neg(hi) as int, w);
        law_assume_imm_is_sound(
            z1.assume_ge_imm(reg, wrapped_neg(hi) as int),
            reg,
            wrapped_neg(lo) as int,
            w,
        );
    }
}

/// The range a zone reports for a difference holds of all values it
/// describes.
pub proof fn law_distance_is_sound(z: Zone, x: Reg, y: Reg, v: spec_fn(int) -> int)
    requires
        describes(z, v),
    ensures
        ({
            let d = v(x.idx() as int) - v(y.idx() as int);
            let (lo, hi) = z.distance(x.idx() as int, y.idx() as int);
            &&& lo != i64::MIN ==> lo <= d
            &&& hi != i64::MAX ==> d <= hi
            &&& z.fixed(x.idx() as int, y.idx() as int) matches Some(c) ==> d == c
        }),
{
    let (i, j) = (x.idx() as int, y.idx() as int);
    assert(z.m[i][j] < INF ==> v(i) - v(j) <= z.m[i][j]);
    assert(z.m[j][i] < INF ==> v(j) - v(i) <= z.m[j][i]);
}

/// A region check that succeeds is right about all values the zone describes:
/// the access starts at or after the first anchor and ends at or before the
/// second.
pub proof fn law_region_check_is_sound(
    z: Zone,
    base: Reg,
    off: int,
    size: int,
    start: Reg,
    end: Reg,
    v: spec_fn(int) -> int,
)
    requires
        describes(z, v),
    ensures
        ({
            let first = z.m[start.idx() as int][base.idx() as int];
            first < INF && first <= off
        }) ==> v(start.idx() as int) <= v(base.idx() as int) + off,
        ({
            let last = z.m[base.idx() as int][end.idx() as int];
            last < INF && last + off + size <= 0
        }) ==> v(base.idx() as int) + off + size <= v(end.idx() as int),
{
    let (b, s, e) = (base.idx() as int, start.idx() as int, end.idx() as int);
    assert(z.m[s][b] < INF ==> v(s) - v(b) <= z.m[s][b]);
    assert(z.m[b][e] < INF ==> v(b) - v(e) <= z.m[b][e]);
}

} // verus!
