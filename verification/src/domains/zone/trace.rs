//! Whether the derivation of a bound ends.
use crate::domains::zone::dbm::{Dbm, EdgeOrigin, INF};
use crate::domains::zone::render::grounded;
use crate::machine::reg::{Reg, DBM_DIM};
use crate::sums::{lemma_sum_le, lemma_sum_lt, sum_of};
use vstd::prelude::*;

verus! {

/// A derivation that ends within a depth ends within any greater one.
pub proof fn lemma_grounded_deeper(edges: Seq<Seq<EdgeOrigin>>, i: int, j: int, d: nat, e: nat)
    requires
        grounded(edges, i, j, d),
        d <= e,
    ensures
        grounded(edges, i, j, e),
    decreases d,
{
    if let EdgeOrigin::Derived { via } = edges[i][j] {
        lemma_grounded_deeper(edges, i, via as int, (d - 1) as nat, (e - 1) as nat);
        lemma_grounded_deeper(edges, via as int, j, (d - 1) as nat, (e - 1) as nat);
    }
}

/// The entries whose derivation ends within depth `d`.
spec fn known_at(edges: Seq<Seq<EdgeOrigin>>, d: nat, t: Seq<Vec<bool>>) -> bool {
    &&& t.len() == DBM_DIM
    &&& forall|i: int| 0 <= i < DBM_DIM ==> (#[trigger] t[i])@.len() == DBM_DIM
    &&& forall|i: int, j: int|
        0 <= i < DBM_DIM && 0 <= j < DBM_DIM ==> #[trigger] t[i]@[j] == grounded(edges, i, j, d)
}

/// Entries of a row that are not known.
spec fn unknown_in_row(edges: Seq<Seq<EdgeOrigin>>, d: nat, i: int) -> spec_fn(int) -> nat {
    |j: int|
        if grounded(edges, i, j, d) {
            0nat
        } else {
            1
        }
}

spec fn unknown_rows(edges: Seq<Seq<EdgeOrigin>>, d: nat) -> spec_fn(int) -> nat {
    |i: int| sum_of(DBM_DIM as nat, unknown_in_row(edges, d, i))
}

/// How many entries are not known at a depth.
spec fn unknown(edges: Seq<Seq<EdgeOrigin>>, d: nat) -> nat {
    sum_of(DBM_DIM as nat, unknown_rows(edges, d))
}

proof fn lemma_fewer_unknown(edges: Seq<Seq<EdgeOrigin>>, d: nat, p: int, q: int)
    requires
        0 <= p < DBM_DIM,
        0 <= q < DBM_DIM,
        !grounded(edges, p, q, d),
        grounded(edges, p, q, d + 1),
    ensures
        unknown(edges, d + 1) < unknown(edges, d),
{
    let f = unknown_rows(edges, d);
    let g = unknown_rows(edges, d + 1);
    assert forall|i: int| 0 <= i < DBM_DIM implies #[trigger] g(i) <= f(i) by {
        let a = unknown_in_row(edges, d, i);
        let b = unknown_in_row(edges, d + 1, i);
        assert forall|j: int| 0 <= j < DBM_DIM implies #[trigger] b(j) <= a(j) by {
            if grounded(edges, i, j, d) {
                lemma_grounded_deeper(edges, i, j, d, d + 1);
            }
        }
        lemma_sum_le(DBM_DIM as nat, a, b);
        if i == p {
            lemma_sum_lt(DBM_DIM as nat, a, b, q);
        }
    }
    let a = unknown_in_row(edges, d, p);
    let b = unknown_in_row(edges, d + 1, p);
    assert forall|j: int| 0 <= j < DBM_DIM implies #[trigger] b(j) <= a(j) by {
        if grounded(edges, p, j, d) {
            lemma_grounded_deeper(edges, p, j, d, d + 1);
        }
    }
    lemma_sum_lt(DBM_DIM as nat, a, b, q);
    lemma_sum_lt(DBM_DIM as nat, f, g, p);
}

/// Where nothing more becomes known at the next depth, nothing more ever does.
proof fn lemma_settled(edges: Seq<Seq<EdgeOrigin>>, d: nat, e: nat, i: int, j: int)
    requires
        edges.len() == DBM_DIM,
        forall|p: int, q: int|
            0 <= p < DBM_DIM && 0 <= q < DBM_DIM && #[trigger] grounded(edges, p, q, d + 1)
                ==> grounded(edges, p, q, d),
        0 <= i < DBM_DIM,
        0 <= j < DBM_DIM,
        grounded(edges, i, j, e),
    ensures
        grounded(edges, i, j, d),
    decreases e,
{
    if let EdgeOrigin::Derived { via } = edges[i][j] {
        lemma_settled(edges, d, (e - 1) as nat, i, via as int);
        lemma_settled(edges, d, (e - 1) as nat, via as int, j);
        assert(grounded(edges, i, j, d + 1));
    }
}

impl Dbm {
    /// The entries whose derivation ends at once.
    fn begin_known(&self) -> (r: Vec<Vec<bool>>)
        requires
            self.full(),
            self@.prov is Some,
        ensures
            known_at(self@.prov->0.edges, 0, r@),
    {
        let ghost edges = self@.prov->0.edges;
        let mut t: Vec<Vec<bool>> = Vec::new();
        let mut i: usize = 0;
        while i < DBM_DIM
            invariant
                i <= DBM_DIM,
                self.full(),
                self@.prov is Some,
                edges == self@.prov->0.edges,
                t@.len() == i,
                forall|p: int| 0 <= p < i ==> (#[trigger] t@[p])@.len() == DBM_DIM,
                forall|p: int, q: int|
                    0 <= p < i && 0 <= q < DBM_DIM ==> #[trigger] t@[p]@[q] == grounded(
                        edges,
                        p,
                        q,
                        0,
                    ),
            decreases DBM_DIM - i,
        {
            let mut row: Vec<bool> = Vec::new();
            let mut j: usize = 0;
            while j < DBM_DIM
                invariant
                    i < DBM_DIM,
                    j <= DBM_DIM,
                    self.full(),
                    self@.prov is Some,
                    edges == self@.prov->0.edges,
                    row@.len() == j,
                    forall|q: int|
                        0 <= q < j ==> #[trigger] row@[q] == grounded(edges, i as int, q, 0),
                decreases DBM_DIM - j,
            {
                row.push(!matches!(self.origin_of(i, j), EdgeOrigin::Derived { .. }));
                j = j + 1;
            }
            t.push(row);
            i = i + 1;
        }
        t
    }

    fn origin_of(&self, i: usize, j: usize) -> (r: EdgeOrigin)
        requires
            self.full(),
            self@.prov is Some,
            i < DBM_DIM,
            j < DBM_DIM,
        ensures
            r == self@.prov->0.edges[i as int][j as int],
    {
        match &self.provenance {
            Some(p) => p.get(i, j),
            None => EdgeOrigin::Init,
        }
    }

    /// The entries whose derivation ends one step deeper, and whether there are
    /// more of them.
    fn deepen_known(&self, t: &Vec<Vec<bool>>, Ghost(d): Ghost<nat>) -> (r: (Vec<Vec<bool>>, bool))
        requires
            self.full(),
            self@.prov is Some,
            known_at(self@.prov->0.edges, d, t@),
        ensures
            known_at(self@.prov->0.edges, d + 1, r.0@),
            r.1 ==> unknown(self@.prov->0.edges, d + 1) < unknown(self@.prov->0.edges, d),
            !r.1 ==> forall|p: int, q: int|
                0 <= p < DBM_DIM && 0 <= q < DBM_DIM && #[trigger] grounded(
                    self@.prov->0.edges,
                    p,
                    q,
                    d + 1,
                ) ==> grounded(self@.prov->0.edges, p, q, d),
    {
        let ghost edges = self@.prov->0.edges;
        let mut u: Vec<Vec<bool>> = Vec::new();
        let mut more: bool = false;
        let mut i: usize = 0;
        while i < DBM_DIM
            invariant
                i <= DBM_DIM,
                self.full(),
                self@.prov is Some,
                edges == self@.prov->0.edges,
                known_at(edges, d, t@),
                u@.len() == i,
                forall|p: int| 0 <= p < i ==> (#[trigger] u@[p])@.len() == DBM_DIM,
                forall|p: int, q: int|
                    0 <= p < i && 0 <= q < DBM_DIM ==> #[trigger] u@[p]@[q] == grounded(
                        edges,
                        p,
                        q,
                        d + 1,
                    ),
                more ==> unknown(edges, d + 1) < unknown(edges, d),
                !more ==> forall|p: int, q: int|
                    0 <= p < i && 0 <= q < DBM_DIM && #[trigger] grounded(edges, p, q, d + 1)
                        ==> grounded(edges, p, q, d),
            decreases DBM_DIM - i,
        {
            let mut row: Vec<bool> = Vec::new();
            let mut j: usize = 0;
            while j < DBM_DIM
                invariant
                    i < DBM_DIM,
                    j <= DBM_DIM,
                    self.full(),
                    self@.prov is Some,
                    edges == self@.prov->0.edges,
                    known_at(edges, d, t@),
                    row@.len() == j,
                    forall|q: int|
                        0 <= q < j ==> #[trigger] row@[q] == grounded(edges, i as int, q, d + 1),
                    more ==> unknown(edges, d + 1) < unknown(edges, d),
                    !more ==> forall|p: int, q: int|
                        0 <= p < i && 0 <= q < DBM_DIM && #[trigger] grounded(edges, p, q, d + 1)
                            ==> grounded(edges, p, q, d),
                    !more ==> forall|q: int|
                        0 <= q < j && #[trigger] grounded(edges, i as int, q, d + 1) ==> grounded(
                            edges,
                            i as int,
                            q,
                            d,
                        ),
                decreases DBM_DIM - j,
            {
                let ends: bool = match self.origin_of(i, j) {
                    EdgeOrigin::Derived { via } => {
                        via < DBM_DIM && t[i][via] && t[via][j]
                    },
                    _ => true,
                };
                assert(ends == grounded(edges, i as int, j as int, d + 1));
                assert(t@[i as int]@[j as int] == grounded(edges, i as int, j as int, d));
                if ends && !t[i][j] {
                    proof {
                        lemma_fewer_unknown(edges, d, i as int, j as int);
                    }
                    more = true;
                }
                row.push(ends);
                j = j + 1;
            }
            u.push(row);
            i = i + 1;
        }
        (u, more)
    }

    /// Whether the stated constraints that the bound on `i - j` follows from can
    /// be given.
    pub fn derivation_ends(&self, i: Reg, j: Reg) -> (r: bool)
        requires
            self.full(),
        ensures
            r == self@.traceable(i.idx() as int, j.idx() as int),
    {
        if self.provenance.is_none() || self.get(i, j) >= INF {
            return true;
        }
        let ghost edges = self@.prov->0.edges;
        let ghost mut d: nat = 0;
        let mut t: Vec<Vec<bool>> = self.begin_known();
        let mut more: bool = true;
        while more
            invariant
                self.full(),
                self@.prov is Some,
                edges == self@.prov->0.edges,
                known_at(edges, d, t@),
                !more ==> forall|p: int, q: int|
                    0 <= p < DBM_DIM && 0 <= q < DBM_DIM && #[trigger] grounded(
                        edges,
                        p,
                        q,
                        d + 1,
                    ) ==> grounded(edges, p, q, d),
            decreases unknown(edges, d), (if more { 1int } else { 0 }),
        {
            let (u, again) = self.deepen_known(&t, Ghost(d));
            if again {
                t = u;
                proof {
                    d = d + 1;
                }
            }
            more = again;
        }
        let r: bool = t[i.idx()][j.idx()];
        proof {
            let a = i.idx() as int;
            let b = j.idx() as int;
            assert(r == grounded(edges, a, b, d));
            if !r && self@.traceable(a, b) {
                let e = choose|e: nat| #[trigger] grounded(edges, a, b, e);
                lemma_settled(edges, d, e, a, b);
            }
        }
        r
    }
}

} // verus!
