//! What a zone remembers of the calls that built it: the constraints that an
//! entry is explained by were stated by calls, and together make up the entry.
use crate::domains::zone::dbm::{
    chain, clamp_spec, lemma_put_square, table, EdgeOrigin, PrimitiveEdge, Trace, Zone, INF,
    POS_BOUND,
};
use crate::domains::zone::laws::{
    closed_through, lemma_close_through, lemma_closed, lemma_relax, lemma_relax_rows, tighter,
    within, MODERATE,
};
use crate::domains::zone::render::{
    edge_at, grounded, law_path_does_not_depend_on_depth, path_edges,
};
use crate::domains::zone::trace::lemma_grounded_deeper;
use crate::machine::reg::{law_index_round_trip, Reg, DBM_DIM};
use vstd::prelude::*;

verus! {

/// A call that shapes a zone.
pub enum ZoneCall {
    /// Later constraints belong to this instruction.
    Pc { pc: usize },
    /// `to - from <= bound` is stated.
    State { to: Reg, from: Reg, bound: i64 },
    /// The zone is closed.
    Close,
}

/// The zone after a call.
pub open spec fn applied(z: Zone, call: ZoneCall) -> Zone {
    match call {
        ZoneCall::Pc { pc } => Zone {
            prov: match z.prov {
                Some(t) => Some(Trace { pc, ..t }),
                None => None,
            },
            ..z
        },
        ZoneCall::State { to, from, bound } => z.add(
            to.idx() as int,
            from.idx() as int,
            bound as int,
        ),
        ZoneCall::Close => z.close(),
    }
}

/// The zone that says nothing and tracks where entries come from.
pub open spec fn blank() -> Zone {
    Zone {
        prov: Some(
            Trace {
                edges: table(DBM_DIM as nat, |i: int, j: int| EdgeOrigin::Init),
                pc: 0,
            },
        ),
        ..Zone::top(DBM_DIM as nat)
    }
}

/// The zone that some calls build from nothing.
pub open spec fn built(calls: Seq<ZoneCall>) -> Zone
    decreases calls.len(),
{
    if calls.len() == 0 {
        blank()
    } else {
        applied(built(calls.drop_last()), calls.last())
    }
}

/// The instruction that constraints belong to when call `q` is made.
pub open spec fn pc_at(calls: Seq<ZoneCall>, q: int) -> usize {
    built(calls.take(q)).prov->0.pc
}

/// A call stated `to - from <= bound` for instruction `pc`.
pub open spec fn stated(calls: Seq<ZoneCall>, to: Reg, from: Reg, bound: i64, pc: usize) -> bool {
    exists|q: int|
        0 <= q < calls.len() && #[trigger] calls[q] == (ZoneCall::State { to, from, bound })
            && pc_at(calls, q) == pc
}

/// How large the stated bounds may be.
pub const LIMIT: i64 = 1_000_000;

/// All stated bounds are within [`LIMIT`].
pub open spec fn limited(calls: Seq<ZoneCall>) -> bool {
    forall|q: int|
        0 <= q < calls.len() ==> (#[trigger] calls[q] matches ZoneCall::State { bound, .. }
            ==> -LIMIT <= bound <= LIMIT)
}

/// Constraint `k` ends where the next one starts.
pub open spec fn meets(path: Seq<PrimitiveEdge>, k: int) -> bool {
    path[k].from == path[k + 1].to
}

/// The constraints lead from `i` to `j` without a gap.
pub open spec fn connects(path: Seq<PrimitiveEdge>, i: Reg, j: Reg) -> bool {
    &&& path.len() > 0
    &&& path[0].to == i
    &&& path.last().from == j
    &&& forall|k: int| 0 <= k < path.len() - 1 ==> #[trigger] meets(path, k)
}

/// The sum of the bounds of constraints.
pub open spec fn total(path: Seq<PrimitiveEdge>) -> int
    decreases path.len(),
{
    if path.len() == 0 {
        0
    } else {
        total(path.drop_last()) + path.last().weight
    }
}

/// The constraints lead from `i` to `j`, add up to `w`, and each was stated by
/// a call for the instruction it names.
pub open spec fn explains(
    calls: Seq<ZoneCall>,
    path: Seq<PrimitiveEdge>,
    i: Reg,
    j: Reg,
    w: int,
) -> bool {
    &&& connects(path, i, j)
    &&& total(path) == w
    &&& forall|k: int|
        0 <= k < path.len() ==> {
            let e = #[trigger] path[k];
            stated(calls, e.to, e.from, e.weight, e.pc)
        }
}

/// The register of an index.
#[verifier::opaque]
spec fn reg_at(i: int) -> Reg {
    Reg::idx_to_reg(i as usize)->0
}

/// What is known of the origin of entry `(i, j)`, where `t` tells when each entry
/// was last written. A derived entry is at least
/// the sum of the two it was derived from; while it is that sum, they are older.
spec fn entry_traced(
    m: Seq<Seq<i64>>,
    edges: Seq<Seq<EdgeOrigin>>,
    calls: Seq<ZoneCall>,
    t: spec_fn(int, int) -> nat,
    clock: nat,
    i: int,
    j: int,
) -> bool {
    &&& m[i][j] <= INF
    &&& t(i, j) <= clock
    &&& i == j ==> m[i][j] <= 0 && (!(edges[i][j] is Init) ==> m[i][j] < 0)
    &&& match edges[i][j] {
        EdgeOrigin::Init => m[i][j] == if i == j { 0i64 } else { INF },
        EdgeOrigin::Primitive { pc } => stated(calls, reg_at(i), reg_at(j), m[i][j], pc),
        EdgeOrigin::Derived { via } => {
            &&& via < m.len()
            &&& m[i][via as int] < INF
            &&& m[via as int][j] < INF
            &&& m[i][via as int] + m[via as int][j] <= m[i][j]
            &&& m[i][via as int] + m[via as int][j] == m[i][j] ==> t(i, via as int) < t(i, j) && t(
                via as int,
                j,
            ) < t(i, j)
        },
    }
}

/// All entries have a known origin.
spec fn traced(z: Zone, calls: Seq<ZoneCall>, t: spec_fn(int, int) -> nat, clock: nat) -> bool {
    &&& z.prov is Some
    &&& z.sized(DBM_DIM as int)
    &&& forall|i: int, j: int|
        0 <= i < DBM_DIM && 0 <= j < DBM_DIM ==> #[trigger] entry_traced(
            z.m,
            z.prov->0.edges,
            calls,
            t,
            clock,
            i,
            j,
        )
}

/// The times after entry `(i, j)` was written.
spec fn touched(t: spec_fn(int, int) -> nat, clock: nat, i: int, j: int) -> spec_fn(int, int) -> nat {
    |a: int, b: int| if a == i && b == j { (clock + 1) as nat } else { t(a, b) }
}

proof fn lemma_written(
    z: Zone,
    calls: Seq<ZoneCall>,
    t: spec_fn(int, int) -> nat,
    clock: nat,
    i: int,
    j: int,
    v: i64,
    o: EdgeOrigin,
)
    requires
        traced(z, calls, t, clock),
        0 <= i < DBM_DIM,
        0 <= j < DBM_DIM,
        v < z.m[i][j],
        match o {
            EdgeOrigin::Init => false,
            EdgeOrigin::Primitive { pc } => stated(calls, reg_at(i), reg_at(j), v, pc),
            EdgeOrigin::Derived { via } => via < DBM_DIM && z.m[i][via as int] < INF
                && z.m[via as int][j] < INF && z.m[i][via as int] + z.m[via as int][j] <= v,
        },
    ensures
        traced(z.put(i, j, v).mark(i, j, o), calls, touched(t, clock, i, j), (clock + 1) as nat),
{
    let r = z.put(i, j, v).mark(i, j, o);
    let t2 = touched(t, clock, i, j);
    let n = DBM_DIM as int;
    lemma_put_square(z.m, i, j, v, n);
    lemma_put_square(z.prov->0.edges, i, j, o, n);
    let (m, e) = (z.m, z.prov->0.edges);
    assert forall|a: int, b: int| 0 <= a < n && 0 <= b < n implies #[trigger] entry_traced(
        r.m,
        r.prov->0.edges,
        calls,
        t2,
        (clock + 1) as nat,
        a,
        b,
    ) by {
        assert(entry_traced(m, e, calls, t, clock, a, b));
        assert(entry_traced(m, e, calls, t, clock, i, j));
        assert(forall|p: int, q: int|
            0 <= p < n && 0 <= q < n ==> #[trigger] r.m[p][q] == if p == i && q == j {
                v
            } else {
                m[p][q]
            });
        assert(r.prov->0.edges[a][b] == if a == i && b == j { o } else { e[a][b] });
        match r.prov->0.edges[a][b] {
            EdgeOrigin::Derived { via } => {
                let k = via as int;
                assert(entry_traced(m, e, calls, t, clock, a, k));
                assert(entry_traced(m, e, calls, t, clock, k, b));
                assert(r.m[a][k] <= m[a][k]);
                assert(r.m[k][b] <= m[k][b]);
            },
            _ => {},
        }
    }
}

proof fn lemma_relax_traced(
    z: Zone,
    calls: Seq<ZoneCall>,
    t: spec_fn(int, int) -> nat,
    clock: nat,
    k: int,
    i: int,
    dik: i64,
    j: int,
) -> (r: (spec_fn(int, int) -> nat, nat))
    requires
        traced(z, calls, t, clock),
        0 <= k < DBM_DIM,
        0 <= i < DBM_DIM,
        0 <= j < DBM_DIM,
        z.m[i][k] <= dik < INF,
    ensures
        traced(z.relax(k, i, dik, j), calls, r.0, r.1),
        z.relax(k, i, dik, j).m[i][k] <= dik,
{
    let via = chain(dik, z.m[k][j]);
    lemma_relax(z, k, i, dik, j, DBM_DIM as int);
    assert(z.relax(k, i, dik, j).m[i][k] <= z.m[i][k]);
    assert(entry_traced(z.m, z.prov->0.edges, calls, t, clock, i, j));
    if z.m[k][j] < INF && via < z.m[i][j] {
        assert(dik + z.m[k][j] <= via);
        lemma_written(
            z,
            calls,
            t,
            clock,
            i,
            j,
            via,
            EdgeOrigin::Derived { via: k as usize },
        );
        (touched(t, clock, i, j), (clock + 1) as nat)
    } else {
        (t, clock)
    }
}

proof fn lemma_relax_row_traced(
    z: Zone,
    calls: Seq<ZoneCall>,
    t: spec_fn(int, int) -> nat,
    clock: nat,
    k: int,
    i: int,
    dik: i64,
    c: nat,
) -> (r: (spec_fn(int, int) -> nat, nat))
    requires
        traced(z, calls, t, clock),
        0 <= k < DBM_DIM,
        0 <= i < DBM_DIM,
        c <= DBM_DIM,
        z.m[i][k] <= dik < INF,
    ensures
        traced(z.relax_row(k, i, dik, c), calls, r.0, r.1),
        z.relax_row(k, i, dik, c).m[i][k] <= dik,
    decreases c,
{
    if c == 0 {
        (t, clock)
    } else {
        let (t1, n1) = lemma_relax_row_traced(z, calls, t, clock, k, i, dik, (c - 1) as nat);
        lemma_relax_traced(
            z.relax_row(k, i, dik, (c - 1) as nat),
            calls,
            t1,
            n1,
            k,
            i,
            dik,
            c - 1,
        )
    }
}

proof fn lemma_relax_rows_traced(
    z: Zone,
    calls: Seq<ZoneCall>,
    t: spec_fn(int, int) -> nat,
    clock: nat,
    k: int,
    c: nat,
) -> (r: (spec_fn(int, int) -> nat, nat))
    requires
        traced(z, calls, t, clock),
        0 <= k < DBM_DIM,
        c <= DBM_DIM,
    ensures
        traced(z.relax_rows(k, c), calls, r.0, r.1),
    decreases c,
{
    if c == 0 {
        (t, clock)
    } else {
        let (t1, n1) = lemma_relax_rows_traced(z, calls, t, clock, k, (c - 1) as nat);
        let w = z.relax_rows(k, (c - 1) as nat);
        let dik = w.m[c - 1][k];
        if dik >= INF {
            (t1, n1)
        } else {
            lemma_relax_row_traced(w, calls, t1, n1, k, c - 1, dik, z.m.len())
        }
    }
}

proof fn lemma_close_traced(
    z: Zone,
    calls: Seq<ZoneCall>,
    t: spec_fn(int, int) -> nat,
    clock: nat,
    c: nat,
) -> (r: (spec_fn(int, int) -> nat, nat))
    requires
        traced(z, calls, t, clock),
        c <= DBM_DIM,
    ensures
        traced(z.close_through(c), calls, r.0, r.1),
    decreases c,
{
    if c == 0 {
        (t, clock)
    } else {
        let (t1, n1) = lemma_close_traced(z, calls, t, clock, (c - 1) as nat);
        lemma_relax_rows_traced(
            z.close_through((c - 1) as nat),
            calls,
            t1,
            n1,
            c - 1,
            z.m.len(),
        )
    }
}

proof fn lemma_total(a: Seq<PrimitiveEdge>, b: Seq<PrimitiveEdge>)
    ensures
        total(a + b) == total(a) + total(b),
    decreases b.len(),
{
    if b.len() == 0 {
        assert(a + b =~= a);
    } else {
        lemma_total(a, b.drop_last());
        assert((a + b).drop_last() =~= a + b.drop_last());
    }
}

/// The matrix is complete and not contradictory.
spec fn settled(m: Seq<Seq<i64>>) -> bool {
    &&& closed_through(m, DBM_DIM as int)
    &&& within(m, POS_BOUND as int)
    &&& forall|i: int| 0 <= i < DBM_DIM ==> (#[trigger] m[i])[i] >= 0
}

/// The derivation of an entry of a settled matrix: its parts are older, and make
/// up the entry.
proof fn lemma_parts(
    z: Zone,
    calls: Seq<ZoneCall>,
    t: spec_fn(int, int) -> nat,
    clock: nat,
    i: int,
    j: int,
)
    requires
        traced(z, calls, t, clock),
        settled(z.m),
        0 <= i < DBM_DIM,
        0 <= j < DBM_DIM,
        i != j,
        z.m[i][j] < INF,
    ensures
        !(z.prov->0.edges[i][j] is Init),
        z.prov->0.edges[i][j] matches EdgeOrigin::Derived { via } ==> {
            let k = via as int;
            &&& 0 <= k < DBM_DIM
            &&& k != i
            &&& k != j
            &&& z.m[i][k] < INF
            &&& z.m[k][j] < INF
            &&& z.m[i][k] + z.m[k][j] == z.m[i][j]
            &&& t(i, k) < t(i, j)
            &&& t(k, j) < t(i, j)
        },
{
    assert(entry_traced(z.m, z.prov->0.edges, calls, t, clock, i, j));
    if let EdgeOrigin::Derived { via } = z.prov->0.edges[i][j] {
        let k = via as int;
        assert(z.m[i][j] <= z.m[i][k] + z.m[k][j]);
    }
}

proof fn lemma_explained_alone(calls: Seq<ZoneCall>, e: PrimitiveEdge)
    requires
        stated(calls, e.to, e.from, e.weight, e.pc),
    ensures
        explains(calls, seq![e], e.to, e.from, e.weight as int),
{
    let path = seq![e];
    assert(path.drop_last() =~= Seq::<PrimitiveEdge>::empty());
    assert(total(path.drop_last()) == 0);
    assert(path.last() == e);
}

proof fn lemma_explained_together(
    calls: Seq<ZoneCall>,
    a: Seq<PrimitiveEdge>,
    b: Seq<PrimitiveEdge>,
    i: Reg,
    k: Reg,
    j: Reg,
    x: int,
    y: int,
)
    requires
        explains(calls, a, i, k, x),
        explains(calls, b, k, j, y),
    ensures
        explains(calls, a + b, i, j, x + y),
{
    let path = a + b;
    lemma_total(a, b);
    assert(path.last() == b.last());
    assert forall|q: int| 0 <= q < path.len() - 1 implies #[trigger] meets(path, q) by {
        if q < a.len() - 1 {
            assert(meets(a, q));
        } else if q >= a.len() {
            assert(meets(b, q - a.len()));
        }
    }
    assert forall|q: int| 0 <= q < path.len() implies {
        let e = #[trigger] path[q];
        stated(calls, e.to, e.from, e.weight, e.pc)
    } by {
        if q < a.len() {
            assert(path[q] == a[q]);
        } else {
            assert(path[q] == b[q - a.len()]);
        }
    }
}

proof fn lemma_explained(
    z: Zone,
    calls: Seq<ZoneCall>,
    t: spec_fn(int, int) -> nat,
    clock: nat,
    i: int,
    j: int,
)
    requires
        traced(z, calls, t, clock),
        settled(z.m),
        0 <= i < DBM_DIM,
        0 <= j < DBM_DIM,
        i != j,
        z.m[i][j] < INF,
    ensures
        grounded(z.prov->0.edges, i, j, t(i, j)),
        explains(
            calls,
            path_edges(z.m, z.prov->0.edges, i, j, t(i, j)),
            reg_at(i),
            reg_at(j),
            z.m[i][j] as int,
        ),
    decreases t(i, j),
{
    let (m, e) = (z.m, z.prov->0.edges);
    let d = t(i, j);
    lemma_parts(z, calls, t, clock, i, j);
    assert(entry_traced(m, e, calls, t, clock, i, j));
    match e[i][j] {
        EdgeOrigin::Primitive { pc } => {
            assert(edge_at(m, i, j, pc) == PrimitiveEdge {
                to: reg_at(i),
                from: reg_at(j),
                weight: m[i][j],
                pc,
            }) by {
                reveal(reg_at);
            }
            lemma_explained_alone(calls, edge_at(m, i, j, pc));
        },
        EdgeOrigin::Derived { via } => {
            let k = via as int;
            lemma_explained(z, calls, t, clock, i, k);
            lemma_explained(z, calls, t, clock, k, j);
            lemma_grounded_deeper(e, i, k, t(i, k), (d - 1) as nat);
            lemma_grounded_deeper(e, k, j, t(k, j), (d - 1) as nat);
            law_path_does_not_depend_on_depth(m, e, i, k, t(i, k), (d - 1) as nat);
            law_path_does_not_depend_on_depth(m, e, k, j, t(k, j), (d - 1) as nat);
            lemma_explained_together(
                calls,
                path_edges(m, e, i, k, (d - 1) as nat),
                path_edges(m, e, k, j, (d - 1) as nat),
                reg_at(i),
                reg_at(k),
                reg_at(j),
                m[i][k] as int,
                m[k][j] as int,
            );
        },
        EdgeOrigin::Init => {},
    }
}

// ---- how large entries get --------------------------------------------------

/// The sum of the entries between neighbours of a walk.
spec fn length(m: Seq<Seq<i64>>, w: Seq<int>) -> int
    decreases w.len(),
{
    if w.len() <= 1 {
        0
    } else {
        length(m, w.drop_last()) + m[w[w.len() - 2]][w[w.len() - 1]]
    }
}

/// Step `k` of a walk goes over an entry within [`LIMIT`].
spec fn steps(m: Seq<Seq<i64>>, w: Seq<int>, k: int) -> bool {
    -LIMIT <= m[w[k]][w[k + 1]] <= LIMIT
}

/// A walk over entries within [`LIMIT`], from `i` to `j`.
spec fn walk(m: Seq<Seq<i64>>, w: Seq<int>, i: int, j: int) -> bool {
    &&& w.len() > 0
    &&& w[0] == i
    &&& w.last() == j
    &&& forall|k: int| 0 <= k < w.len() ==> 0 <= #[trigger] w[k] < DBM_DIM
    &&& forall|k: int| 0 <= k < w.len() - 1 ==> #[trigger] steps(m, w, k)
}

proof fn lemma_length_split(m: Seq<Seq<i64>>, w: Seq<int>, a: int)
    requires
        0 <= a < w.len(),
    ensures
        length(m, w) == length(m, w.take(a + 1)) + length(m, w.skip(a)),
    decreases w.len(),
{
    if a == w.len() - 1 {
        assert(w.take(a + 1) =~= w);
    } else {
        let u = w.drop_last();
        lemma_length_split(m, u, a);
        assert(u.take(a + 1) =~= w.take(a + 1));
        assert(u.skip(a) =~= w.skip(a).drop_last());
        let v = w.skip(a);
        assert(v[v.len() - 2] == w[w.len() - 2]);
        assert(v[v.len() - 1] == w[w.len() - 1]);
    }
}

/// An entry of a settled matrix is at most the length of a walk.
proof fn lemma_walk_bounds_entry(m: Seq<Seq<i64>>, w: Seq<int>, i: int, j: int)
    requires
        settled(m),
        m.len() == DBM_DIM,
        walk(m, w, i, j),
        w.len() >= 2,
    ensures
        m[i][j] < INF,
        m[i][j] <= length(m, w),
    decreases w.len(),
{
    let u = w.drop_last();
    let p = w[w.len() - 2];
    assert(u.last() == p);
    assert(steps(m, w, w.len() - 2));
    if w.len() == 2 {
        assert(length(m, u) == 0);
    } else {
        assert forall|k: int| 0 <= k < u.len() - 1 implies #[trigger] steps(m, u, k) by {
            assert(steps(m, w, k));
        }
        lemma_walk_bounds_entry(m, u, i, p);
        assert(m[i][j] <= m[i][p] + m[p][j]);
        assert(-POS_BOUND <= m[i][p] <= POS_BOUND);
    }
}

proof fn lemma_length_limited(m: Seq<Seq<i64>>, w: Seq<int>, i: int, j: int)
    requires
        walk(m, w, i, j),
    ensures
        -(w.len() - 1) * LIMIT <= length(m, w) <= (w.len() - 1) * LIMIT,
    decreases w.len(),
{
    if w.len() > 1 {
        let u = w.drop_last();
        let p = w[w.len() - 2];
        assert(u.last() == p);
        assert forall|k: int| 0 <= k < u.len() - 1 implies #[trigger] steps(m, u, k) by {
            assert(steps(m, w, k));
        }
        lemma_length_limited(m, u, i, p);
        assert(steps(m, w, w.len() - 2));
    }
}

proof fn lemma_repeats(w: Seq<int>, n: nat)
    requires
        w.len() > n,
        forall|k: int| 0 <= k < w.len() ==> 0 <= #[trigger] w[k] < n,
    ensures
        exists|a: int, b: int| 0 <= a < b < w.len() && #[trigger] w[a] == #[trigger] w[b],
{
    if w.no_duplicates() {
        w.unique_seq_to_set();
        let all = vstd::set_lib::set_int_range(0, n as int);
        vstd::set_lib::lemma_int_range(0, n as int);
        assert forall|x: int| w.to_set().contains(x) implies all.contains(x) by {
            let k = choose|k: int| 0 <= k < w.len() && w[k] == x;
            assert(0 <= w[k] < n);
        }
        vstd::set_lib::lemma_len_subset(w.to_set(), all);
        assert(false);
    } else {
        let (a, b) = choose|a: int, b: int|
            0 <= a < w.len() && 0 <= b < w.len() && a != b && #[trigger] w[a] == #[trigger] w[b];
        if a < b {
            assert(w[a] == w[b]);
        } else {
            assert(w[b] == w[a]);
        }
    }
}

/// A stretch of a walk is a walk.
proof fn lemma_stretch(m: Seq<Seq<i64>>, w: Seq<int>, i: int, j: int, a: int, b: int)
    requires
        walk(m, w, i, j),
        0 <= a <= b < w.len(),
    ensures
        walk(m, w.subrange(a, b + 1), w[a], w[b]),
{
    let u = w.subrange(a, b + 1);
    assert forall|k: int| 0 <= k < u.len() implies 0 <= #[trigger] u[k] < DBM_DIM by {
        assert(u[k] == w[a + k]);
    }
    assert forall|k: int| 0 <= k < u.len() - 1 implies #[trigger] steps(m, u, k) by {
        assert(steps(m, w, a + k));
    }
}

/// A walk followed by another.
proof fn lemma_walk_on(m: Seq<Seq<i64>>, a: Seq<int>, b: Seq<int>, i: int, k: int, j: int)
    requires
        walk(m, a, i, k),
        walk(m, b, k, j),
    ensures
        walk(m, a + b.skip(1), i, j),
        length(m, a + b.skip(1)) == length(m, a) + length(m, b),
{
    let w = a + b.skip(1);
    lemma_length_split(m, w, a.len() - 1);
    assert(w.take(a.len() as int) =~= a);
    assert(w.skip(a.len() - 1) =~= b);
    assert(w.last() == j) by {
        if b.len() == 1 {
            assert(w =~= a);
        }
    }
    assert forall|q: int| 0 <= q < w.len() implies 0 <= #[trigger] w[q] < DBM_DIM by {
        if q < a.len() {
            assert(w[q] == a[q]);
        } else {
            assert(w[q] == b[q - a.len() + 1]);
        }
    }
    assert forall|q: int| 0 <= q < w.len() - 1 implies #[trigger] steps(m, w, q) by {
        if q < a.len() - 1 {
            assert(steps(m, a, q));
        } else {
            assert(steps(m, b, q - a.len() + 1));
        }
    }
}

/// A walk without the round trip between two visits of a place.
proof fn lemma_cut(m: Seq<Seq<i64>>, w: Seq<int>, i: int, j: int, a: int, b: int) -> (u: Seq<int>)
    requires
        settled(m),
        m.len() == DBM_DIM,
        walk(m, w, i, j),
        0 <= a < b < w.len(),
        w[a] == w[b],
    ensures
        walk(m, u, i, j),
        u.len() < w.len(),
        length(m, u) <= length(m, w),
{
    let n = w.len() as int;
    let first = w.subrange(0, a + 1);
    let round = w.subrange(a, b + 1);
    let last = w.subrange(b, n);
    lemma_stretch(m, w, i, j, 0, a);
    lemma_stretch(m, w, i, j, a, b);
    lemma_stretch(m, w, i, j, b, n - 1);
    lemma_length_split(m, w, a);
    assert(w.take(a + 1) =~= first);
    lemma_length_split(m, w.skip(a), b - a);
    assert(w.skip(a).take(b - a + 1) =~= round);
    assert(w.skip(a).skip(b - a) =~= last);
    lemma_walk_bounds_entry(m, round, w[a], w[a]);
    assert(m[w[a]][w[a]] >= 0);
    lemma_walk_on(m, first, last, i, w[a], j);
    first + last.skip(1)
}

/// A walk without repetition that is no longer.
proof fn lemma_shortcut(m: Seq<Seq<i64>>, w: Seq<int>, i: int, j: int) -> (r: Seq<int>)
    requires
        settled(m),
        m.len() == DBM_DIM,
        walk(m, w, i, j),
    ensures
        walk(m, r, i, j),
        r.len() <= DBM_DIM,
        length(m, r) <= length(m, w),
    decreases w.len(),
{
    if w.len() <= DBM_DIM {
        w
    } else {
        lemma_repeats(w, DBM_DIM as nat);
        let (a, b) = choose|a: int, b: int|
            0 <= a < b < w.len() && #[trigger] w[a] == #[trigger] w[b];
        let u = lemma_cut(m, w, i, j, a, b);
        lemma_shortcut(m, u, i, j)
    }
}

/// The walk that an entry was derived from.
proof fn lemma_derived_walk(
    z: Zone,
    calls: Seq<ZoneCall>,
    t: spec_fn(int, int) -> nat,
    clock: nat,
    i: int,
    j: int,
) -> (w: Seq<int>)
    requires
        traced(z, calls, t, clock),
        settled(z.m),
        limited(calls),
        0 <= i < DBM_DIM,
        0 <= j < DBM_DIM,
        i != j,
        z.m[i][j] < INF,
    ensures
        walk(z.m, w, i, j),
        w.len() >= 2,
        length(z.m, w) == z.m[i][j],
    decreases t(i, j),
{
    let (m, e) = (z.m, z.prov->0.edges);
    lemma_parts(z, calls, t, clock, i, j);
    assert(entry_traced(m, e, calls, t, clock, i, j));
    match e[i][j] {
        EdgeOrigin::Derived { via } => {
            let k = via as int;
            let a = lemma_derived_walk(z, calls, t, clock, i, k);
            let b = lemma_derived_walk(z, calls, t, clock, k, j);
            lemma_walk_on(m, a, b, i, k, j);
            a + b.skip(1)
        },
        _ => {
            let w = seq![i, j];
            assert(w.drop_last() =~= seq![i]);
            assert(length(m, w.drop_last()) == 0);
            assert(steps(m, w, 0));
            w
        },
    }
}

/// Entries of a settled matrix do not outgrow what was stated.
proof fn lemma_entries_stay_small(
    z: Zone,
    calls: Seq<ZoneCall>,
    t: spec_fn(int, int) -> nat,
    clock: nat,
)
    requires
        traced(z, calls, t, clock),
        settled(z.m),
        limited(calls),
    ensures
        within(z.m, DBM_DIM * LIMIT),
{
    assert forall|i: int, j: int|
        0 <= i < z.m.len() && 0 <= j < z.m.len() && #[trigger] z.m[i][j] < INF implies -(DBM_DIM
        * LIMIT) <= z.m[i][j] <= DBM_DIM * LIMIT by {
        assert(entry_traced(z.m, z.prov->0.edges, calls, t, clock, i, j));
        if i == j {
            assert(z.m[i][i] >= 0);
        } else {
            let w = lemma_derived_walk(z, calls, t, clock, i, j);
            let r = lemma_shortcut(z.m, w, i, j);
            assert(r.len() >= 2);
            lemma_walk_bounds_entry(z.m, r, i, j);
            lemma_length_limited(z.m, r, i, j);
        }
    }
}

// ---- the calls --------------------------------------------------------------

proof fn lemma_built_sized(calls: Seq<ZoneCall>)
    ensures
        built(calls).sized(DBM_DIM as int),
        built(calls).prov is Some,
        calls.len() > 0 ==> tighter(built(calls).m, built(calls.drop_last()).m),
    decreases calls.len(),
{
    if calls.len() > 0 {
        let z = built(calls.drop_last());
        lemma_built_sized(calls.drop_last());
        match calls.last() {
            ZoneCall::Pc { pc } => {},
            ZoneCall::State { to, from, bound } => {
                let c = clamp_spec(bound as int);
                let (i, j) = (to.idx() as int, from.idx() as int);
                law_index_round_trip(to, 0);
                law_index_round_trip(from, 0);
                let n = DBM_DIM as int;
                lemma_put_square(z.m, i, j, c, n);
                lemma_put_square(
                    z.prov->0.edges,
                    i,
                    j,
                    EdgeOrigin::Primitive { pc: z.prov->0.pc },
                    n,
                );
            },
            ZoneCall::Close => {
                lemma_close_through(z, DBM_DIM as nat, DBM_DIM as int);
                lemma_close_keeps_trace(z, DBM_DIM as nat);
            },
        }
    }
}

proof fn lemma_close_keeps_trace(z: Zone, c: nat)
    requires
        z.prov is Some,
        z.sized(DBM_DIM as int),
        c <= DBM_DIM,
    ensures
        z.close_through(c).prov is Some,
    decreases c,
{
    if c > 0 {
        lemma_close_keeps_trace(z, (c - 1) as nat);
        lemma_close_through(z, (c - 1) as nat, DBM_DIM as int);
        lemma_rows_keep_trace(z.close_through((c - 1) as nat), c - 1, z.m.len());
    }
}

proof fn lemma_rows_keep_trace(z: Zone, k: int, c: nat)
    requires
        z.prov is Some,
        z.sized(DBM_DIM as int),
        0 <= k < DBM_DIM,
        c <= DBM_DIM,
    ensures
        z.relax_rows(k, c).prov is Some,
    decreases c,
{
    if c > 0 {
        lemma_rows_keep_trace(z, k, (c - 1) as nat);
        let w = z.relax_rows(k, (c - 1) as nat);
        lemma_row_keeps_trace(w, k, c - 1, w.m[c - 1][k], z.m.len());
    }
}

proof fn lemma_row_keeps_trace(z: Zone, k: int, i: int, dik: i64, c: nat)
    requires
        z.prov is Some,
    ensures
        z.relax_row(k, i, dik, c).prov is Some,
    decreases c,
{
    if c > 0 {
        lemma_row_keeps_trace(z, k, i, dik, (c - 1) as nat);
    }
}

/// What was stated by some calls was stated by more of them.
proof fn lemma_stated_more(
    calls: Seq<ZoneCall>,
    to: Reg,
    from: Reg,
    bound: i64,
    pc: usize,
)
    requires
        calls.len() > 0,
        stated(calls.drop_last(), to, from, bound, pc),
    ensures
        stated(calls, to, from, bound, pc),
{
    let p = calls.drop_last();
    let q = choose|q: int|
        0 <= q < p.len() && #[trigger] p[q] == (ZoneCall::State { to, from, bound }) && pc_at(p, q)
            == pc;
    assert(p.take(q) =~= calls.take(q));
    assert(calls[q] == ZoneCall::State { to, from, bound });
}

proof fn lemma_traced_more(
    z: Zone,
    calls: Seq<ZoneCall>,
    t: spec_fn(int, int) -> nat,
    clock: nat,
)
    requires
        calls.len() > 0,
        traced(z, calls.drop_last(), t, clock),
    ensures
        traced(z, calls, t, clock),
{
    assert forall|i: int, j: int| 0 <= i < DBM_DIM && 0 <= j < DBM_DIM implies #[trigger] entry_traced(
        z.m,
        z.prov->0.edges,
        calls,
        t,
        clock,
        i,
        j,
    ) by {
        assert(entry_traced(z.m, z.prov->0.edges, calls.drop_last(), t, clock, i, j));
        if let EdgeOrigin::Primitive { pc } = z.prov->0.edges[i][j] {
            lemma_stated_more(calls, reg_at(i), reg_at(j), z.m[i][j], pc);
        }
    }
}

/// A consistent zone that calls built has a known history, and entries that are
/// not large; after a closure nothing is left to tighten.
proof fn lemma_history(calls: Seq<ZoneCall>) -> (r: (spec_fn(int, int) -> nat, nat))
    requires
        limited(calls),
        !built(calls).inconsistent(),
    ensures
        traced(built(calls), calls, r.0, r.1),
        within(built(calls).m, DBM_DIM * LIMIT),
        calls.len() > 0 && calls.last() is Close ==> settled(built(calls).m),
    decreases calls.len(),
{
    let y = built(calls);
    if calls.len() == 0 {
        let t = |i: int, j: int| 0nat;
        (t, 0)
    } else {
        let p = calls.drop_last();
        let z = built(p);
        lemma_built_sized(calls);
        lemma_built_sized(p);
        assert(limited(p)) by {
            assert forall|q: int| 0 <= q < p.len() implies (#[trigger] p[q] matches ZoneCall::State {
                bound,
                ..
            } ==> -LIMIT <= bound <= LIMIT) by {
                assert(p[q] == calls[q]);
            }
        }
        assert(!z.inconsistent()) by {
            if z.inconsistent() {
                let x = choose|x: int| 0 <= x < z.m.len() && (#[trigger] z.m[x])[x] < 0;
                assert(y.m[x][x] <= z.m[x][x]);
                assert(y.m[x][x] < 0);
            }
        }
        let (t, clock) = lemma_history(p);
        lemma_traced_more(z, calls, t, clock);
        match calls.last() {
            ZoneCall::Pc { pc } => {
                assert forall|i: int, j: int|
                    0 <= i < DBM_DIM && 0 <= j < DBM_DIM implies #[trigger] entry_traced(
                    y.m,
                    y.prov->0.edges,
                    calls,
                    t,
                    clock,
                    i,
                    j,
                ) by {
                    assert(entry_traced(z.m, z.prov->0.edges, calls, t, clock, i, j));
                }
                (t, clock)
            },
            ZoneCall::State { to, from, bound } => {
                let (i, j) = (to.idx() as int, from.idx() as int);
                law_index_round_trip(to, 0);
                law_index_round_trip(from, 0);
                let q = calls.len() - 1;
                assert(calls[q] == calls.last());
                assert(-LIMIT <= bound <= LIMIT);
                assert(clamp_spec(bound as int) == bound);
                if bound < z.m[i][j] {
                    let o = EdgeOrigin::Primitive { pc: z.prov->0.pc };
                    assert(stated(calls, reg_at(i), reg_at(j), bound, z.prov->0.pc)) by {
                        reveal(reg_at);
                        assert(calls.take(q) =~= p);
                        assert(pc_at(calls, q) == z.prov->0.pc);
                    }
                    lemma_written(z, calls, t, clock, i, j, bound, o);
                    lemma_put_square(z.m, i, j, bound, DBM_DIM as int);
                    assert(y == z.put(i, j, bound).mark(i, j, o));
                    assert(within(y.m, DBM_DIM * LIMIT)) by {
                        assert forall|a: int, b: int|
                            0 <= a < y.m.len() && 0 <= b < y.m.len() && #[trigger] y.m[a][b]
                                < INF implies -(DBM_DIM * LIMIT) <= y.m[a][b] <= DBM_DIM * LIMIT by {
                            assert(y.m[a][b] == if a == i && b == j {
                                bound
                            } else {
                                z.m[a][b]
                            });
                        }
                    }
                    (touched(t, clock, i, j), (clock + 1) as nat)
                } else {
                    (t, clock)
                }
            },
            ZoneCall::Close => {
                assert(within(z.m, MODERATE as int));
                lemma_closed(z, DBM_DIM as int);
                let r = lemma_close_traced(z, calls, t, clock, DBM_DIM as nat);
                assert forall|i: int| 0 <= i < DBM_DIM implies (#[trigger] y.m[i])[i] >= 0 by {}
                lemma_entries_stay_small(y, calls, r.0, r.1);
                r
            },
        }
    }
}

/// Every entry of a closed, consistent zone that calls built is explained by
/// what the calls stated: the derivation of the entry ends, and the constraints
/// it gives lead from one variable to the other without a gap, add up to the
/// entry, and were each stated by a call for the instruction they name.
pub proof fn law_paths_explain_entries(calls: Seq<ZoneCall>, i: Reg, j: Reg)
    requires
        limited(calls),
        calls.len() > 0,
        calls.last() is Close,
        !built(calls).inconsistent(),
        i != j,
        built(calls).m[i.idx() as int][j.idx() as int] < INF,
    ensures
        built(calls).traceable(i.idx() as int, j.idx() as int),
        forall|d: nat| #[trigger]
            grounded(built(calls).prov->0.edges, i.idx() as int, j.idx() as int, d) ==> explains(
                calls,
                path_edges(
                    built(calls).m,
                    built(calls).prov->0.edges,
                    i.idx() as int,
                    j.idx() as int,
                    d,
                ),
                i,
                j,
                built(calls).m[i.idx() as int][j.idx() as int] as int,
            ),
{
    let z = built(calls);
    let (t, clock) = lemma_history(calls);
    let (a, b) = (i.idx() as int, j.idx() as int);
    law_index_round_trip(i, 0);
    law_index_round_trip(j, 0);
    assert(a != b && reg_at(a) == i && reg_at(b) == j) by {
        reveal(reg_at);
    }
    lemma_explained(z, calls, t, clock, a, b);
    assert forall|d: nat| #[trigger] grounded(z.prov->0.edges, a, b, d) implies explains(
        calls,
        path_edges(z.m, z.prov->0.edges, a, b, d),
        i,
        j,
        z.m[a][b] as int,
    ) by {
        law_path_does_not_depend_on_depth(z.m, z.prov->0.edges, a, b, t(a, b), d);
    }
}

} // verus!
