//! Difference-bound matrices: entry `(i, j)` bounds `i - j` from above.
use crate::machine::reg::{Reg, DBM_DIM};
use crate::num::{max_i32, max_i64, max_u32, max_u64, min_i32, min_i64, min_u32, min_u64};
use vstd::prelude::*;

verus! {

/// "No constraint". Every entry at or above this value says nothing.
pub const INF: i64 = 2305843009213693951;

/// Largest finite bound that is kept; anything above becomes [`INF`].
pub const POS_BOUND: i64 = 1152921504606846975;

/// Smallest bound that is kept; anything below is weakened to this value.
pub const NEG_BOUND: i64 = -1152921504606846975;

/// How a matrix entry got its present value.
#[derive(Debug, Clone, Copy, PartialEq, Eq, Structural)]
pub enum EdgeOrigin {
    /// The entry still has its initial value.
    Init,
    /// Stated directly while the given instruction was analyzed.
    Primitive { pc: usize },
    /// Deduced by transitive closure through the intermediate index `via`.
    Derived { via: usize },
}

/// A shadow matrix that remembers the origin of every entry.
#[derive(Debug)]
pub struct ProvenanceTracker {
    pub edges: Vec<Vec<EdgeOrigin>>,
    pub current_pc: usize,
}

/// What a [`ProvenanceTracker`] holds.
#[verifier::ext_equal]
pub struct Trace {
    pub edges: Seq<Seq<EdgeOrigin>>,
    pub pc: usize,
}

/// The rows of a matrix as sequences.
pub open spec fn rows<A>(v: Seq<Vec<A>>) -> Seq<Seq<A>> {
    Seq::new(v.len(), |i: int| v[i]@)
}

/// `m` is an `n` by `n` matrix.
pub open spec fn square<A>(m: Seq<Seq<A>>, n: int) -> bool {
    &&& m.len() == n
    &&& forall|i: int| 0 <= i < n ==> (#[trigger] m[i]).len() == n
}

/// `m` with `v` at row `i`, column `j`.
pub open spec fn put<A>(m: Seq<Seq<A>>, i: int, j: int, v: A) -> Seq<Seq<A>> {
    m.update(i, m[i].update(j, v))
}

/// The `n` by `n` matrix with `f(i, j)` at row `i`, column `j`.
pub open spec fn table<A>(n: nat, f: spec_fn(int, int) -> A) -> Seq<Seq<A>> {
    Seq::new(n, |i: int| Seq::new(n, |j: int| f(i, j)))
}

pub proof fn lemma_put_square<A>(m: Seq<Seq<A>>, i: int, j: int, v: A, n: int)
    requires
        square(m, n),
        0 <= i < n,
        0 <= j < n,
    ensures
        square(put(m, i, j, v), n),
        forall|a: int, b: int|
            0 <= a < n && 0 <= b < n ==> #[trigger] put(m, i, j, v)[a][b] == if a == i && b == j {
                v
            } else {
                m[a][b]
            },
{
    let row = m[i].update(j, v);
    assert(row.len() == n);
    let p = m.update(i, row);
    assert(p == put(m, i, j, v));
    assert(p.len() == n);
    assert(p[i] == row);
    assert forall|a: int| 0 <= a < n implies (#[trigger] put(m, i, j, v)[a]).len() == n by {
        assert(m[a].len() == n);
    }
}

/// Writes one entry of a matrix.
fn put_cell<A>(m: &mut Vec<Vec<A>>, i: usize, j: usize, v: A)
    requires
        i < old(m)@.len(),
        j < old(m)@[i as int]@.len(),
    ensures
        rows(final(m)@) == put(rows(old(m)@), i as int, j as int, v),
{
    m[i][j] = v;
    assert(m@[i as int]@ =~= old(m)@[i as int]@.update(j as int, v));
    assert forall|a: int| 0 <= a < m@.len() implies #[trigger] rows(m@)[a] == put(
        rows(old(m)@),
        i as int,
        j as int,
        v,
    )[a] by {
        assert(a != i ==> m@[a] == old(m)@[a]);
    }
    assert(rows(m@) =~= put(rows(old(m)@), i as int, j as int, v));
}

impl ProvenanceTracker {
    pub open spec fn view(&self) -> Trace {
        Trace { edges: rows(self.edges@), pc: self.current_pc }
    }

    /// A tracker for `n` variables in which every entry is initial.
    pub fn new(n: usize) -> (r: Self)
        ensures
            r@.pc == 0,
            r@.edges == table(n as nat, |i: int, j: int| EdgeOrigin::Init),
    {
        let mut edges: Vec<Vec<EdgeOrigin>> = Vec::new();
        let mut i: usize = 0;
        while i < n
            invariant
                i <= n,
                edges@.len() == i,
                forall|a: int| 0 <= a < i ==> (#[trigger] edges@[a])@ == Seq::new(
                    n as nat,
                    |b: int| EdgeOrigin::Init,
                ),
            decreases n - i,
        {
            let mut row: Vec<EdgeOrigin> = Vec::new();
            let mut j: usize = 0;
            while j < n
                invariant
                    j <= n,
                    row@.len() == j,
                    forall|b: int| 0 <= b < j ==> row@[b] == EdgeOrigin::Init,
                decreases n - j,
            {
                row.push(EdgeOrigin::Init);
                j = j + 1;
            }
            assert(row@ =~= Seq::new(n as nat, |b: int| EdgeOrigin::Init));
            edges.push(row);
            i = i + 1;
        }
        assert(rows(edges@) =~= table(n as nat, |i: int, j: int| EdgeOrigin::Init)) by {
            assert forall|a: int| 0 <= a < n implies #[trigger] rows(edges@)[a] == table(
                n as nat,
                |i: int, j: int| EdgeOrigin::Init,
            )[a] by {
                assert(edges@[a]@ =~= table(n as nat, |i: int, j: int| EdgeOrigin::Init)[a]);
            }
        }
        ProvenanceTracker { edges, current_pc: 0 }
    }

    /// The origin of entry `(i, j)`.
    pub fn get(&self, i: usize, j: usize) -> (r: EdgeOrigin)
        requires
            i < self@.edges.len(),
            j < self@.edges[i as int].len(),
        ensures
            r == self@.edges[i as int][j as int],
    {
        self.edges[i][j]
    }

    fn duplicate(&self) -> (r: Self)
        ensures
            r@ == self@,
    {
        let mut edges: Vec<Vec<EdgeOrigin>> = Vec::new();
        let mut i: usize = 0;
        while i < self.edges.len()
            invariant
                i <= self.edges@.len(),
                edges@.len() == i,
                forall|a: int| 0 <= a < i ==> (#[trigger] edges@[a])@ == self.edges@[a]@,
            decreases self.edges@.len() - i,
        {
            let row = copy_row(&self.edges[i]);
            edges.push(row);
            i = i + 1;
        }
        assert(rows(edges@) =~= rows(self.edges@));
        ProvenanceTracker { edges, current_pc: self.current_pc }
    }
}

impl Clone for ProvenanceTracker {
    fn clone(&self) -> (r: Self)
        ensures
            r@ == self@,
    {
        self.duplicate()
    }
}

/// A copy of a vector of plain values.
fn copy_row<A: Copy>(v: &Vec<A>) -> (r: Vec<A>)
    ensures
        r@ == v@,
{
    let mut r: Vec<A> = Vec::new();
    let mut i: usize = 0;
    while i < v.len()
        invariant
            i <= v@.len(),
            r@ == v@.take(i as int),
        decreases v@.len() - i,
    {
        r.push(v[i]);
        assert(v@.take(i + 1) =~= v@.take(i as int).push(v@[i as int]));
        i = i + 1;
    }
    assert(v@.take(v@.len() as int) =~= v@);
    r
}

/// A bound as it is stored: huge bounds say nothing, and very strong ones are
/// weakened to the smallest bound that is kept.
pub open spec fn clamp_spec(c: int) -> i64 {
    if c > POS_BOUND {
        INF
    } else if c < NEG_BOUND {
        NEG_BOUND
    } else {
        c as i64
    }
}

/// Brings a bound into the range that is stored.
pub fn clamp_upper_bound(c: i64) -> (r: i64)
    ensures
        r == clamp_spec(c as int),
{
    if c > POS_BOUND {
        INF
    } else if c < NEG_BOUND {
        NEG_BOUND
    } else {
        c
    }
}

/// The bound on `x - z` that follows from bounds on `x - y` and `y - z`.
pub open spec fn chain(a: i64, b: i64) -> i64 {
    if a >= INF || b >= INF || a + b < i64::MIN {
        INF
    } else {
        clamp_spec(a + b)
    }
}

/// Adds two bounds; the sum says nothing if either bound does.
pub fn clamped_add(a: i64, b: i64) -> (r: i64)
    ensures
        r == chain(a, b),
{
    if a >= INF || b >= INF {
        return INF;
    }
    match a.checked_add(b) {
        Some(sum) => clamp_upper_bound(sum),
        None => INF,
    }
}

/// Ranges of one register, as a signed and an unsigned value, in 32 and in 64
/// bits.
#[derive(Debug, Clone, Copy, PartialEq, Eq, Structural)]
pub struct Bounds {
    pub s32_min: i32,
    pub s32_max: i32,
    pub u32_min: u32,
    pub u32_max: u32,
    pub s64_min: i64,
    pub s64_max: i64,
    pub u64_min: u64,
    pub u64_max: u64,
}

impl Bounds {
    pub open spec fn spec_unknown() -> Bounds {
        Bounds {
            s32_min: i32::MIN,
            s32_max: i32::MAX,
            u32_min: 0,
            u32_max: u32::MAX,
            s64_min: i64::MIN,
            s64_max: i64::MAX,
            u64_min: 0,
            u64_max: u64::MAX,
        }
    }

    /// The ranges of a register about which nothing is known.
    #[verifier::when_used_as_spec(spec_unknown)]
    pub fn unknown() -> (r: Self)
        ensures
            r == Bounds::spec_unknown(),
    {
        Bounds {
            s32_min: i32::MIN,
            s32_max: i32::MAX,
            u32_min: 0,
            u32_max: u32::MAX,
            s64_min: i64::MIN,
            s64_max: i64::MAX,
            u64_min: 0,
            u64_max: u64::MAX,
        }
    }

    /// Each end of a range that moved outward goes to its extreme.
    pub open spec fn spec_widen(self, newer: Bounds) -> Bounds {
        Bounds {
            s32_min: if newer.s32_min < self.s32_min { i32::MIN } else { self.s32_min },
            s32_max: if newer.s32_max > self.s32_max { i32::MAX } else { self.s32_max },
            u32_min: if newer.u32_min < self.u32_min { 0 } else { self.u32_min },
            u32_max: if newer.u32_max > self.u32_max { u32::MAX } else { self.u32_max },
            s64_min: if newer.s64_min < self.s64_min { i64::MIN } else { self.s64_min },
            s64_max: if newer.s64_max > self.s64_max { i64::MAX } else { self.s64_max },
            u64_min: if newer.u64_min < self.u64_min { 0 } else { self.u64_min },
            u64_max: if newer.u64_max > self.u64_max { u64::MAX } else { self.u64_max },
        }
    }

    fn widen(self, newer: Bounds) -> (r: Bounds)
        ensures
            r == self.spec_widen(newer),
    {
        Bounds {
            s32_min: if newer.s32_min < self.s32_min { i32::MIN } else { self.s32_min },
            s32_max: if newer.s32_max > self.s32_max { i32::MAX } else { self.s32_max },
            u32_min: if newer.u32_min < self.u32_min { 0 } else { self.u32_min },
            u32_max: if newer.u32_max > self.u32_max { u32::MAX } else { self.u32_max },
            s64_min: if newer.s64_min < self.s64_min { i64::MIN } else { self.s64_min },
            s64_max: if newer.s64_max > self.s64_max { i64::MAX } else { self.s64_max },
            u64_min: if newer.u64_min < self.u64_min { 0 } else { self.u64_min },
            u64_max: if newer.u64_max > self.u64_max { u64::MAX } else { self.u64_max },
        }
    }

    /// The common part of two sets of ranges.
    pub open spec fn spec_meet(self, other: Bounds) -> Bounds {
        Bounds {
            s32_min: max_i32(self.s32_min, other.s32_min),
            s32_max: min_i32(self.s32_max, other.s32_max),
            u32_min: max_u32(self.u32_min, other.u32_min),
            u32_max: min_u32(self.u32_max, other.u32_max),
            s64_min: max_i64(self.s64_min, other.s64_min),
            s64_max: min_i64(self.s64_max, other.s64_max),
            u64_min: max_u64(self.u64_min, other.u64_min),
            u64_max: min_u64(self.u64_max, other.u64_max),
        }
    }

    fn meet(self, other: Bounds) -> (r: Bounds)
        ensures
            r == self.spec_meet(other),
    {
        Bounds {
            s32_min: max_i32(self.s32_min, other.s32_min),
            s32_max: min_i32(self.s32_max, other.s32_max),
            u32_min: max_u32(self.u32_min, other.u32_min),
            u32_max: min_u32(self.u32_max, other.u32_max),
            s64_min: max_i64(self.s64_min, other.s64_min),
            s64_max: min_i64(self.s64_max, other.s64_max),
            u64_min: max_u64(self.u64_min, other.u64_min),
            u64_max: min_u64(self.u64_max, other.u64_max),
        }
    }
}

/// What a [`Dbm`] holds: the matrix, the per-register ranges and, when it is
/// tracked, where the entries came from.
#[verifier::ext_equal]
pub struct Zone {
    pub m: Seq<Seq<i64>>,
    pub bounds: Seq<Bounds>,
    pub prov: Option<Trace>,
}

impl Zone {
    /// The zone over `n` variables that says nothing.
    pub open spec fn top(n: nat) -> Zone {
        Zone {
            m: table(n, |i: int, j: int| if i == j { 0i64 } else { INF }),
            bounds: Seq::new(n, |i: int| Bounds::unknown()),
            prov: None,
        }
    }

    /// Matrix, ranges and trace all belong to `n` variables.
    pub open spec fn sized(self, n: int) -> bool {
        &&& square(self.m, n)
        &&& self.bounds.len() == n
        &&& self.prov matches Some(t) ==> square(t.edges, n)
    }

    /// The zone with entry `(i, j)` replaced; origins are left alone.
    pub open spec fn put(self, i: int, j: int, v: i64) -> Zone {
        Zone { m: put(self.m, i, j, v), ..self }
    }

    /// The zone with the origin of entry `(i, j)` replaced, if origins are
    /// tracked.
    pub open spec fn mark(self, i: int, j: int, o: EdgeOrigin) -> Zone {
        match self.prov {
            Some(t) => Zone { prov: Some(Trace { edges: put(t.edges, i, j, o), ..t }), ..self },
            None => self,
        }
    }

    /// The zone with entry `(i, j)` stated by the current instruction.
    pub open spec fn mark_stated(self, i: int, j: int) -> Zone {
        match self.prov {
            Some(t) => self.mark(i, j, EdgeOrigin::Primitive { pc: t.pc }),
            None => self,
        }
    }

    /// The zone with `i - j <= c` added.
    pub open spec fn add(self, i: int, j: int, c: int) -> Zone {
        let c = clamp_spec(c);
        if c != INF && c < self.m[i][j] {
            self.put(i, j, c).mark_stated(i, j)
        } else {
            self
        }
    }

    /// The zone without what it said of variable `x`.
    pub open spec fn forget(self, x: int) -> Zone {
        let n = self.m.len();
        Zone {
            m: table(
                n,
                |i: int, j: int|
                    if i == x || j == x {
                        if i == j { 0i64 } else { INF }
                    } else {
                        self.m[i][j]
                    },
            ),
            bounds: self.bounds.update(x, Bounds::unknown()),
            prov: match self.prov {
                Some(t) => Some(
                    Trace {
                        edges: table(
                            n,
                            |i: int, j: int|
                                if i == x || j == x { EdgeOrigin::Init } else { t.edges[i][j] },
                        ),
                        ..t
                    },
                ),
                None => None,
            },
        }
    }

    /// Tightens entry `(i, j)` with the bound that goes through `k`, where
    /// `dik` bounds `i - k`.
    pub open spec fn relax(self, k: int, i: int, dik: i64, j: int) -> Zone {
        let via = chain(dik, self.m[k][j]);
        if self.m[k][j] < INF && via < self.m[i][j] {
            self.put(i, j, via).mark(i, j, EdgeOrigin::Derived { via: k as usize })
        } else {
            self
        }
    }

    /// Tightens the first `n` entries of row `i` through `k`.
    pub open spec fn relax_row(self, k: int, i: int, dik: i64, n: nat) -> Zone
        decreases n,
    {
        if n == 0 {
            self
        } else {
            self.relax_row(k, i, dik, (n - 1) as nat).relax(k, i, dik, n - 1)
        }
    }

    /// Tightens the first `n` rows through `k`.
    pub open spec fn relax_rows(self, k: int, n: nat) -> Zone
        decreases n,
    {
        if n == 0 {
            self
        } else {
            let z = self.relax_rows(k, (n - 1) as nat);
            let dik = z.m[n - 1][k];
            if dik >= INF {
                z
            } else {
                z.relax_row(k, n - 1, dik, self.m.len())
            }
        }
    }

    /// Tightens every entry through each of the first `n` variables in turn.
    pub open spec fn close_through(self, n: nat) -> Zone
        decreases n,
    {
        if n == 0 {
            self
        } else {
            self.close_through((n - 1) as nat).relax_rows(n - 1, self.m.len())
        }
    }

    /// Transitive closure: every entry tightened through every variable.
    pub open spec fn close(self) -> Zone {
        self.close_through(self.m.len())
    }

    /// Some diagonal entry is negative.
    pub open spec fn inconsistent(self) -> bool {
        exists|i: int| 0 <= i < self.m.len() && (#[trigger] self.m[i])[i] < 0
    }

    /// Each entry or range end that became looser is given up.
    pub open spec fn widen(self, newer: Zone) -> Zone {
        let n = self.m.len();
        Zone {
            m: table(
                n,
                |i: int, j: int| if newer.m[i][j] > self.m[i][j] { INF } else { self.m[i][j] },
            ),
            bounds: Seq::new(n, |i: int| self.bounds[i].spec_widen(newer.bounds[i])),
            prov: None,
        }
    }

    /// The tighter of the two bounds at each entry and range end.
    pub open spec fn narrow(self, other: Zone) -> Zone {
        let n = self.m.len();
        Zone {
            m: table(n, |i: int, j: int| min_i64(self.m[i][j], other.m[i][j])),
            bounds: Seq::new(n, |i: int| self.bounds[i].spec_meet(other.bounds[i])),
            prov: None,
        }
    }

    /// Every finite entry of row and column `x` marked as stated now.
    pub open spec fn stamp(self, x: int) -> Zone {
        match self.prov {
            Some(t) => Zone {
                prov: Some(
                    Trace {
                        edges: table(
                            self.m.len(),
                            |i: int, j: int|
                                if (i == x || j == x) && i != j && self.m[i][j] < INF {
                                    EdgeOrigin::Primitive { pc: t.pc }
                                } else {
                                    t.edges[i][j]
                                },
                        ),
                        ..t
                    },
                ),
                ..self
            },
            None => self,
        }
    }
}

/// One constraint of a path: `to - from <= weight`.
#[derive(Debug, Clone, Copy, PartialEq, Eq, Structural)]
pub struct PrimitiveEdge {
    pub to: Reg,
    pub from: Reg,
    pub weight: i64,
    /// The instruction that stated the constraint.
    pub pc: usize,
}

/// A difference-bound matrix with per-register ranges.
#[derive(Debug)]
pub struct Dbm {
    pub data: Vec<Vec<i64>>,
    pub bounds: Vec<Bounds>,
    pub provenance: Option<ProvenanceTracker>,
}

impl Dbm {
    pub open spec fn view(&self) -> Zone {
        Zone {
            m: rows(self.data@),
            bounds: self.bounds@,
            prov: match self.provenance {
                Some(p) => Some(p@),
                None => None,
            },
        }
    }

    /// Matrix, ranges and trace have the same number of variables.
    pub open spec fn wf(&self) -> bool {
        self@.sized(self.data@.len() as int)
    }

    /// A well-formed matrix over all registers and anchors.
    pub open spec fn full(&self) -> bool {
        self@.sized(DBM_DIM as int)
    }

    /// The matrix over `n` variables that says nothing.
    pub fn with_dim(n: usize) -> (r: Self)
        ensures
            r@ == Zone::top(n as nat),
            r@.sized(n as int),
    {
        let ghost t = Zone::top(n as nat);
        let mut data: Vec<Vec<i64>> = Vec::new();
        let mut bounds: Vec<Bounds> = Vec::new();
        let mut i: usize = 0;
        while i < n
            invariant
                i <= n,
                t == Zone::top(n as nat),
                data@.len() == i,
                bounds@.len() == i,
                forall|a: int| 0 <= a < i ==> (#[trigger] data@[a])@ == t.m[a],
                forall|a: int| 0 <= a < i ==> bounds@[a] == Bounds::unknown(),
            decreases n - i,
        {
            let mut row: Vec<i64> = Vec::new();
            let mut j: usize = 0;
            while j < n
                invariant
                    i < n,
                    j <= n,
                    t == Zone::top(n as nat),
                    row@.len() == j,
                    forall|b: int| 0 <= b < j ==> row@[b] == t.m[i as int][b],
                decreases n - j,
            {
                row.push(if i == j { 0 } else { INF });
                j = j + 1;
            }
            assert(row@ =~= t.m[i as int]);
            data.push(row);
            bounds.push(Bounds::unknown());
            i = i + 1;
        }
        let r = Dbm { data, bounds, provenance: None };
        assert(r@.m =~= t.m);
        assert(r@.bounds =~= t.bounds);
        r
    }

    /// The matrix over all registers and anchors that says nothing.
    pub fn new() -> (r: Self)
        ensures
            r@ == Zone::top(DBM_DIM as nat),
            r.full(),
    {
        Dbm::with_dim(DBM_DIM)
    }

    /// Starts to track where entries come from.
    pub fn enable_provenance(&mut self)
        requires
            old(self).wf(),
        ensures
            final(self)@.m == old(self)@.m,
            final(self)@.bounds == old(self)@.bounds,
            final(self)@.prov == Some(
                Trace {
                    edges: table(old(self)@.m.len(), |i: int, j: int| EdgeOrigin::Init),
                    pc: 0,
                },
            ),
            final(self).wf(),
    {
        let n: usize = self.num_vars();
        self.provenance = Some(ProvenanceTracker::new(n));
    }

    /// Names the instruction that entries are attributed to from now on.
    pub fn set_current_pc(&mut self, pc: usize)
        ensures
            final(self)@.m == old(self)@.m,
            final(self)@.bounds == old(self)@.bounds,
            final(self)@.prov == match old(self)@.prov {
                Some(t) => Some((Trace { pc: pc, ..t })),
                None => None,
            },
    {
        match &mut self.provenance {
            Some(p) => {
                p.current_pc = pc;
            },
            None => {},
        }
    }

    /// The tracker of entry origins, if there is one.
    pub fn provenance(&self) -> (r: Option<&ProvenanceTracker>)
        ensures
            r matches Some(p) ==> self@.prov == Some(p@),
            r is None ==> self@.prov is None,
    {
        match &self.provenance {
            Some(p) => Some(p),
            None => None,
        }
    }

    /// Number of variables.
    pub fn num_vars(&self) -> (r: usize)
        ensures
            r == self@.m.len(),
    {
        self.data.len()
    }

    /// Number of variables.
    pub fn dim(&self) -> (r: usize)
        ensures
            r == self@.m.len(),
    {
        self.data.len()
    }

    /// Entry `(i, j)`.
    pub fn raw(&self, i: usize, j: usize) -> (r: i64)
        requires
            i < self@.m.len(),
            j < self@.m[i as int].len(),
        ensures
            r == self@.m[i as int][j as int],
    {
        self.data[i][j]
    }

    /// Entry `(i, j)`.
    pub fn get_idx(&self, i: usize, j: usize) -> (r: i64)
        requires
            i < self@.m.len(),
            j < self@.m[i as int].len(),
        ensures
            r == self@.m[i as int][j as int],
    {
        self.data[i][j]
    }

    /// Replaces entry `(i, j)`.
    pub fn set_idx(&mut self, i: usize, j: usize, val: i64)
        requires
            i < old(self)@.m.len(),
            j < old(self)@.m[i as int].len(),
        ensures
            final(self)@ == old(self)@.put(i as int, j as int, val),
            old(self).wf() ==> final(self).wf(),
            old(self).wf() ==> forall|a: int, b: int|
                0 <= a < old(self)@.m.len() && 0 <= b < old(self)@.m.len()
                    ==> #[trigger] final(self)@.m[a][b] == if a == i && b == j {
                    val
                } else {
                    old(self)@.m[a][b]
                },
    {
        put_cell(&mut self.data, i, j, val);
        proof {
            if old(self).wf() {
                lemma_put_square(old(self)@.m, i as int, j as int, val, old(self)@.m.len() as int);
                assert(self.data@.len() == rows(self.data@).len());
            }
        }
    }

    /// The bound on `i - j`.
    pub fn get(&self, i: Reg, j: Reg) -> (r: i64)
        requires
            self.full(),
        ensures
            r == self@.m[i.idx() as int][j.idx() as int],
    {
        self.get_idx(i.idx(), j.idx())
    }

    /// Replaces the bound on `i - j`.
    pub fn set(&mut self, i: Reg, j: Reg, val: i64)
        requires
            old(self).full(),
        ensures
            final(self)@ == old(self)@.put(i.idx() as int, j.idx() as int, val),
            final(self).full(),
    {
        self.set_idx(i.idx(), j.idx(), val);
    }

    /// Records an origin for entry `(i, j)`, if origins are tracked.
    fn mark(&mut self, i: usize, j: usize, o: EdgeOrigin)
        requires
            old(self).wf(),
            i < old(self)@.m.len(),
            j < old(self)@.m.len(),
        ensures
            final(self)@ == old(self)@.mark(i as int, j as int, o),
            final(self).wf(),
    {
        match &mut self.provenance {
            Some(p) => {
                put_cell(&mut p.edges, i, j, o);
            },
            None => {},
        }
        assert(self@ =~= old(self)@.mark(i as int, j as int, o));
    }

    /// Records that the current instruction stated entry `(i, j)`.
    fn mark_stated(&mut self, i: usize, j: usize)
        requires
            old(self).wf(),
            i < old(self)@.m.len(),
            j < old(self)@.m.len(),
        ensures
            final(self)@ == old(self)@.mark_stated(i as int, j as int),
            final(self).wf(),
    {
        let pc: usize = match &self.provenance {
            Some(p) => p.current_pc,
            None => 0,
        };
        self.mark(i, j, EdgeOrigin::Primitive { pc });
    }

    /// Marks the finite entries of row and column `reg_idx` as stated by the
    /// current instruction.
    pub fn stamp_provenance_for_var(&mut self, reg_idx: usize)
        requires
            old(self).wf(),
            reg_idx < old(self)@.m.len(),
        ensures
            final(self)@ == old(self)@.stamp(reg_idx as int),
            final(self).wf(),
    {
        let n: usize = self.num_vars();
        let ghost z = old(self)@;
        let ghost x = reg_idx as int;
        let mut j: usize = 0;
        while j < n
            invariant
                j <= n,
                n == z.m.len(),
                x == reg_idx,
                reg_idx < n,
                z.sized(n as int),
                self.wf(),
                self@.m == z.m,
                self@.bounds == z.bounds,
                self@.prov is Some <==> z.prov is Some,
                self@.prov matches Some(t) ==> t.pc == z.prov->0.pc && forall|a: int, b: int|
                    0 <= a < n && 0 <= b < n ==> #[trigger] t.edges[a][b] == if (a == x && b < j
                        || b == x && a < j) && a != b && z.m[a][b] < INF {
                        EdgeOrigin::Primitive { pc: t.pc }
                    } else {
                        z.prov->0.edges[a][b]
                    },
            decreases n - j,
        {
            if reg_idx != j && self.get_idx(reg_idx, j) < INF {
                self.mark_stated(reg_idx, j);
            }
            if reg_idx != j && self.get_idx(j, reg_idx) < INF {
                self.mark_stated(j, reg_idx);
            }
            j = j + 1;
        }
        proof {
            if z.prov is Some {
                let want = z.stamp(x).prov->0.edges;
                let got = self@.prov->0.edges;
                assert(got =~= want) by {
                    assert forall|a: int| 0 <= a < n implies got[a] == want[a] by {
                        assert(got[a] =~= want[a]);
                    }
                }
            }
            assert(self@ =~= z.stamp(x));
        }
    }

    /// Adds `i - j <= c`, by matrix index.
    pub fn add_constraint_idx(&mut self, i: usize, j: usize, c: i64)
        requires
            old(self).wf(),
            i < old(self)@.m.len(),
            j < old(self)@.m.len(),
        ensures
            final(self)@ == old(self)@.add(i as int, j as int, c as int),
            final(self).wf(),
            final(self)@.m.len() == old(self)@.m.len(),
    {
        let c: i64 = clamp_upper_bound(c);
        if c == INF {
            return;
        }
        if c < self.get_idx(i, j) {
            self.set_idx(i, j, c);
            self.mark_stated(i, j);
        }
    }

    /// Adds `i - j <= c`.
    pub fn add_constraint(&mut self, i: Reg, j: Reg, c: i64)
        requires
            old(self).full(),
        ensures
            final(self)@ == old(self)@.add(i.idx() as int, j.idx() as int, c as int),
            final(self).full(),
    {
        self.add_constraint_idx(i.idx(), j.idx(), c);
    }

    /// Forgets everything known of variable `i`, by matrix index.
    pub fn forget_idx(&mut self, i: usize)
        requires
            old(self).wf(),
            i < old(self)@.m.len(),
        ensures
            final(self)@ == old(self)@.forget(i as int),
            final(self).wf(),
            final(self)@.m.len() == old(self)@.m.len(),
    {
        let n: usize = self.num_vars();
        let ghost z = old(self)@;
        let ghost x = i as int;
        let mut j: usize = 0;
        while j < n
            invariant
                j <= n,
                n == z.m.len(),
                x == i,
                i < n,
                z.sized(n as int),
                self.wf(),
                self@.m.len() == n,
                self@.bounds == z.bounds,
                self@.prov is Some <==> z.prov is Some,
                forall|a: int, b: int|
                    0 <= a < n && 0 <= b < n ==> #[trigger] self@.m[a][b] == if a == x && b < j
                        || b == x && a < j {
                        if a == b { 0i64 } else { INF }
                    } else {
                        z.m[a][b]
                    },
                self@.prov matches Some(t) ==> t.pc == z.prov->0.pc && forall|a: int, b: int|
                    0 <= a < n && 0 <= b < n ==> #[trigger] t.edges[a][b] == if a == x && b < j || b
                        == x && a < j {
                        EdgeOrigin::Init
                    } else {
                        z.prov->0.edges[a][b]
                    },
            decreases n - j,
        {
            let v: i64 = if i == j { 0 } else { INF };
            self.set_idx(i, j, v);
            self.set_idx(j, i, v);
            self.mark(i, j, EdgeOrigin::Init);
            self.mark(j, i, EdgeOrigin::Init);
            j = j + 1;
        }
        self.bounds[i] = Bounds::unknown();
        proof {
            let w = z.forget(x);
            assert(self@.m =~= w.m) by {
                assert forall|a: int| 0 <= a < n implies self@.m[a] == w.m[a] by {
                    assert(self@.m[a] =~= w.m[a]);
                }
            }
            if z.prov is Some {
                let got = self@.prov->0.edges;
                let want = w.prov->0.edges;
                assert(got =~= want) by {
                    assert forall|a: int| 0 <= a < n implies got[a] == want[a] by {
                        assert(got[a] =~= want[a]);
                    }
                }
            }
            assert(self@ =~= w);
        }
    }

    /// Forgets everything known of register `x`, which is no anchor.
    pub fn forget_var(&mut self, x: Reg)
        requires
            old(self).full(),
            !x.is_anchor(),
        ensures
            final(self)@ == old(self)@.forget(x.idx() as int),
            final(self).full(),
    {
        self.forget_idx(x.idx());
    }

    /// Transitive closure.
    pub fn close(&mut self)
        requires
            old(self).wf(),
        ensures
            final(self)@ == old(self)@.close(),
            final(self).wf(),
            final(self)@.m.len() == old(self)@.m.len(),
    {
        let n: usize = self.num_vars();
        let ghost z = old(self)@;
        let mut k: usize = 0;
        while k < n
            invariant
                k <= n,
                n == z.m.len(),
                self@ == z.close_through(k as nat),
                self@.sized(n as int),
            decreases n - k,
        {
            let ghost zk = self@;
            let mut i: usize = 0;
            while i < n
                invariant
                    i <= n,
                    k < n,
                    zk.m.len() == n,
                    self@ == zk.relax_rows(k as int, i as nat),
                    self@.sized(n as int),
                decreases n - i,
            {
                let dik: i64 = self.get_idx(i, k);
                let ghost zi = self@;
                if dik < INF {
                    let mut j: usize = 0;
                    while j < n
                        invariant
                            j <= n,
                            i < n,
                            k < n,
                            self@ == zi.relax_row(k as int, i as int, dik, j as nat),
                            self@.sized(n as int),
                        decreases n - j,
                    {
                        let dkj: i64 = self.get_idx(k, j);
                        if dkj < INF {
                            let via: i64 = clamped_add(dik, dkj);
                            if via < self.get_idx(i, j) {
                                self.set_idx(i, j, via);
                                self.mark(i, j, EdgeOrigin::Derived { via: k });
                            }
                        }
                        j = j + 1;
                    }
                }
                i = i + 1;
            }
            k = k + 1;
        }
    }

    /// Whether some diagonal entry is negative.
    pub fn is_inconsistent(&self) -> (r: bool)
        requires
            self.wf(),
        ensures
            r == self@.inconsistent(),
    {
        let mut i: usize = 0;
        while i < self.num_vars()
            invariant
                i <= self@.m.len(),
                self.wf(),
                forall|a: int| 0 <= a < i ==> (#[trigger] self@.m[a])[a] >= 0,
            decreases self@.m.len() - i,
        {
            if self.get_idx(i, i) < 0 {
                assert(self@.m[i as int][i as int] < 0);
                return true;
            }
            i = i + 1;
        }
        false
    }

    /// Widening: each entry or range end that `newer` loosens is given up.
    pub fn widen(&self, newer: &Dbm) -> (r: Dbm)
        requires
            self.wf(),
            newer@.sized(self@.m.len() as int),
        ensures
            r@ == self@.widen(newer@),
            r@.sized(self@.m.len() as int),
    {
        let n: usize = self.num_vars();
        let ghost w = self@.widen(newer@);
        let mut data: Vec<Vec<i64>> = Vec::new();
        let mut bounds: Vec<Bounds> = Vec::new();
        let mut i: usize = 0;
        while i < n
            invariant
                i <= n,
                n == self@.m.len(),
                w == self@.widen(newer@),
                self.wf(),
                newer@.sized(n as int),
                data@.len() == i,
                bounds@.len() == i,
                forall|a: int| 0 <= a < i ==> (#[trigger] data@[a])@ == w.m[a],
                forall|a: int| 0 <= a < i ==> bounds@[a] == w.bounds[a],
            decreases n - i,
        {
            let mut row: Vec<i64> = Vec::new();
            let mut j: usize = 0;
            while j < n
                invariant
                    i < n,
                    j <= n,
                    n == self@.m.len(),
                    w == self@.widen(newer@),
                    self.wf(),
                    newer@.sized(n as int),
                    row@.len() == j,
                    forall|b: int| 0 <= b < j ==> row@[b] == w.m[i as int][b],
                decreases n - j,
            {
                assert(self@.m[i as int].len() == n && newer@.m[i as int].len() == n);
                let mine: i64 = self.data[i][j];
                let theirs: i64 = newer.data[i][j];
                row.push(if theirs > mine { INF } else { mine });
                j = j + 1;
            }
            assert(row@ =~= w.m[i as int]);
            data.push(row);
            bounds.push(self.bounds[i].widen(newer.bounds[i]));
            i = i + 1;
        }
        let r = Dbm { data, bounds, provenance: None };
        assert(r@.m =~= w.m);
        assert(r@.bounds =~= w.bounds);
        r
    }

    /// Narrowing: the tighter of the two at each entry and range end.
    pub fn narrow(&self, other: &Dbm) -> (r: Dbm)
        requires
            self.wf(),
            other@.sized(self@.m.len() as int),
        ensures
            r@ == self@.narrow(other@),
            r@.sized(self@.m.len() as int),
    {
        let n: usize = self.num_vars();
        let ghost w = self@.narrow(other@);
        let mut data: Vec<Vec<i64>> = Vec::new();
        let mut bounds: Vec<Bounds> = Vec::new();
        let mut i: usize = 0;
        while i < n
            invariant
                i <= n,
                n == self@.m.len(),
                w == self@.narrow(other@),
                self.wf(),
                other@.sized(n as int),
                data@.len() == i,
                bounds@.len() == i,
                forall|a: int| 0 <= a < i ==> (#[trigger] data@[a])@ == w.m[a],
                forall|a: int| 0 <= a < i ==> bounds@[a] == w.bounds[a],
            decreases n - i,
        {
            let mut row: Vec<i64> = Vec::new();
            let mut j: usize = 0;
            while j < n
                invariant
                    i < n,
                    j <= n,
                    n == self@.m.len(),
                    w == self@.narrow(other@),
                    self.wf(),
                    other@.sized(n as int),
                    row@.len() == j,
                    forall|b: int| 0 <= b < j ==> row@[b] == w.m[i as int][b],
                decreases n - j,
            {
                assert(self@.m[i as int].len() == n && other@.m[i as int].len() == n);
                row.push(min_i64(self.data[i][j], other.data[i][j]));
                j = j + 1;
            }
            assert(row@ =~= w.m[i as int]);
            data.push(row);
            bounds.push(self.bounds[i].meet(other.bounds[i]));
            i = i + 1;
        }
        let r = Dbm { data, bounds, provenance: None };
        assert(r@.m =~= w.m);
        assert(r@.bounds =~= w.bounds);
        r
    }

    fn duplicate(&self) -> (r: Self)
        ensures
            r@ == self@,
    {
        let mut data: Vec<Vec<i64>> = Vec::new();
        let mut i: usize = 0;
        while i < self.data.len()
            invariant
                i <= self.data@.len(),
                data@.len() == i,
                forall|a: int| 0 <= a < i ==> (#[trigger] data@[a])@ == self.data@[a]@,
            decreases self.data@.len() - i,
        {
            let row = copy_row(&self.data[i]);
            data.push(row);
            i = i + 1;
        }
        assert(rows(data@) =~= rows(self.data@));
        let provenance = match &self.provenance {
            Some(p) => Some(p.duplicate()),
            None => None,
        };
        Dbm { data, bounds: copy_row(&self.bounds), provenance }
    }

    /// Whether the two matrices and their ranges are the same. Where entries
    /// came from does not matter.
    fn same(&self, other: &Self) -> (r: bool)
        ensures
            r == (self@.m == other@.m && self@.bounds == other@.bounds),
    {
        if self.data.len() != other.data.len() || self.bounds.len() != other.bounds.len() {
            return false;
        }
        let mut i: usize = 0;
        while i < self.data.len()
            invariant
                i <= self.data@.len(),
                self.data@.len() == other.data@.len(),
                forall|a: int| 0 <= a < i ==> self@.m[a] == other@.m[a],
            decreases self.data@.len() - i,
        {
            if self.data[i].len() != other.data[i].len() {
                assert(self@.m[i as int].len() != other@.m[i as int].len());
                return false;
            }
            let mut j: usize = 0;
            while j < self.data[i].len()
                invariant
                    i < self.data@.len(),
                    self.data@.len() == other.data@.len(),
                    self.data@[i as int]@.len() == other.data@[i as int]@.len(),
                    j <= self.data@[i as int]@.len(),
                    forall|b: int| 0 <= b < j ==> self@.m[i as int][b] == other@.m[i as int][b],
                decreases self.data@[i as int]@.len() - j,
            {
                if self.data[i][j] != other.data[i][j] {
                    assert(self@.m[i as int][j as int] != other@.m[i as int][j as int]);
                    return false;
                }
                j = j + 1;
            }
            assert(self@.m[i as int] =~= other@.m[i as int]);
            i = i + 1;
        }
        assert(self@.m =~= other@.m);
        let mut k: usize = 0;
        while k < self.bounds.len()
            invariant
                k <= self.bounds@.len(),
                self.bounds@.len() == other.bounds@.len(),
                self@.m == other@.m,
                forall|a: int| 0 <= a < k ==> self.bounds@[a] == other.bounds@[a],
            decreases self.bounds@.len() - k,
        {
            if self.bounds[k] != other.bounds[k] {
                return false;
            }
            k = k + 1;
        }
        assert(self@.bounds =~= other@.bounds);
        true
    }
}

impl Clone for Dbm {
    fn clone(&self) -> (r: Self)
        ensures
            r@ == self@,
    {
        self.duplicate()
    }
}

impl PartialEq for Dbm {
    fn eq(&self, other: &Self) -> (r: bool) {
        self.same(other)
    }
}

impl vstd::std_specs::cmp::PartialEqSpecImpl for Dbm {
    open spec fn obeys_eq_spec() -> bool {
        true
    }

    open spec fn eq_spec(&self, other: &Self) -> bool {
        self@.m == other@.m && self@.bounds == other@.bounds
    }
}

impl Eq for Dbm {}

impl Default for Dbm {
    fn default() -> (r: Self)
        ensures
            r@ == Zone::top(DBM_DIM as nat),
            r.full(),
    {
        Dbm::new()
    }
}

} // verus!
