//! A difference-bound matrix as text, and the constraints behind an entry.
use crate::domains::zone::dbm::{Dbm, EdgeOrigin, PrimitiveEdge, Zone, INF};
use crate::domains::zone::ops::wrapped_neg;
use crate::machine::reg::{Reg, DBM_DIM, NUM_PLAIN};
use crate::text::{contents, dec, dec_text, join, joined, pad_left, push_dec, push_nat, push_padded};
use vstd::prelude::*;

verus! {

/// An entry as it is shown.
pub open spec fn cell_text(v: i64) -> Seq<char> {
    if v >= INF { "INF"@ } else { dec(v as int) }
}

/// The name shown for matrix index `i`.
pub open spec fn index_name(i: int) -> Seq<char> {
    match Reg::idx_to_reg(i as usize) {
        Some(r) => r.name()@,
        None => "???"@,
    }
}

/// The names of the first `k` indices in columns.
pub open spec fn header_text(k: nat) -> Seq<char>
    decreases k,
{
    if k == 0 {
        seq![]
    } else {
        header_text((k - 1) as nat) + pad_left(index_name(k - 1), 12) + " "@
    }
}

/// The first `k` entries of a row in columns.
pub open spec fn cells_text(row: Seq<i64>, k: nat) -> Seq<char>
    decreases k,
{
    if k == 0 {
        seq![]
    } else {
        cells_text(row, (k - 1) as nat) + pad_left(cell_text(row[k - 1]), 12) + " "@
    }
}

/// The first `k` rows, `n` entries each, with a label of width `w` before each.
pub open spec fn rows_text(m: Seq<Seq<i64>>, n: nat, w: nat, k: nat) -> Seq<char>
    decreases k,
{
    if k == 0 {
        seq![]
    } else {
        rows_text(m, n, w, (k - 1) as nat) + pad_left(index_name(k - 1), w) + " "@ + cells_text(
            m[k - 1],
            n,
        ) + "\n"@
    }
}

/// The leading `n` by `n` part of the matrix in columns.
pub open spec fn matrix_text(m: Seq<Seq<i64>>, n: nat, w: nat, title: Seq<char>) -> Seq<char> {
    "DBM ["@ + dec(n as int) + " x "@ + dec(n as int) + title + "\n"@ + pad_left(""@, w) + " "@
        + header_text(n) + "\n"@ + rows_text(m, n, w, n)
}

/// How the bounds on `i - j` and `j - i` are shown, if there are any.
pub open spec fn relation_text(ij: i64, ji: i64, i: Seq<char>, j: Seq<char>) -> Option<Seq<char>> {
    let lo = wrapped_neg(ji) as int;
    let pair = i + "-"@ + j;
    if ij >= INF && ji >= INF {
        None
    } else if ji >= INF {
        Some(pair + "<="@ + dec(ij as int))
    } else if ij >= INF {
        Some(pair + ">="@ + dec(lo))
    } else if lo == ij {
        Some(pair + "=="@ + dec(lo))
    } else {
        Some(pair + " in ["@ + dec(lo) + ","@ + dec(ij as int) + "]"@)
    }
}

/// The relations between `a` and the indices after it, below `k`.
pub open spec fn relations_of(m: Seq<Seq<i64>>, a: int, k: int) -> Seq<Seq<char>>
    decreases k,
{
    if k <= a + 1 || k <= 0 {
        seq![]
    } else {
        let rest = relations_of(m, a, k - 1);
        match relation_text(m[a][k - 1], m[k - 1][a], index_name(a), index_name(k - 1)) {
            Some(t) => rest.push(t),
            None => rest,
        }
    }
}

/// The relations between the indices from 1 below `k` and those after them.
pub open spec fn all_relations(m: Seq<Seq<i64>>, k: int) -> Seq<Seq<char>>
    decreases k,
{
    if k <= 1 {
        seq![]
    } else {
        all_relations(m, k - 1) + relations_of(m, k - 1, m.len() as int)
    }
}

/// Appends an entry, right-aligned, and a space.
fn push_cell(out: &mut String, v: i64)
    ensures
        final(out)@ == old(out)@ + pad_left(cell_text(v), 12) + " "@,
{
    if v >= INF {
        push_padded(out, "INF", 12);
    } else {
        let t = dec_text(v);
        push_padded(out, t.as_str(), 12);
    }
    out.append(" ");
}

fn name_of_index(i: usize) -> (r: &'static str)
    ensures
        r@ == index_name(i as int),
{
    match Reg::idx_to_reg(i) {
        Some(r) => r.name(),
        None => "???",
    }
}

/// The leading `n` by `n` part of the matrix in columns.
fn render(d: &Dbm, n: usize, w: usize, title: &str) -> (r: String)
    requires
        d.wf(),
        n <= d@.m.len(),
    ensures
        r@ == matrix_text(d@.m, n as nat, w as nat, title@),
{
    let mut out = String::new();
    out.append("DBM [");
    push_nat(&mut out, n as u64);
    out.append(" x ");
    push_nat(&mut out, n as u64);
    out.append(title);
    out.append("\n");
    push_padded(&mut out, "", w);
    out.append(" ");
    let ghost top = out@;
    assert(top =~= "DBM ["@ + dec(n as int) + " x "@ + dec(n as int) + title@ + "\n"@ + pad_left(
        ""@,
        w as nat,
    ) + " "@);
    let mut j: usize = 0;
    while j < n
        invariant
            j <= n,
            out@ == top + header_text(j as nat),
        decreases n - j,
    {
        let ghost before = out@;
        push_padded(&mut out, name_of_index(j), 12);
        out.append(" ");
        assert(out@ =~= top + header_text((j + 1) as nat));
        j = j + 1;
    }
    out.append("\n");
    let ghost above = out@;
    assert(above =~= top + header_text(n as nat) + "\n"@);
    let mut i: usize = 0;
    while i < n
        invariant
            i <= n,
            n <= d@.m.len(),
            d.wf(),
            out@ == above + rows_text(d@.m, n as nat, w as nat, i as nat),
        decreases n - i,
    {
        push_padded(&mut out, name_of_index(i), w);
        out.append(" ");
        let ghost start = out@;
        assert(start =~= above + rows_text(d@.m, n as nat, w as nat, i as nat) + pad_left(
            index_name(i as int),
            w as nat,
        ) + " "@);
        let mut j: usize = 0;
        while j < n
            invariant
                j <= n,
                i < n,
                n <= d@.m.len(),
                d.wf(),
                out@ == start + cells_text(d@.m[i as int], j as nat),
            decreases n - j,
        {
            push_cell(&mut out, d.get_idx(i, j));
            assert(out@ =~= start + cells_text(d@.m[i as int], (j + 1) as nat));
            j = j + 1;
        }
        out.append("\n");
        assert(out@ =~= above + rows_text(d@.m, n as nat, w as nat, (i + 1) as nat));
        i = i + 1;
    }
    assert(out@ =~= matrix_text(d@.m, n as nat, w as nat, title@));
    out
}

/// The bounds between two variables as text, if there are any.
fn relation(d: &Dbm, a: usize, b: usize) -> (r: Option<String>)
    requires
        d.full(),
        a < DBM_DIM,
        b < DBM_DIM,
    ensures
        match r {
            Some(s) => relation_text(
                d@.m[a as int][b as int],
                d@.m[b as int][a as int],
                index_name(a as int),
                index_name(b as int),
            ) == Some(s@),
            None => relation_text(
                d@.m[a as int][b as int],
                d@.m[b as int][a as int],
                index_name(a as int),
                index_name(b as int),
            ) is None,
        },
{
    let ij: i64 = d.get_idx(a, b);
    let ji: i64 = d.get_idx(b, a);
    if ij >= INF && ji >= INF {
        return None;
    }
    let lo: i64 = if ji == i64::MIN { ji } else { -ji };
    let mut out = String::new();
    out.append(name_of_index(a));
    out.append("-");
    out.append(name_of_index(b));
    let ghost pair = index_name(a as int) + "-"@ + index_name(b as int);
    assert(out@ =~= pair);
    if ji >= INF {
        out.append("<=");
        push_dec(&mut out, ij);
    } else if ij >= INF {
        out.append(">=");
        push_dec(&mut out, lo);
    } else if lo == ij {
        out.append("==");
        push_dec(&mut out, lo);
    } else {
        out.append(" in [");
        push_dec(&mut out, lo);
        out.append(",");
        push_dec(&mut out, ij);
        out.append("]");
    }
    Some(out)
}

// ---- where an entry comes from ----------------------------------------------

/// The derivation of entry `(i, j)` ends within depth `d`.
pub open spec fn grounded(edges: Seq<Seq<EdgeOrigin>>, i: int, j: int, d: nat) -> bool
    decreases d,
{
    match edges[i][j] {
        EdgeOrigin::Derived { via } => {
            &&& d > 0
            &&& via < edges.len()
            &&& grounded(edges, i, via as int, (d - 1) as nat)
            &&& grounded(edges, via as int, j, (d - 1) as nat)
        },
        _ => true,
    }
}

impl Zone {
    /// There is no bound on `i - j` whose derivation does not end.
    pub open spec fn traceable(self, i: int, j: int) -> bool {
        self.prov is Some && self.m[i][j] < INF ==> exists|d: nat| #[trigger]
            grounded(self.prov->0.edges, i, j, d)
    }
}

/// The stated constraints that entry `(i, j)` was derived from, in path order.
pub open spec fn path_edges(
    m: Seq<Seq<i64>>,
    edges: Seq<Seq<EdgeOrigin>>,
    i: int,
    j: int,
    d: nat,
) -> Seq<PrimitiveEdge>
    decreases d,
{
    match edges[i][j] {
        EdgeOrigin::Primitive { pc } => seq![edge_at(m, i, j, pc)],
        EdgeOrigin::Derived { via } => if d == 0 {
            seq![]
        } else {
            path_edges(m, edges, i, via as int, (d - 1) as nat) + path_edges(
                m,
                edges,
                via as int,
                j,
                (d - 1) as nat,
            )
        },
        EdgeOrigin::Init => if i != j && m[i][j] < INF {
            seq![edge_at(m, i, j, 0)]
        } else {
            seq![]
        },
    }
}

/// Entry `(i, j)` as a constraint.
pub open spec fn edge_at(m: Seq<Seq<i64>>, i: int, j: int, pc: usize) -> PrimitiveEdge {
    PrimitiveEdge {
        to: Reg::idx_to_reg(i as usize)->0,
        from: Reg::idx_to_reg(j as usize)->0,
        weight: m[i][j],
        pc,
    }
}

/// A derivation that ends gives the same constraints at any sufficient depth.
pub proof fn law_path_does_not_depend_on_depth(
    m: Seq<Seq<i64>>,
    edges: Seq<Seq<EdgeOrigin>>,
    i: int,
    j: int,
    d: nat,
    e: nat,
)
    requires
        grounded(edges, i, j, d),
        grounded(edges, i, j, e),
    ensures
        path_edges(m, edges, i, j, d) == path_edges(m, edges, i, j, e),
    decreases d,
{
    if let EdgeOrigin::Derived { via } = edges[i][j] {
        law_path_does_not_depend_on_depth(
            m,
            edges,
            i,
            via as int,
            (d - 1) as nat,
            (e - 1) as nat,
        );
        law_path_does_not_depend_on_depth(
            m,
            edges,
            via as int,
            j,
            (d - 1) as nat,
            (e - 1) as nat,
        );
    }
}

/// Every constraint on a path is an entry of the matrix.
pub proof fn law_path_edges_are_entries(
    m: Seq<Seq<i64>>,
    edges: Seq<Seq<EdgeOrigin>>,
    i: int,
    j: int,
    d: nat,
    k: int,
)
    requires
        edges.len() == DBM_DIM,
        0 <= i < DBM_DIM,
        0 <= j < DBM_DIM,
        grounded(edges, i, j, d),
        0 <= k < path_edges(m, edges, i, j, d).len(),
    ensures
        ({
            let e = path_edges(m, edges, i, j, d)[k];
            e.weight == m[e.to.idx() as int][e.from.idx() as int]
        }),
    decreases d,
{
    if let EdgeOrigin::Derived { via } = edges[i][j] {
        let first = path_edges(m, edges, i, via as int, (d - 1) as nat);
        if k < first.len() {
            law_path_edges_are_entries(m, edges, i, via as int, (d - 1) as nat, k);
        } else {
            law_path_edges_are_entries(
                m,
                edges,
                via as int,
                j,
                (d - 1) as nat,
                k - first.len(),
            );
        }
    }
}

impl Dbm {
    /// The matrix without the anchors in columns.
    pub fn matrix_str(&self) -> (r: String)
        requires
            self.full(),
        ensures
            r@ == matrix_text(self@.m, NUM_PLAIN as nat, 8, "]:"@),
    {
        render(self, NUM_PLAIN, 8, "]:")
    }

    /// The whole matrix in columns.
    pub fn matrix_full_str(&self) -> (r: String)
        requires
            self.wf(),
        ensures
            r@ == matrix_text(self@.m, self@.m.len(), 12, "] (full, with anchors):"@),
    {
        render(self, self.num_vars(), 12, "] (full, with anchors):")
    }

    /// The bounds between variables other than zero on one line: `a-b==k`,
    /// `a-b in [lo,hi]`, `a-b<=hi` or `a-b>=lo`, two spaces between them.
    pub fn relations_str(&self) -> (r: String)
        requires
            self.full(),
        ensures
            r@ == joined(all_relations(self@.m, DBM_DIM as int), "  "@),
    {
        let mut parts: Vec<String> = Vec::new();
        let mut a: usize = 1;
        while a < DBM_DIM
            invariant
                1 <= a <= DBM_DIM,
                self.full(),
                contents(parts@) == all_relations(self@.m, a as int),
            decreases DBM_DIM - a,
        {
            let ghost before = contents(parts@);
            let mut b: usize = a + 1;
            while b < DBM_DIM
                invariant
                    1 <= a < b <= DBM_DIM,
                    self.full(),
                    contents(parts@) == before + relations_of(self@.m, a as int, b as int),
                decreases DBM_DIM - b,
            {
                let ghost so_far = parts@;
                match relation(self, a, b) {
                    Some(s) => {
                        parts.push(s);
                        assert(contents(parts@) =~= contents(so_far).push(s@));
                        assert(contents(parts@) =~= before + relations_of(
                            self@.m,
                            a as int,
                            b + 1,
                        ));
                    },
                    None => {},
                }
                b = b + 1;
            }
            a = a + 1;
            assert(contents(parts@) == all_relations(self@.m, a as int));
        }
        join(&parts, "  ")
    }

    /// The stated constraints that the bound on `i - j` follows from, if their
    /// origin is tracked and there is such a bound. The derivation must end:
    /// it need not after a register was overwritten and closure was run again.
    /// `derivation_ends` tells.
    pub fn reconstruct_path(&self, i: Reg, j: Reg) -> (r: Option<Vec<PrimitiveEdge>>)
        requires
            self.full(),
            self@.traceable(i.idx() as int, j.idx() as int),
        ensures
            r is Some <==> self@.prov is Some && self@.m[i.idx() as int][j.idx() as int] < INF,
            r matches Some(path) ==> forall|d: nat| #[trigger]
                grounded(self@.prov->0.edges, i.idx() as int, j.idx() as int, d) ==> path@
                    == path_edges(
                    self@.m,
                    self@.prov->0.edges,
                    i.idx() as int,
                    j.idx() as int,
                    d,
                ),
    {
        if self.provenance.is_none() {
            return None;
        }
        let val: i64 = self.get(i, j);
        if val >= INF {
            return None;
        }
        let ghost edges = self@.prov->0.edges;
        let ghost d = choose|d: nat|
            #[trigger] grounded(edges, i.idx() as int, j.idx() as int, d);
        let mut out: Vec<PrimitiveEdge> = Vec::new();
        self.decompose(i.idx(), j.idx(), &mut out, Ghost(d));
        assert(out@ =~= path_edges(self@.m, edges, i.idx() as int, j.idx() as int, d));
        proof {
            assert forall|e: nat| #[trigger]
                grounded(edges, i.idx() as int, j.idx() as int, e) implies out@ == path_edges(
                self@.m,
                edges,
                i.idx() as int,
                j.idx() as int,
                e,
            ) by {
                law_path_does_not_depend_on_depth(
                    self@.m,
                    edges,
                    i.idx() as int,
                    j.idx() as int,
                    d,
                    e,
                );
            }
        }
        Some(out)
    }

    /// Appends the stated constraints that entry `(i, j)` follows from.
    fn decompose(&self, i: usize, j: usize, out: &mut Vec<PrimitiveEdge>, Ghost(d): Ghost<nat>)
        requires
            self.full(),
            self@.prov is Some,
            i < DBM_DIM,
            j < DBM_DIM,
            grounded(self@.prov->0.edges, i as int, j as int, d),
        ensures
            final(out)@ == old(out)@ + path_edges(
                self@.m,
                self@.prov->0.edges,
                i as int,
                j as int,
                d,
            ),
        decreases d,
    {
        let origin = match &self.provenance {
            Some(p) => p.get(i, j),
            None => EdgeOrigin::Init,
        };
        match origin {
            EdgeOrigin::Primitive { pc } => {
                self.push_edge(i, j, pc, out);
            },
            EdgeOrigin::Derived { via } => {
                self.decompose(i, via, out, Ghost((d - 1) as nat));
                self.decompose(via, j, out, Ghost((d - 1) as nat));
                assert(out@ =~= old(out)@ + path_edges(
                    self@.m,
                    self@.prov->0.edges,
                    i as int,
                    j as int,
                    d,
                ));
            },
            EdgeOrigin::Init => {
                if i != j && self.get_idx(i, j) < INF {
                    self.push_edge(i, j, 0, out);
                } else {
                    assert(out@ =~= old(out)@ + Seq::<PrimitiveEdge>::empty());
                }
            },
        }
    }

    fn push_edge(&self, i: usize, j: usize, pc: usize, out: &mut Vec<PrimitiveEdge>)
        requires
            self.full(),
            i < DBM_DIM,
            j < DBM_DIM,
        ensures
            final(out)@ == old(out)@ + seq![edge_at(self@.m, i as int, j as int, pc)],
    {
        if let (Some(to), Some(from)) = (Reg::idx_to_reg(i), Reg::idx_to_reg(j)) {
            out.push(PrimitiveEdge { to, from, weight: self.get_idx(i, j), pc });
            assert(out@ =~= old(out)@ + seq![edge_at(self@.m, i as int, j as int, pc)]);
        }
    }
}

} // verus!
