//! Which bounds a zone ever holds.
use crate::domains::zone::dbm::{
    chain, clamp_spec, lemma_put_square, Bounds, EdgeOrigin, Zone, INF, NEG_BOUND, POS_BOUND,
};
use crate::domains::zone::laws::lemma_relax;
use crate::domains::zone::ops::{truncated_div, wrapped_neg};
use crate::machine::reg::{Reg, DBM_DIM};
use crate::num::clip64;
use vstd::prelude::*;

verus! {

/// Every entry says nothing or lies in the range that is stored.
pub open spec fn stored(m: Seq<Seq<i64>>) -> bool {
    forall|i: int, j: int|
        0 <= i < m.len() && 0 <= j < m.len() ==> #[trigger] m[i][j] == INF || NEG_BOUND <= m[i][j]
            <= POS_BOUND
}

/// A zone over all registers that holds only bounds in that range.
pub open spec fn kept(z: Zone) -> bool {
    z.sized(DBM_DIM as int) && stored(z.m)
}

proof fn lemma_add(z: Zone, i: int, j: int, c: int)
    requires
        kept(z),
        0 <= i < DBM_DIM,
        0 <= j < DBM_DIM,
    ensures
        kept(z.add(i, j, c)),
{
    let k = clamp_spec(c);
    lemma_put_square(z.m, i, j, k, DBM_DIM as int);
    if let Some(t) = z.prov {
        lemma_put_square(t.edges, i, j, EdgeOrigin::Primitive { pc: t.pc }, DBM_DIM as int);
    }
}

proof fn lemma_relax_kept(z: Zone, k: int, i: int, dik: i64, j: int)
    requires
        kept(z),
        0 <= k < DBM_DIM,
        0 <= i < DBM_DIM,
        0 <= j < DBM_DIM,
        dik < INF,
    ensures
        kept(z.relax(k, i, dik, j)),
{
    lemma_relax(z, k, i, dik, j, DBM_DIM as int);
    lemma_put_square(z.m, i, j, chain(dik, z.m[k][j]), DBM_DIM as int);
    assert(z.m[i][j] == INF || z.m[i][j] <= POS_BOUND);
}

proof fn lemma_row_kept(z: Zone, k: int, i: int, dik: i64, c: nat)
    requires
        kept(z),
        0 <= k < DBM_DIM,
        0 <= i < DBM_DIM,
        c <= DBM_DIM,
        dik < INF,
    ensures
        kept(z.relax_row(k, i, dik, c)),
    decreases c,
{
    if c > 0 {
        lemma_row_kept(z, k, i, dik, (c - 1) as nat);
        lemma_relax_kept(z.relax_row(k, i, dik, (c - 1) as nat), k, i, dik, c - 1);
    }
}

proof fn lemma_rows_kept(z: Zone, k: int, c: nat)
    requires
        kept(z),
        0 <= k < DBM_DIM,
        c <= DBM_DIM,
    ensures
        kept(z.relax_rows(k, c)),
    decreases c,
{
    if c > 0 {
        lemma_rows_kept(z, k, (c - 1) as nat);
        let w = z.relax_rows(k, (c - 1) as nat);
        let dik = w.m[c - 1][k];
        if dik < INF {
            lemma_row_kept(w, k, c - 1, dik, DBM_DIM as nat);
        }
    }
}

proof fn lemma_close_through_kept(z: Zone, c: nat)
    requires
        kept(z),
        c <= DBM_DIM,
    ensures
        kept(z.close_through(c)),
    decreases c,
{
    if c > 0 {
        lemma_close_through_kept(z, (c - 1) as nat);
        lemma_rows_kept(z.close_through((c - 1) as nat), c - 1, DBM_DIM as nat);
    }
}

proof fn lemma_close(z: Zone)
    requires
        kept(z),
    ensures
        kept(z.close()),
{
    lemma_close_through_kept(z, DBM_DIM as nat);
}

proof fn lemma_forget(z: Zone, x: int)
    requires
        kept(z),
        0 <= x < DBM_DIM,
    ensures
        kept(z.forget(x)),
{
    assert forall|i: int, j: int|
        0 <= i < DBM_DIM && 0 <= j < DBM_DIM implies #[trigger] z.forget(x).m[i][j] == INF
        || NEG_BOUND <= z.forget(x).m[i][j] <= POS_BOUND by {
        assert(z.m[i][j] == INF || NEG_BOUND <= z.m[i][j] <= POS_BOUND);
    }
}

proof fn lemma_sync(z: Zone, x: Reg)
    requires
        kept(z),
    ensures
        kept(z.sync(x)),
{
    if !(x == Reg::Zero || x.is_anchor()) {
        let i = x.idx() as int;
        let b = z.sync(x).bounds[i];
        let z1 = z.with_bounds(i, b);
        lemma_add(z1, i, 0, b.s64_max as int);
        let z2 = if b.s64_max < i64::MAX { z1.add(i, 0, b.s64_max as int) } else { z1 };
        lemma_add(z2, 0, i, -b.s64_min);
    }
}

/// What is assumed of a register leaves only bounds in the range that is
/// stored.
pub proof fn law_assumptions_store_in_range(z: Zone, x: Reg, y: Reg, c: int)
    requires
        kept(z),
    ensures
        kept(z.sync(x)),
        kept(z.assume_le_imm(x, c)),
        kept(z.assume_ge_imm(x, c)),
        kept(z.assume_eq_imm(x, c)),
        kept(z.assume_lt_imm(x, c)),
        kept(z.add(x.idx() as int, y.idx() as int, c)),
        kept(z.add(x.idx() as int, y.idx() as int, c).close()),
        kept(z.bind(x.idx() as int, y.idx() as int)),
{
    let (i, j) = (x.idx() as int, y.idx() as int);
    lemma_add(z, i, j, 0);
    lemma_add(z.add(i, j, 0), j, i, 0);
    lemma_close(z.add(i, j, 0).add(j, i, 0));
    lemma_sync(z, x);
    lemma_add(z, i, j, c);
    lemma_close(z.add(i, j, c));
    lemma_add(z, i, 0, c);
    lemma_close(z.add(i, 0, c));
    lemma_sync(z.add(i, 0, c).close(), x);
    lemma_add(z, 0, i, -c);
    lemma_close(z.add(0, i, -c));
    lemma_sync(z.add(0, i, -c).close(), x);
    let z1 = if c > i64::MIN { z.add(i, 0, c).add(0, i, -c) } else { z.add(i, 0, c) };
    lemma_add(z.add(i, 0, c), 0, i, -c);
    lemma_close(z1);
    lemma_sync(z1.close(), x);
    lemma_put_square(z.m, 1, 1, -1i64, DBM_DIM as int);
    lemma_add(z, i, 0, c - 1);
    lemma_close(z.add(i, 0, c - 1));
    lemma_sync(z.add(i, 0, c - 1).close(), x);
}

/// Assignments leave only bounds in the range that is stored.
pub proof fn law_assignments_store_in_range(z: Zone, x: Reg, y: Reg, c: int, d: int)
    requires
        kept(z),
    ensures
        kept(z.forget(x.idx() as int).close()),
        kept(z.assign_imm(x, c)),
        kept(z.assign_reg(x, y)),
        kept(z.assign_reg_offset(x, y, c)),
        kept(z.assign_interval(x, c, d)),
{
    let (i, j) = (x.idx() as int, y.idx() as int);
    let f = z.forget(i);
    lemma_forget(z, i);
    lemma_close(f);
    lemma_add(f, i, 0, c);
    lemma_add(f.add(i, 0, c), 0, i, -c);
    let z1 = if c > i64::MIN { f.add(i, 0, c).add(0, i, -c) } else { f.add(i, 0, c) };
    let b = Bounds {
        s64_min: c as i64,
        s64_max: c as i64,
        ..z1.bounds[i]
    };
    lemma_close(z1.with_bounds(i, b));
    lemma_sync(z1.with_bounds(i, b).close(), x);
    lemma_add(f, i, j, 0);
    lemma_add(f.add(i, j, 0), j, i, 0);
    lemma_close(f.add(i, j, 0).add(j, i, 0));
    lemma_add(f, i, j, c);
    lemma_add(f.add(i, j, c), j, i, -c);
    let z2 = if c > i64::MIN { f.add(i, j, c).add(j, i, -c) } else { f.add(i, j, c) };
    lemma_close(z2);
    lemma_add_imm(z, x, c);
    law_assumptions_store_in_range(f, x, y, c);
    law_assumptions_store_in_range(f.assume_ge_imm(x, c), x, y, d);
    lemma_close(f.assume_range(x, c, d));
}

proof fn lemma_add_imm(z: Zone, x: Reg, c: int)
    requires
        kept(z),
    ensures
        kept(z.add_imm(x, c)),
{
    let i = x.idx() as int;
    let m = z.shift(i, c);
    assert forall|a: int, b: int|
        0 <= a < DBM_DIM && 0 <= b < DBM_DIM implies #[trigger] m[a][b] == INF || NEG_BOUND
        <= m[a][b] <= POS_BOUND by {
        assert(z.m[a][b] == INF || NEG_BOUND <= z.m[a][b] <= POS_BOUND);
    }
    let z1 = (Zone { m, ..z }).with_bounds(i, Zone::moved_bounds(z.bounds[i], c, c));
    assert(kept(z1));
    lemma_close(z1);
}

proof fn lemma_add_reg(z: Zone, dst: Reg, src: Reg)
    requires
        kept(z),
    ensures
        kept(z.add_reg(dst, src)),
{
    let i = dst.idx() as int;
    let (lo, hi) = z.distance(src.idx() as int, 0);
    if lo != i64::MIN && hi != i64::MAX {
        let m = z.shift_up(i, lo as int, hi);
        assert forall|a: int, b: int|
            0 <= a < DBM_DIM && 0 <= b < DBM_DIM implies #[trigger] m[a][b] == INF || NEG_BOUND
            <= m[a][b] <= POS_BOUND by {
            assert(z.m[a][b] == INF || NEG_BOUND <= z.m[a][b] <= POS_BOUND);
        }
        let z1 = (Zone { m, ..z }).with_bounds(
            i,
            Zone::moved_bounds(z.bounds[i], lo as int, hi as int),
        );
        assert(kept(z1.stamp(i)));
        lemma_close(z1.stamp(i));
    } else {
        let (dlo, dhi) = z.distance(i, 0);
        lemma_between(
            z,
            dst,
            dlo != i64::MIN && lo != i64::MIN,
            clip64(dlo + lo) as int,
            dhi != i64::MAX && hi != i64::MAX,
            clip64(dhi + hi) as int,
        );
    }
}

proof fn lemma_sub_reg(z: Zone, dst: Reg, src: Reg)
    requires
        kept(z),
    ensures
        kept(z.sub_reg(dst, src)),
{
    let i = dst.idx() as int;
    let (lo, hi) = z.distance(src.idx() as int, 0);
    if lo != i64::MIN && hi != i64::MAX {
        let m = z.shift_down(i, lo as int, hi);
        assert forall|a: int, b: int|
            0 <= a < DBM_DIM && 0 <= b < DBM_DIM implies #[trigger] m[a][b] == INF || NEG_BOUND
            <= m[a][b] <= POS_BOUND by {
            assert(z.m[a][b] == INF || NEG_BOUND <= z.m[a][b] <= POS_BOUND);
        }
        let z1 = (Zone { m, ..z }).with_bounds(i, Zone::moved_bounds(z.bounds[i], -hi, -lo));
        assert(kept(z1));
        lemma_close(z1);
    } else {
        let (dlo, dhi) = z.distance(i, 0);
        lemma_between(
            z,
            dst,
            dlo != i64::MIN && hi != i64::MAX,
            clip64(dlo - hi) as int,
            dhi != i64::MAX && lo != i64::MIN,
            clip64(dhi - lo) as int,
        );
    }
}

/// A forgotten register may be given a least and a greatest value anew.
proof fn lemma_between(z: Zone, x: Reg, has_lo: bool, lo: int, has_hi: bool, hi: int)
    requires
        kept(z),
    ensures
        ({
            let z1 = z.forget(x.idx() as int);
            let z2 = if has_lo { z1.assume_ge_imm(x, lo) } else { z1 };
            let z3 = if has_hi { z2.assume_le_imm(x, hi) } else { z2 };
            kept(z3) && kept(z3.close())
        }),
{
    let z1 = z.forget(x.idx() as int);
    lemma_forget(z, x.idx() as int);
    law_assumptions_store_in_range(z1, x, x, lo);
    let z2 = if has_lo { z1.assume_ge_imm(x, lo) } else { z1 };
    law_assumptions_store_in_range(z2, x, x, hi);
    let z3 = if has_hi { z2.assume_le_imm(x, hi) } else { z2 };
    lemma_close(z3);
}

/// Arithmetic leaves only bounds in the range that is stored.
pub proof fn law_arithmetic_stores_in_range(z: Zone, x: Reg, y: Reg, c: int)
    requires
        kept(z),
    ensures
        kept(z.add_imm(x, c)),
        kept(z.add_reg(x, y)),
        kept(z.sub_reg(x, y)),
        kept(z.and_imm(x, c)),
        kept(z.mul_imm(x, c)),
        kept(z.div_imm(x, c)),
        kept(z.neg(x)),
{
    let i = x.idx() as int;
    lemma_add_imm(z, x, c);
    lemma_add_reg(z, x, y);
    lemma_sub_reg(z, x, y);
    let f = z.forget(i);
    lemma_forget(z, i);
    lemma_close(f);
    lemma_add(f, i, 0, c);
    lemma_add(f.add(i, 0, c), 0, i, 0);
    lemma_close(f.add(i, 0, c).add(0, i, 0));
    law_assignments_store_in_range(z, x, y, 0, 0);
    let (lo, hi) = z.distance(i, 0);
    lemma_between(
        z,
        x,
        lo != i64::MIN,
        clip64(lo * c) as int,
        hi != i64::MAX,
        clip64(hi * c) as int,
    );
    let (a, b) = (
        truncated_div(lo as int, c),
        truncated_div(hi as int, c),
    );
    let (low, high) = if c > 0 { (a, b) } else { (b, a) };
    law_assumptions_store_in_range(f.close(), x, y, low);
    law_assumptions_store_in_range(f.close().assume_ge_imm(x, low), x, y, high);
    let (low, high) = (
        wrapped_neg(hi) as int,
        wrapped_neg(lo) as int,
    );
    law_assumptions_store_in_range(f.close(), x, y, low);
    law_assumptions_store_in_range(f.close().assume_ge_imm(x, low), x, y, high);
}

/// So do a fresh zone, closure, widening and narrowing, and what is done with
/// the anchors.
pub proof fn law_zones_store_in_range(z: Zone, other: Zone)
    requires
        kept(z),
        kept(other),
    ensures
        kept(Zone::top(DBM_DIM as nat)),
        kept(z.close()),
        kept(z.widen(other)),
        kept(z.narrow(other)),
        kept(z.clear_anchors()),
        kept(z.init_anchors()),
        kept(z.adopt_anchors(other)),
{
    lemma_close(z);
    assert forall|i: int, j: int|
        0 <= i < DBM_DIM && 0 <= j < DBM_DIM implies #[trigger] z.widen(other).m[i][j] == INF
        || NEG_BOUND <= z.widen(other).m[i][j] <= POS_BOUND by {
        assert(z.m[i][j] == INF || NEG_BOUND <= z.m[i][j] <= POS_BOUND);
    }
    assert forall|i: int, j: int|
        0 <= i < DBM_DIM && 0 <= j < DBM_DIM implies #[trigger] z.narrow(other).m[i][j] == INF
        || NEG_BOUND <= z.narrow(other).m[i][j] <= POS_BOUND by {
        assert(z.m[i][j] == INF || NEG_BOUND <= z.m[i][j] <= POS_BOUND);
        assert(other.m[i][j] == INF || NEG_BOUND <= other.m[i][j] <= POS_BOUND);
    }
    assert forall|i: int, j: int|
        0 <= i < DBM_DIM && 0 <= j < DBM_DIM implies #[trigger] z.clear_anchors().m[i][j] == INF
        || NEG_BOUND <= z.clear_anchors().m[i][j] <= POS_BOUND by {
        assert(z.m[i][j] == INF || NEG_BOUND <= z.m[i][j] <= POS_BOUND);
    }
    lemma_add(z, 12, 13, 0);
    lemma_add(z.add(12, 13, 0), 13, 14, 0);
    lemma_close(z.add(12, 13, 0).add(13, 14, 0));
    let z1 = z.adopt(other, 13, 14);
    lemma_add(z, 13, 14, other.m[13][14] as int);
    let z2 = z1.adopt(other, 13, 12);
    lemma_add(z1, 13, 12, other.m[13][12] as int);
    let z3 = z2.adopt(other, 14, 13);
    lemma_add(z2, 14, 13, other.m[14][13] as int);
    let z4 = z3.adopt(other, 14, 12);
    lemma_add(z3, 14, 12, other.m[14][12] as int);
    let z5 = z4.adopt(other, 12, 13);
    lemma_add(z4, 12, 13, other.m[12][13] as int);
    let z6 = z5.adopt(other, 12, 14);
    lemma_add(z5, 12, 14, other.m[12][14] as int);
    lemma_close(z6);
}

} // verus!
