//! What zones keep: after each operation they allow no more than the operation
//! explains.
use crate::domains::zone::dbm::{Bounds, Zone, INF};
use crate::domains::zone::laws::{
    law_add_keeps_what_respects_the_bound, law_close_keeps_meaning, models, with_value, writable,
};
use crate::domains::zone::ops::{sync_ranges, tighten_signed, truncated_div};
use crate::machine::reg::{Reg, DBM_DIM};
use crate::num::clip64;
use vstd::prelude::*;

verus! {

/// A zone over all variables whose entries are bounds or say nothing.
pub open spec fn lean(z: Zone) -> bool {
    &&& z.sized(DBM_DIM as int)
    &&& forall|i: int, j: int|
        0 <= i < DBM_DIM && 0 <= j < DBM_DIM ==> #[trigger] z.m[i][j] <= INF
}

/// Numbers far from those that are not kept as bounds.
pub open spec fn moderate(x: int) -> bool {
    -0x400_0000_0000_0000 <= x <= 0x400_0000_0000_0000
}

/// Bounds that are kept as they are.
pub open spec fn stored(x: int) -> bool {
    -0xFFF_FFFF_FFFF_FFFF <= x <= 0xFFF_FFFF_FFFF_FFFF
}

/// All bounds of the zone are moderate, and none contradicts itself.
pub open spec fn moderate_zone(z: Zone) -> bool {
    &&& !z.inconsistent()
    &&& forall|i: int, j: int|
        0 <= i < DBM_DIM && 0 <= j < DBM_DIM && #[trigger] z.m[i][j] < INF ==> moderate(
            z.m[i][j] as int,
        )
}

/// The value of a register.
pub open spec fn value(w: spec_fn(int) -> int, x: Reg) -> int {
    w(x.idx() as int)
}

/// The values respect what the zone says of all variables but one.
pub open spec fn others_kept(z: Zone, x: Reg, w: spec_fn(int) -> int) -> bool {
    forall|i: int, j: int|
        0 <= i < DBM_DIM && 0 <= j < DBM_DIM && i != x.idx() && j != x.idx() && #[trigger] z.m[i][j]
            < INF ==> w(i) - w(j) <= z.m[i][j]
}

proof fn lemma_closed(z: Zone, w: spec_fn(int) -> int)
    requires
        lean(z),
    ensures
        models(z.close().m, w) ==> models(z.m, w),
        lean(z.close()),
{
    law_close_keeps_meaning(z, DBM_DIM as int, w);
    assert forall|i: int, j: int| 0 <= i < DBM_DIM && 0 <= j < DBM_DIM implies #[trigger] z.close().m[i][j]
        <= INF by {
        assert(z.m[i][j] <= INF);
        assert(z.close().m[i][j] <= z.m[i][j]);
    }
}

proof fn lemma_added(z: Zone, i: int, j: int, c: int, w: spec_fn(int) -> int)
    requires
        lean(z),
        0 <= i < DBM_DIM,
        0 <= j < DBM_DIM,
    ensures
        lean(z.add(i, j, c)),
        models(z.add(i, j, c).m, w) ==> models(z.m, w),
        models(z.add(i, j, c).m, w) && stored(c) ==> w(i) - w(j) <= c,
{
    law_add_keeps_what_respects_the_bound(z, DBM_DIM as int, i, j, c, w);
    let r = z.add(i, j, c);
    assert(z.m[i][j] <= INF);
    assert forall|a: int, b: int| 0 <= a < DBM_DIM && 0 <= b < DBM_DIM implies #[trigger] r.m[a][b]
        <= INF by {
        assert(z.m[a][b] <= INF);
        assert(r.m[a][b] <= z.m[a][b]);
    }
}

proof fn lemma_synced(z: Zone, x: Reg, w: spec_fn(int) -> int)
    requires
        lean(z),
    ensures
        lean(z.sync(x)),
        models(z.sync(x).m, w) ==> models(z.m, w),
{
    if x != Reg::Zero && !x.is_anchor() {
        let i = x.idx() as int;
        let b = sync_ranges(tighten_signed(z.bounds[i], z.m[i][0], z.m[0][i]));
        let a = z.with_bounds(i, b);
        assert forall|p: int, q: int| 0 <= p < DBM_DIM && 0 <= q < DBM_DIM implies #[trigger] a.m[p][q]
            <= INF by {
            assert(z.m[p][q] <= INF);
        }
        let c = if b.s64_max < i64::MAX { a.add(i, 0, b.s64_max as int) } else { a };
        lemma_added(a, i, 0, b.s64_max as int, w);
        lemma_added(c, 0, i, -b.s64_min, w);
    }
}

proof fn lemma_dropped(z: Zone, x: Reg, w: spec_fn(int) -> int)
    requires
        lean(z),
    ensures
        lean(z.forget(x.idx() as int)),
        models(z.forget(x.idx() as int).m, w) ==> others_kept(z, x, w),
{
    let f = z.forget(x.idx() as int);
    assert forall|i: int, j: int| 0 <= i < DBM_DIM && 0 <= j < DBM_DIM implies #[trigger] f.m[i][j]
        <= INF by {
        assert(z.m[i][j] <= INF);
    }
    if models(f.m, w) {
        assert forall|i: int, j: int|
            0 <= i < DBM_DIM && 0 <= j < DBM_DIM && i != x.idx() && j != x.idx()
                && #[trigger] z.m[i][j] < INF implies w(i) - w(j) <= z.m[i][j] by {
            assert(f.m[i][j] == z.m[i][j]);
        }
    }
}

/// What is assumed of a register and a number holds afterwards, and so does all
/// that was known.
pub proof fn law_assumptions_are_kept(
    z: Zone,
    x: Reg,
    c: int,
    d: int,
    w: spec_fn(int) -> int,
)
    requires
        lean(z),
        w(0) == 0,
        moderate(c),
        moderate(d),
    ensures
        models(z.assume_le_imm(x, c).m, w) ==> models(z.m, w) && value(w, x) <= c,
        models(z.assume_ge_imm(x, c).m, w) ==> models(z.m, w) && value(w, x) >= c,
        models(z.assume_eq_imm(x, c).m, w) ==> models(z.m, w) && value(w, x) == c,
        models(z.assume_lt_imm(x, c).m, w) ==> models(z.m, w) && value(w, x) < c,
        models(z.assume_range(x, c, d).m, w) ==> models(z.m, w) && c <= value(w, x) <= d,
        lean(z.assume_le_imm(x, c)),
        lean(z.assume_ge_imm(x, c)),
        lean(z.assume_eq_imm(x, c)),
        lean(z.assume_range(x, c, d)),
{
    let i = x.idx() as int;
    lemma_added(z, i, 0, c, w);
    lemma_closed(z.add(i, 0, c), w);
    lemma_synced(z.add(i, 0, c).close(), x, w);
    lemma_added(z, 0, i, -c, w);
    lemma_closed(z.add(0, i, -c), w);
    lemma_synced(z.add(0, i, -c).close(), x, w);
    let a = z.add(i, 0, c);
    lemma_added(a, 0, i, -c, w);
    lemma_closed(a.add(0, i, -c), w);
    lemma_synced(a.add(0, i, -c).close(), x, w);
    lemma_added(z, i, 0, c - 1, w);
    lemma_closed(z.add(i, 0, c - 1), w);
    lemma_synced(z.add(i, 0, c - 1).close(), x, w);
    let g = z.assume_ge_imm(x, c);
    lemma_added(g, i, 0, d, w);
    lemma_closed(g.add(i, 0, d), w);
    lemma_synced(g.add(i, 0, d).close(), x, w);
}

proof fn lemma_bounded(z: Zone, x: Reg, c: int, w: spec_fn(int) -> int)
    requires
        lean(z),
        w(0) == 0,
        i64::MIN <= c <= i64::MAX,
    ensures
        lean(z.assume_le_imm(x, c)),
        lean(z.assume_ge_imm(x, c)),
        models(z.assume_le_imm(x, c).m, w) ==> models(z.m, w) && (stored(c) ==> value(w, x) <= c),
        models(z.assume_ge_imm(x, c).m, w) ==> models(z.m, w) && (stored(c) ==> value(w, x) >= c),
{
    let i = x.idx() as int;
    lemma_added(z, i, 0, c, w);
    lemma_closed(z.add(i, 0, c), w);
    lemma_synced(z.add(i, 0, c).close(), x, w);
    lemma_added(z, 0, i, -c, w);
    lemma_closed(z.add(0, i, -c), w);
    lemma_synced(z.add(0, i, -c).close(), x, w);
}

/// After an assignment the register has the value that was assigned, and all
/// that was known of the others still holds.
pub proof fn law_assignments_are_kept(
    z: Zone,
    x: Reg,
    y: Reg,
    c: int,
    d: int,
    w: spec_fn(int) -> int,
)
    requires
        lean(z),
        w(0) == 0,
        moderate(c),
        moderate(d),
    ensures
        models(z.assign_imm(x, c).m, w) ==> others_kept(z, x, w) && value(w, x) == c,
        models(z.assign_reg(x, y).m, w) ==> others_kept(z, x, w) && value(w, x) == value(w, y),
        x != y ==> (models(z.assign_reg_offset(x, y, c).m, w) ==> others_kept(z, x, w) && value(
            w,
            x,
        ) == value(w, y) + c),
        models(z.assign_interval(x, c, d).m, w) ==> others_kept(z, x, w) && c <= value(w, x) <= d,
        models(z.and_imm(x, c).m, w) ==> others_kept(z, x, w) && 0 <= value(w, x) <= c,
        models(z.mul_imm(x, 0).m, w) ==> others_kept(z, x, w) && value(w, x) == 0,
        models(z.mul_imm(x, 1).m, w) ==> models(z.m, w),
{
    let (i, j) = (x.idx() as int, y.idx() as int);
    let f = z.forget(i);
    lemma_dropped(z, x, w);
    lemma_assigned(z, x, c, w);
    lemma_assigned(z, x, 0, w);
    lemma_added(f, i, j, 0, w);
    lemma_added(f.add(i, j, 0), j, i, 0, w);
    lemma_closed(f.add(i, j, 0).add(j, i, 0), w);
    lemma_added(f, i, j, c, w);
    lemma_added(f.add(i, j, c), j, i, -c, w);
    lemma_closed(f.add(i, j, c).add(j, i, -c), w);
    law_assumptions_are_kept(f, x, c, d, w);
    lemma_closed(f.assume_range(x, c, d), w);
    lemma_added(f, i, 0, c, w);
    lemma_added(f.add(i, 0, c), 0, i, 0, w);
    lemma_closed(f.add(i, 0, c).add(0, i, 0), w);
    if models(z.assign_reg(x, y).m, w) && x == y {
        assert(models(z.m, w));
    }
}

proof fn lemma_assigned(z: Zone, x: Reg, c: int, w: spec_fn(int) -> int)
    requires
        lean(z),
        w(0) == 0,
        moderate(c),
    ensures
        models(z.assign_imm(x, c).m, w) ==> others_kept(z, x, w) && value(w, x) == c,
{
    let i = x.idx() as int;
    let f = z.forget(i);
    lemma_dropped(z, x, w);
    lemma_added(f, i, 0, c, w);
    let a = f.add(i, 0, c);
    lemma_added(a, 0, i, -c, w);
    let b = a.add(0, i, -c);
    let e = b.with_bounds(
        i,
        Bounds { s64_min: c as i64, s64_max: c as i64, ..b.bounds[i] },
    );
    assert forall|p: int, q: int| 0 <= p < DBM_DIM && 0 <= q < DBM_DIM implies #[trigger] e.m[p][q]
        <= INF by {
        assert(b.m[p][q] <= INF);
    }
    lemma_closed(e, w);
    lemma_synced(e.close(), x, w);
}

/// A sum with a constant only shifts what was known.
pub proof fn law_shifts_are_kept(z: Zone, x: Reg, c: int, w: spec_fn(int) -> int)
    requires
        lean(z),
        moderate_zone(z),
        moderate(c),
        models(z.add_imm(x, c).m, w),
    ensures
        models(z.m, with_value(w, x.idx() as int, value(w, x) - c)),
{
    let i = x.idx() as int;
    let s = Zone { m: z.shift(i, c), ..z }.with_bounds(i, Zone::moved_bounds(z.bounds[i], c, c));
    law_close_keeps_meaning(s, DBM_DIM as int, w);
    let u = with_value(w, i, w(i) - c);
    assert forall|a: int, b: int|
        0 <= a < z.m.len() && 0 <= b < z.m.len() && #[trigger] z.m[a][b] < INF implies u(a) - u(b)
        <= z.m[a][b] by {
        assert(moderate(z.m[a][b] as int));
        assert(s.m[a][b] < INF ==> w(a) - w(b) <= s.m[a][b]);
        if a == i && b == i {
            assert(!(z.m[a][a] < 0));
        }
    }
}

/// The range of a sum or a difference of two registers is that of its parts, as
/// far as both are bounded.
pub proof fn law_sums_are_kept(z: Zone, x: Reg, y: Reg, w: spec_fn(int) -> int)
    requires
        lean(z),
        moderate_zone(z),
        writable(x),
        w(0) == 0,
    ensures
        models(z.add_reg(x, y).m, w) ==> {
            let (i, j) = (x.idx() as int, y.idx() as int);
            &&& z.m[i][0] < INF && z.m[j][0] < INF ==> value(w, x) <= z.m[i][0] + z.m[j][0]
            &&& z.m[0][i] < INF && z.m[0][j] < INF ==> -value(w, x) <= z.m[0][i] + z.m[0][j]
        },
        models(z.sub_reg(x, y).m, w) ==> {
            let (i, j) = (x.idx() as int, y.idx() as int);
            &&& z.m[i][0] < INF && z.m[0][j] < INF ==> value(w, x) <= z.m[i][0] + z.m[0][j]
            &&& z.m[0][i] < INF && z.m[j][0] < INF ==> -value(w, x) <= z.m[0][i] + z.m[j][0]
        },
{
    let (i, j) = (x.idx() as int, y.idx() as int);
    let (lo, hi) = z.distance(j, 0);
    let (dlo, dhi) = z.distance(i, 0);
    assert(z.m[j][0] < INF ==> moderate(z.m[j][0] as int));
    assert(z.m[0][j] < INF ==> moderate(z.m[0][j] as int));
    assert(z.m[i][0] < INF ==> moderate(z.m[i][0] as int));
    assert(z.m[0][i] < INF ==> moderate(z.m[0][i] as int));
    if lo != i64::MIN && hi != i64::MAX {
        let up = Zone { m: z.shift_up(i, lo as int, hi), ..z }.with_bounds(
            i,
            Zone::moved_bounds(z.bounds[i], lo as int, hi as int),
        ).stamp(i);
        law_close_keeps_meaning(up, DBM_DIM as int, w);
        if models(z.add_reg(x, y).m, w) {
            assert(up.m[i][0] < INF ==> w(i) - w(0) <= up.m[i][0]);
            assert(up.m[0][i] < INF ==> w(0) - w(i) <= up.m[0][i]);
        }
        let down = Zone { m: z.shift_down(i, lo as int, hi), ..z }.with_bounds(
            i,
            Zone::moved_bounds(z.bounds[i], -hi, -lo),
        );
        law_close_keeps_meaning(down, DBM_DIM as int, w);
        if models(z.sub_reg(x, y).m, w) {
            assert(down.m[i][0] < INF ==> w(i) - w(0) <= down.m[i][0]);
            assert(down.m[0][i] < INF ==> w(0) - w(i) <= down.m[0][i]);
        }
    } else {
        let f = z.forget(i);
        lemma_dropped(z, x, w);
        lemma_bounded(f, x, clip64(dlo + lo) as int, w);
        lemma_bounded(f, x, clip64(dhi + hi) as int, w);
        lemma_bounded(f, x, clip64(dlo - hi) as int, w);
        lemma_bounded(f, x, clip64(dhi - lo) as int, w);
        let a = if dlo != i64::MIN && lo != i64::MIN {
            f.assume_ge_imm(x, clip64(dlo + lo) as int)
        } else {
            f
        };
        lemma_bounded(a, x, clip64(dhi + hi) as int, w);
        let a2 = if dhi != i64::MAX && hi != i64::MAX {
            a.assume_le_imm(x, clip64(dhi + hi) as int)
        } else {
            a
        };
        lemma_closed(a2, w);
        let b = if dlo != i64::MIN && hi != i64::MAX {
            f.assume_ge_imm(x, clip64(dlo - hi) as int)
        } else {
            f
        };
        lemma_bounded(b, x, clip64(dhi - lo) as int, w);
        let b2 = if dhi != i64::MAX && lo != i64::MIN {
            b.assume_le_imm(x, clip64(dhi - lo) as int)
        } else {
            b
        };
        lemma_closed(b2, w);
    }
}

/// The range of a product, a quotient or a negation is that of the register,
/// multiplied, divided or mirrored.
pub proof fn law_products_are_kept(z: Zone, x: Reg, c: int, w: spec_fn(int) -> int)
    requires
        lean(z),
        w(0) == 0,
        c > 0,
    ensures
        ({
            let (lo, hi) = z.distance(x.idx() as int, 0);
            &&& models(z.mul_imm(x, c).m, w) && lo != i64::MIN && moderate(lo * c) && c > 1
                ==> value(w, x) >= lo * c
            &&& models(z.mul_imm(x, c).m, w) && hi != i64::MAX && moderate(hi * c) && c > 1
                ==> value(w, x) <= hi * c
            &&& models(z.div_imm(x, c).m, w) && 0 <= lo && hi != i64::MAX && hi >= 0 && moderate(
                hi as int,
            ) && moderate(lo as int) ==> lo as int / c <= value(w, x) <= hi as int / c
            &&& models(z.neg(x).m, w) && lo != i64::MIN && hi != i64::MAX && moderate(hi as int)
                && moderate(lo as int) ==> -hi <= value(w, x) <= -lo
        }),
{
    let i = x.idx() as int;
    let (lo, hi) = z.distance(i, 0);
    let f = z.forget(i);
    lemma_dropped(z, x, w);
    lemma_closed(f, w);
    let g = f.close();
    let a = if lo != i64::MIN { f.assume_ge_imm(x, clip64(lo * c) as int) } else { f };
    lemma_bounded(f, x, clip64(lo * c) as int, w);
    let b = if hi != i64::MAX { a.assume_le_imm(x, clip64(hi * c) as int) } else { a };
    lemma_bounded(a, x, clip64(hi * c) as int, w);
    lemma_closed(b, w);
    if 0 <= lo && hi != i64::MAX && hi >= 0 && moderate(hi as int) && moderate(lo as int) {
        assert(0 <= lo as int / c <= lo && 0 <= hi as int / c <= hi) by (nonlinear_arith)
            requires
                c > 0,
                lo >= 0,
                hi >= 0,
        ;
        lemma_bounded(g, x, truncated_div(lo as int, c), w);
        lemma_bounded(
            g.assume_ge_imm(x, truncated_div(lo as int, c)),
            x,
            truncated_div(hi as int, c),
            w,
        );
    }
    if lo != i64::MIN && hi != i64::MAX && moderate(hi as int) && moderate(lo as int) {
        lemma_bounded(g, x, -hi, w);
        lemma_bounded(g.assume_ge_imm(x, -hi), x, -lo, w);
    }
}

/// A comparison of two variables that was assumed holds afterwards, and so does
/// all that was known.
pub proof fn law_comparisons_are_kept(z: Zone, x: Reg, y: Reg, c: int, w: spec_fn(int) -> int)
    requires
        lean(z),
        stored(c),
    ensures
        models(z.add(x.idx() as int, y.idx() as int, c).close().m, w) ==> models(z.m, w) && value(
            w,
            x,
        ) <= value(w, y) + c,
        models(z.bind(x.idx() as int, y.idx() as int).m, w) ==> models(z.m, w) && value(w, x)
            == value(w, y),
        models(z.init_anchors().m, w) ==> models(z.m, w) && w(12) <= w(13) <= w(14),
{
    let (i, j) = (x.idx() as int, y.idx() as int);
    lemma_added(z, i, j, c, w);
    lemma_closed(z.add(i, j, c), w);
    lemma_added(z, i, j, 0, w);
    lemma_added(z.add(i, j, 0), j, i, 0, w);
    lemma_closed(z.add(i, j, 0).add(j, i, 0), w);
    lemma_added(z, 12, 13, 0, w);
    lemma_added(z.add(12, 13, 0), 13, 14, 0, w);
    lemma_closed(z.add(12, 13, 0).add(13, 14, 0), w);
}

/// Forgetting keeps what was known of the other variables.
pub proof fn lemma_forgotten_is_lean(z: Zone, x: Reg, w: spec_fn(int) -> int)
    requires
        lean(z),
    ensures
        lean(z.forget(x.idx() as int).close()),
        models(z.forget(x.idx() as int).close().m, w) ==> others_kept(z, x, w),
{
    lemma_dropped(z, x, w);
    lemma_closed(z.forget(x.idx() as int), w);
}

/// A bound keeps a zone's entries bounds.
pub proof fn lemma_bound_is_lean(z: Zone, x: Reg, c: int)
    requires
        lean(z),
        i64::MIN <= c <= i64::MAX,
    ensures
        lean(z.assume_ge_imm(x, c)),
        lean(z.assume_le_imm(x, c)),
{
    let w = |k: int| 0int;
    lemma_bounded(z, x, c, w);
}

/// A mask keeps a zone's entries bounds.
pub proof fn lemma_mask_is_lean(z: Zone, x: Reg, c: int)
    requires
        lean(z),
    ensures
        lean(z.and_imm(x, c)),
{
    let w = |k: int| 0int;
    let i = x.idx() as int;
    let f = z.forget(i);
    lemma_dropped(z, x, w);
    lemma_added(f, i, 0, c, w);
    lemma_added(f.add(i, 0, c), 0, i, 0, w);
    lemma_closed(f.add(i, 0, c).add(0, i, 0), w);
}

proof fn lemma_adopted(z: Zone, other: Zone, a: int, b: int)
    requires
        lean(z),
        0 <= a < DBM_DIM,
        0 <= b < DBM_DIM,
    ensures
        lean(z.adopt(other, a, b)),
{
    let w = |k: int| 0int;
    lemma_added(z, a, b, other.m[a][b] as int, w);
}

/// What is learned of the anchors keeps a zone's entries bounds.
pub proof fn lemma_adopted_is_lean(z: Zone, other: Zone)
    requires
        lean(z),
    ensures
        lean(z.adopt_anchors(other)),
{
    let w = |k: int| 0int;
    lemma_adopted(z, other, 13, 14);
    let a = z.adopt(other, 13, 14);
    lemma_adopted(a, other, 13, 12);
    let b = a.adopt(other, 13, 12);
    lemma_adopted(b, other, 14, 13);
    let c = b.adopt(other, 14, 13);
    lemma_adopted(c, other, 14, 12);
    let d = c.adopt(other, 14, 12);
    lemma_adopted(d, other, 12, 13);
    let e = d.adopt(other, 12, 13);
    lemma_adopted(e, other, 12, 14);
    lemma_closed(e.adopt(other, 12, 14), w);
}

/// Ranges are carried over as far as they say the same: between signed and
/// unsigned numbers that are not negative, and between numbers that fit in 32
/// bits and their low halves. No range becomes looser.
pub proof fn law_ranges_are_carried_over(b: Bounds)
    requires
        b.s64_min <= b.s64_max,
        b.u64_min <= b.u64_max,
        b.s32_min <= b.s32_max,
        b.u32_min <= b.u32_max,
    ensures
        ({
            let t = sync_ranges(b);
            &&& t.s64_min >= b.s64_min && t.s64_max <= b.s64_max
            &&& t.u64_min >= b.u64_min && t.u64_max <= b.u64_max
            &&& t.s32_min >= b.s32_min && t.s32_max <= b.s32_max
            &&& t.u32_min >= b.u32_min && t.u32_max <= b.u32_max
            &&& 0 <= b.s64_min <= b.s64_max ==> t.u64_min >= b.s64_min && t.u64_max <= b.s64_max
            &&& b.u64_max <= i64::MAX ==> t.s64_min >= b.u64_min && t.s64_max <= b.u64_max
            &&& 0 <= b.s32_min <= b.s32_max ==> t.u32_min >= b.s32_min && t.u32_max <= b.s32_max
            &&& b.u32_max <= i32::MAX ==> t.s32_min >= b.u32_min && t.s32_max <= b.u32_max
            &&& i32::MIN <= b.s64_min <= b.s64_max <= i32::MAX && b.u64_min <= i32::MAX
                ==> t.s32_min >= b.s64_min && t.s32_max <= b.s64_max
            &&& b.u64_max <= u32::MAX && b.s64_min <= b.u64_max ==> t.u32_min >= b.u64_min
                && t.u32_max <= b.u64_max
        }),
{
}

} // verus!
