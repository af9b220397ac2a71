//! The zone domain: queries, assignments, arithmetic and refinements on a
//! difference-bound matrix, closed again after each of them.
use crate::domains::zone::dbm::{
    chain, clamp_spec, clamp_upper_bound, clamped_add, table, Bounds, Dbm, Zone, INF,
};
use crate::machine::reg::{Reg, DBM_DIM};
use crate::num::{
    clip64, max_i32, max_i64, max_u32, max_u64, min_i32, min_i64, min_u32, min_u64, sat_add,
    sat_mul, sat_sub,
};
use vstd::prelude::*;

verus! {

impl Zone {
    /// Least value of `x - y` the zone allows, or `i64::MIN` if there is none.
    pub open spec fn lower(self, x: int, y: int) -> i64 {
        if self.m[y][x] >= INF { i64::MIN } else { wrapped_neg(self.m[y][x]) }
    }

    /// Greatest value of `x - y` the zone allows, or `i64::MAX` if there is
    /// none.
    pub open spec fn upper(self, x: int, y: int) -> i64 {
        if self.m[x][y] >= INF { i64::MAX } else { self.m[x][y] }
    }

    /// The range of `x - y`.
    pub open spec fn distance(self, x: int, y: int) -> (i64, i64) {
        (self.lower(x, y), self.upper(x, y))
    }

    /// The one value `x - y` can have, if there is only one.
    pub open spec fn fixed(self, x: int, y: int) -> Option<i64> {
        let (lo, hi) = self.distance(x, y);
        if lo == hi && lo != i64::MIN && lo != i64::MAX { Some(lo) } else { None }
    }

    /// The zone with the ranges of variable `x` replaced.
    pub open spec fn with_bounds(self, x: int, b: Bounds) -> Zone {
        Zone { bounds: self.bounds.update(x, b), ..self }
    }

    pub open spec fn assume_le_imm(self, x: Reg, c: int) -> Zone {
        if c >= INF {
            self
        } else {
            self.add(x.idx() as int, 0, c).close().sync(x)
        }
    }

    pub open spec fn assume_ge_imm(self, x: Reg, c: int) -> Zone {
        if c == i64::MIN {
            self
        } else {
            self.add(0, x.idx() as int, -c).close().sync(x)
        }
    }

    pub open spec fn assume_range(self, x: Reg, min: int, max: int) -> Zone {
        self.assume_ge_imm(x, min).assume_le_imm(x, max)
    }

    pub open spec fn assume_eq_imm(self, x: Reg, c: int) -> Zone {
        let z = self.add(x.idx() as int, 0, c);
        let z = if c > i64::MIN { z.add(0, x.idx() as int, -c) } else { z };
        z.close().sync(x)
    }

    pub open spec fn assume_lt_imm(self, x: Reg, c: int) -> Zone {
        if c == i64::MIN {
            self.put(1, 1, (-1) as i64)
        } else if c >= INF {
            self
        } else {
            self.add(x.idx() as int, 0, c - 1).close().sync(x)
        }
    }

    pub open spec fn assign_imm(self, x: Reg, imm: int) -> Zone {
        let i = x.idx() as int;
        let z = self.forget(i).add(i, 0, imm);
        let z = if imm > i64::MIN { z.add(0, i, -imm) } else { z };
        let b = z.bounds[i];
        z.with_bounds(i, Bounds { s64_min: imm as i64, s64_max: imm as i64, ..b }).close().sync(x)
    }

    pub open spec fn assign_reg(self, x: Reg, y: Reg) -> Zone {
        let (i, j) = (x.idx() as int, y.idx() as int);
        if x == y {
            self
        } else {
            self.forget(i).add(i, j, 0).add(j, i, 0).close()
        }
    }

    pub open spec fn assign_reg_offset(self, dst: Reg, src: Reg, imm: int) -> Zone {
        let (i, j) = (dst.idx() as int, src.idx() as int);
        if dst == src {
            self.add_imm(dst, imm)
        } else {
            let z = self.forget(i).add(i, j, imm);
            let z = if imm > i64::MIN { z.add(j, i, -imm) } else { z };
            z.close()
        }
    }

    pub open spec fn assign_interval(self, r: Reg, min: int, max: int) -> Zone {
        self.forget(r.idx() as int).assume_range(r, min, max).close()
    }

    /// The matrix after `x` grew by `c`, before closure.
    pub open spec fn shift(self, x: int, c: int) -> Seq<Seq<i64>> {
        table(
            self.m.len(),
            |i: int, j: int|
                if i == x && j == x {
                    0i64
                } else if i == x && self.m[i][j] < INF {
                    clamp_spec(self.m[i][j] + c)
                } else if j == x && self.m[i][j] < INF {
                    clamp_spec(self.m[i][j] - c)
                } else {
                    self.m[i][j]
                },
        )
    }

    /// The ranges after a signed range moved by `[lo, hi]`: the other ranges
    /// are given up.
    pub open spec fn moved_bounds(b: Bounds, lo: int, hi: int) -> Bounds {
        Bounds {
            s64_min: clip64(b.s64_min + lo),
            s64_max: clip64(b.s64_max + hi),
            ..Bounds::unknown()
        }
    }

    pub open spec fn add_imm(self, x: Reg, c: int) -> Zone {
        let i = x.idx() as int;
        Zone { m: self.shift(i, c), ..self }.with_bounds(
            i,
            Zone::moved_bounds(self.bounds[i], c, c),
        ).close()
    }

    /// The matrix after a value in `[lo, hi]` was added to `x`, before closure.
    pub open spec fn shift_up(self, x: int, lo: int, hi: i64) -> Seq<Seq<i64>> {
        table(
            self.m.len(),
            |i: int, j: int|
                if i == x && j == x {
                    0i64
                } else if i == x && self.m[i][j] < INF {
                    chain(self.m[i][j], hi)
                } else if j == x && self.m[i][j] < INF {
                    clamp_spec(self.m[i][j] - lo)
                } else {
                    self.m[i][j]
                },
        )
    }

    /// The matrix after a value in `[lo, hi]` was subtracted from `x`, before
    /// closure.
    pub open spec fn shift_down(self, x: int, lo: int, hi: i64) -> Seq<Seq<i64>> {
        table(
            self.m.len(),
            |i: int, j: int|
                if i == x && j == x {
                    0i64
                } else if i == x && self.m[i][j] < INF {
                    clamp_spec(self.m[i][j] - lo)
                } else if j == x && self.m[i][j] < INF {
                    chain(self.m[i][j], hi)
                } else {
                    self.m[i][j]
                },
        )
    }

    pub open spec fn add_reg(self, dst: Reg, src: Reg) -> Zone {
        let i = dst.idx() as int;
        let (lo, hi) = self.distance(src.idx() as int, 0);
        if lo != i64::MIN && hi != i64::MAX {
            Zone { m: self.shift_up(i, lo as int, hi), ..self }.with_bounds(
                i,
                Zone::moved_bounds(self.bounds[i], lo as int, hi as int),
            ).stamp(i).close()
        } else {
            let (dlo, dhi) = self.distance(i, 0);
            let z = self.forget(i);
            let z = if dlo != i64::MIN && lo != i64::MIN {
                z.assume_ge_imm(dst, clip64(dlo + lo) as int)
            } else {
                z
            };
            let z = if dhi != i64::MAX && hi != i64::MAX {
                z.assume_le_imm(dst, clip64(dhi + hi) as int)
            } else {
                z
            };
            z.close()
        }
    }

    pub open spec fn sub_reg(self, dst: Reg, src: Reg) -> Zone {
        let i = dst.idx() as int;
        let (lo, hi) = self.distance(src.idx() as int, 0);
        if lo != i64::MIN && hi != i64::MAX {
            Zone { m: self.shift_down(i, lo as int, hi), ..self }.with_bounds(
                i,
                Zone::moved_bounds(self.bounds[i], -hi, -lo),
            ).close()
        } else {
            let (dlo, dhi) = self.distance(i, 0);
            let z = self.forget(i);
            let z = if dlo != i64::MIN && hi != i64::MAX {
                z.assume_ge_imm(dst, clip64(dlo - hi) as int)
            } else {
                z
            };
            let z = if dhi != i64::MAX && lo != i64::MIN {
                z.assume_le_imm(dst, clip64(dhi - lo) as int)
            } else {
                z
            };
            z.close()
        }
    }

    pub open spec fn and_imm(self, dst: Reg, mask: int) -> Zone {
        let i = dst.idx() as int;
        self.forget(i).add(i, 0, mask).add(0, i, 0).close()
    }

    pub open spec fn mul_imm(self, dst: Reg, imm: int) -> Zone {
        let i = dst.idx() as int;
        if imm == 0 {
            self.assign_imm(dst, 0)
        } else if imm == 1 {
            self
        } else if imm < 0 {
            self.forget(i).close()
        } else {
            let (lo, hi) = self.distance(i, 0);
            let z = self.forget(i);
            let z = if lo != i64::MIN { z.assume_ge_imm(dst, clip64(lo * imm) as int) } else { z };
            let z = if hi != i64::MAX { z.assume_le_imm(dst, clip64(hi * imm) as int) } else { z };
            z.close()
        }
    }

    pub open spec fn div_imm(self, reg: Reg, imm: int) -> Zone {
        let i = reg.idx() as int;
        let (lo, hi) = self.distance(i, 0);
        if imm == 0 {
            self
        } else if lo >= 0 && hi != i64::MAX && hi >= 0 {
            let (a, b) = (truncated_div(lo as int, imm), truncated_div(hi as int, imm));
            let (low, high) = if imm > 0 { (a, b) } else { (b, a) };
            self.forget(i).close().assume_ge_imm(reg, low).assume_le_imm(reg, high)
        } else {
            self.forget(i).close()
        }
    }

    pub open spec fn neg(self, reg: Reg) -> Zone {
        let i = reg.idx() as int;
        let (lo, hi) = self.distance(i, 0);
        if lo != i64::MIN && hi != i64::MAX {
            self.forget(i).close().assume_ge_imm(reg, wrapped_neg(hi) as int).assume_le_imm(
                reg,
                wrapped_neg(lo) as int,
            )
        } else {
            self.forget(i).close()
        }
    }

    pub open spec fn init_anchors(self) -> Zone {
        self.add(12, 13, 0).add(13, 14, 0).close()
    }

    pub open spec fn bind(self, x: int, y: int) -> Zone {
        self.add(x, y, 0).add(y, x, 0).close()
    }

    /// The zone without what its matrix said of the anchors.
    pub open spec fn clear_anchors(self) -> Zone {
        Zone {
            m: table(
                self.m.len(),
                |i: int, j: int|
                    if i >= 12 || j >= 12 {
                        if i == j { 0i64 } else { INF }
                    } else {
                        self.m[i][j]
                    },
            ),
            ..self
        }
    }

    /// Adds the bound that `other` has on `a - b`, if it is the tighter one.
    pub open spec fn adopt(self, other: Zone, a: int, b: int) -> Zone {
        if other.m[a][b] < self.m[a][b] { self.add(a, b, other.m[a][b] as int) } else { self }
    }

    pub open spec fn adopt_anchors(self, other: Zone) -> Zone {
        self.adopt(other, 13, 14).adopt(other, 13, 12).adopt(other, 14, 13).adopt(
            other,
            14,
            12,
        ).adopt(other, 12, 13).adopt(other, 12, 14).close()
    }

    /// Carries bounds from the matrix to the ranges of `x`, among the ranges,
    /// and back to the matrix.
    pub open spec fn sync(self, x: Reg) -> Zone {
        if x == Reg::Zero || x.is_anchor() {
            self
        } else {
            let i = x.idx() as int;
            let b = sync_ranges(tighten_signed(self.bounds[i], self.m[i][0], self.m[0][i]));
            let z = self.with_bounds(i, b);
            let z = if b.s64_max < i64::MAX { z.add(i, 0, b.s64_max as int) } else { z };
            if b.s64_min > i64::MIN { z.add(0, i, -b.s64_min) } else { z }
        }
    }
}

/// Quotient rounded toward zero, for a non-negative dividend.
pub open spec fn truncated_div(a: int, b: int) -> int {
    if b > 0 { a / b } else { -(a / (-b)) }
}

/// Two's-complement negation.
pub open spec fn wrapped_neg(a: i64) -> i64 {
    if a == i64::MIN { i64::MIN } else { (-a) as i64 }
}

/// The signed 64-bit range cut down by matrix bounds `x <= ub`, `-x <= nlb`.
pub open spec fn tighten_signed(b: Bounds, ub: i64, nlb: i64) -> Bounds {
    Bounds {
        s64_max: if ub < INF { min_i64(b.s64_max, ub) } else { b.s64_max },
        s64_min: if nlb < INF { max_i64(b.s64_min, wrapped_neg(nlb)) } else { b.s64_min },
        ..b
    }
}

/// 64-bit signed and unsigned ranges carried into each other where both read
/// the same.
pub open spec fn sync_64(b: Bounds) -> Bounds {
    let b = if b.s64_min >= 0 {
        Bounds {
            u64_min: max_u64(b.u64_min, b.s64_min as u64),
            u64_max: min_u64(b.u64_max, b.s64_max as u64),
            ..b
        }
    } else {
        b
    };
    if b.u64_max <= i64::MAX as u64 {
        Bounds {
            s64_min: max_i64(b.s64_min, b.u64_min as i64),
            s64_max: min_i64(b.s64_max, b.u64_max as i64),
            ..b
        }
    } else {
        b
    }
}

/// The same in 32 bits.
pub open spec fn sync_32(b: Bounds) -> Bounds {
    let b = if b.s32_min >= 0 {
        Bounds {
            u32_min: max_u32(b.u32_min, b.s32_min as u32),
            u32_max: min_u32(b.u32_max, b.s32_max as u32),
            ..b
        }
    } else {
        b
    };
    if b.u32_max <= i32::MAX as u32 {
        Bounds {
            s32_min: max_i32(b.s32_min, b.u32_min as i32),
            s32_max: min_i32(b.s32_max, b.u32_max as i32),
            ..b
        }
    } else {
        b
    }
}

/// 64-bit ranges that fit carried into 32 bits.
pub open spec fn sync_down(b: Bounds) -> Bounds {
    let b = if b.s64_min >= i32::MIN && b.s64_max <= i32::MAX {
        Bounds {
            s32_min: max_i32(b.s32_min, b.s64_min as i32),
            s32_max: min_i32(b.s32_max, b.s64_max as i32),
            ..b
        }
    } else {
        b
    };
    if b.u64_max <= u32::MAX {
        Bounds {
            u32_min: max_u32(b.u32_min, b.u64_min as u32),
            u32_max: min_u32(b.u32_max, b.u64_max as u32),
            ..b
        }
    } else {
        b
    }
}

/// 32-bit ranges carried back to 64 bits when the upper half is known clear.
pub open spec fn sync_up(b: Bounds) -> Bounds {
    if b.u64_max <= u32::MAX {
        let b = Bounds {
            u64_min: max_u64(b.u64_min, b.u32_min as u64),
            u64_max: min_u64(b.u64_max, b.u32_max as u64),
            ..b
        };
        Bounds {
            s64_min: max_i64(b.s64_min, b.u64_min as i64),
            s64_max: min_i64(b.s64_max, b.u64_max as i64),
            ..b
        }
    } else {
        b
    }
}

/// All ranges carried into each other.
pub open spec fn sync_ranges(b: Bounds) -> Bounds {
    sync_up(sync_down(sync_32(sync_64(b))))
}

/// Two's-complement negation.
fn neg_i64(a: i64) -> (r: i64)
    ensures
        r == wrapped_neg(a),
{
    if a == i64::MIN { a } else { -a }
}

// ---- queries ----------------------------------------------------------------

/// The range of a register; `i64::MIN` and `i64::MAX` stand for "no bound".
pub fn get_interval(dbm: &Dbm, x: Reg) -> (r: (i64, i64))
    requires
        dbm.full(),
    ensures
        r == dbm@.distance(x.idx() as int, 0),
{
    get_distance_interval(dbm, x, Reg::Zero)
}

/// The range of `x - y`.
pub fn get_distance_interval(dbm: &Dbm, x: Reg, y: Reg) -> (r: (i64, i64))
    requires
        dbm.full(),
    ensures
        r == dbm@.distance(x.idx() as int, y.idx() as int),
{
    let x_minus_y: i64 = dbm.get(x, y);
    let y_minus_x: i64 = dbm.get(y, x);
    let ub: i64 = if x_minus_y >= INF { i64::MAX } else { x_minus_y };
    let lb: i64 = if y_minus_x >= INF { i64::MIN } else { neg_i64(y_minus_x) };
    (lb, ub)
}

/// The value of `x - y`, if only one is possible.
pub fn get_distance_fixed(dbm: &Dbm, x: Reg, y: Reg) -> (r: Option<i64>)
    requires
        dbm.full(),
    ensures
        r == dbm@.fixed(x.idx() as int, y.idx() as int),
{
    let (lo, hi) = get_distance_interval(dbm, x, y);
    if lo == hi && lo != i64::MIN && lo != i64::MAX { Some(lo) } else { None }
}

/// The value of a register, if only one is possible.
pub fn get_fixed_value(dbm: &Dbm, x: Reg) -> (r: Option<i64>)
    requires
        dbm.full(),
    ensures
        r == dbm@.fixed(x.idx() as int, 0),
{
    get_distance_fixed(dbm, x, Reg::Zero)
}

/// Whether the register is known to be zero.
pub fn proven_zero(dbm: &Dbm, x: Reg) -> (r: bool)
    requires
        dbm.full(),
    ensures
        r == (dbm@.distance(x.idx() as int, 0) == (0i64, 0i64)),
{
    let (l, u) = get_interval(dbm, x);
    l == u && l == 0
}

/// Whether the register is known to be at least zero.
pub fn proven_nonnegative(dbm: &Dbm, x: Reg) -> (r: bool)
    requires
        dbm.full(),
    ensures
        r == (dbm@.lower(x.idx() as int, 0) >= 0),
{
    let (lo, _) = get_interval(dbm, x);
    lo >= 0
}

/// Whether the register is known to be greater than zero.
pub fn proven_positive(dbm: &Dbm, x: Reg) -> (r: bool)
    requires
        dbm.full(),
    ensures
        r == (dbm@.lower(x.idx() as int, 0) > 0),
{
    let (lo, _) = get_interval(dbm, x);
    lo > 0
}

/// Whether the matrix bounds `v - zero` by `0` and `u32::MAX`.
pub fn proven_u32_range(dbm: &Dbm, v: Reg, zero: Reg) -> (r: bool)
    requires
        dbm.full(),
    ensures
        r == (dbm@.m[v.idx() as int][zero.idx() as int] <= u32::MAX
            && dbm@.m[zero.idx() as int][v.idx() as int] <= 0),
{
    let ub: i64 = dbm.get(v, zero);
    let lb: i64 = dbm.get(zero, v);
    ub <= 0xffff_ffff && lb <= 0
}

// ---- assignments ------------------------------------------------------------

/// Forgets everything known of a register.
pub fn forget(dbm: &mut Dbm, x: Reg)
    requires
        old(dbm).full(),
        !x.is_anchor(),
    ensures
        final(dbm)@ == old(dbm)@.forget(x.idx() as int).close(),
        final(dbm).full(),
{
    dbm.forget_var(x);
    dbm.close();
}

/// `x = imm`.
pub fn assign_imm(dbm: &mut Dbm, x: Reg, imm: i64)
    requires
        old(dbm).full(),
        !x.is_anchor(),
    ensures
        final(dbm)@ == old(dbm)@.assign_imm(x, imm as int),
        final(dbm).full(),
{
    dbm.forget_var(x);
    dbm.add_constraint(x, Reg::Zero, imm);
    if imm > i64::MIN {
        dbm.add_constraint(Reg::Zero, x, -imm);
    }
    let mut b: Bounds = dbm.bounds[x.idx()];
    b.s64_min = imm;
    b.s64_max = imm;
    dbm.bounds[x.idx()] = b;
    dbm.close();
    sync_bounds(dbm, x);
}

/// `x = 0`.
pub fn assign_zero(dbm: &mut Dbm, x: Reg)
    requires
        old(dbm).full(),
        !x.is_anchor(),
    ensures
        final(dbm)@ == old(dbm)@.assign_imm(x, 0),
        final(dbm).full(),
{
    assign_imm(dbm, x, 0);
}

/// `x = y`.
pub fn assign_reg(dbm: &mut Dbm, x: Reg, y: Reg)
    requires
        old(dbm).full(),
        !x.is_anchor(),
    ensures
        final(dbm)@ == old(dbm)@.assign_reg(x, y),
        final(dbm).full(),
{
    if x == y {
        return;
    }
    dbm.forget_var(x);
    dbm.add_constraint(x, y, 0);
    dbm.add_constraint(y, x, 0);
    dbm.close();
}

/// `dst = src + imm`.
pub fn assign_reg_offset(dbm: &mut Dbm, dst: Reg, src: Reg, imm: i64)
    requires
        old(dbm).full(),
        !dst.is_anchor(),
    ensures
        final(dbm)@ == old(dbm)@.assign_reg_offset(dst, src, imm as int),
        final(dbm).full(),
{
    if dst == src {
        add_imm(dbm, dst, imm);
        return;
    }
    dbm.forget_var(dst);
    dbm.add_constraint(dst, src, imm);
    if imm > i64::MIN {
        dbm.add_constraint(src, dst, -imm);
    }
    dbm.close();
}

/// `r` takes some value in `[min, max]`.
pub fn assign_interval(dbm: &mut Dbm, r: Reg, min: i64, max: i64)
    requires
        old(dbm).full(),
        !r.is_anchor(),
    ensures
        final(dbm)@ == old(dbm)@.assign_interval(r, min as int, max as int),
        final(dbm).full(),
{
    dbm.forget_var(r);
    assume_range(dbm, r, min, max);
    dbm.close();
}

// ---- arithmetic -------------------------------------------------------------

/// Replaces the ranges of a register by those after its value moved by
/// something in `[lo, hi]`.
fn move_bounds(dbm: &mut Dbm, i: usize, min: i64, max: i64)
    requires
        old(dbm).full(),
        i < DBM_DIM,
    ensures
        final(dbm)@ == old(dbm)@.with_bounds(
            i as int,
            (Bounds { s64_min: min, s64_max: max, ..Bounds::unknown() }),
        ),
        final(dbm).full(),
{
    let mut b: Bounds = Bounds::unknown();
    b.s64_min = min;
    b.s64_max = max;
    dbm.bounds[i] = b;
}

/// `x = x + c`.
pub fn add_imm(d: &mut Dbm, x: Reg, c: i64)
    requires
        old(d).full(),
    ensures
        final(d)@ == old(d)@.add_imm(x, c as int),
        final(d).full(),
{
    let xi: usize = x.idx();
    let n: usize = d.num_vars();
    let ghost z = old(d)@;
    let ghost want = z.shift(xi as int, c as int);
    let mut j: usize = 0;
    while j < n
        invariant
            j <= n,
            n == DBM_DIM,
            xi < n,
            z.sized(n as int),
            d.full(),
            d@.bounds == z.bounds,
            d@.prov == z.prov,
            want == z.shift(xi as int, c as int),
            forall|a: int, b: int|
                0 <= a < n && 0 <= b < n && !(a == xi && b == xi) ==> #[trigger] d@.m[a][b] == if a
                    == xi && b < j || b == xi && a < j {
                    want[a][b]
                } else {
                    z.m[a][b]
                },
        decreases n - j,
    {
        let ghost before = d@;
        let old_xz: i64 = d.get_idx(xi, j);
        if old_xz < INF {
            d.set_idx(xi, j, clamp_upper_bound(sat_add(old_xz, c)));
        }
        let old_zx: i64 = d.get_idx(j, xi);
        if old_zx < INF {
            d.set_idx(j, xi, clamp_upper_bound(sat_sub(old_zx, c)));
        }
        assert forall|a: int, b: int|
            0 <= a < n && 0 <= b < n && !(a == xi && b == xi) implies #[trigger] d@.m[a][b] == if a
            == xi && b < j + 1 || b == xi && a < j + 1 {
            want[a][b]
        } else {
            z.m[a][b]
        } by {
            assert(before.m[a][b] == if a == xi && b < j || b == xi && a < j {
                want[a][b]
            } else {
                z.m[a][b]
            });
        }
        j = j + 1;
    }
    d.set_idx(xi, xi, 0);
    assert(d@.m =~= want) by {
        assert forall|a: int| 0 <= a < n implies d@.m[a] == want[a] by {
            assert(d@.m[a] =~= want[a]);
        }
    }
    let b: Bounds = d.bounds[xi];
    move_bounds(d, xi, sat_add(b.s64_min, c), sat_add(b.s64_max, c));
    d.close();
}

/// `dst += imm`.
pub fn apply_add_imm(dbm: &mut Dbm, dst: Reg, imm: i64)
    requires
        old(dbm).full(),
    ensures
        final(dbm)@ == old(dbm)@.add_imm(dst, imm as int),
        final(dbm).full(),
{
    add_imm(dbm, dst, imm);
}

/// Shifts row and column `di` by a value in `[lo, hi]`.
fn shift_up(d: &mut Dbm, di: usize, lo: i64, hi: i64)
    requires
        old(d).full(),
        di < DBM_DIM,
    ensures
        final(d)@ == (Zone { m: old(d)@.shift_up(di as int, lo as int, hi), ..old(d)@ }),
        final(d).full(),
{
    let n: usize = d.num_vars();
    let ghost z = old(d)@;
    let ghost want = z.shift_up(di as int, lo as int, hi);
    let mut j: usize = 0;
    while j < n
        invariant
            j <= n,
            n == DBM_DIM,
            di < n,
            z.sized(n as int),
            d.full(),
            d@.bounds == z.bounds,
            d@.prov == z.prov,
            want == z.shift_up(di as int, lo as int, hi),
            forall|a: int, b: int|
                0 <= a < n && 0 <= b < n && !(a == di && b == di) ==> #[trigger] d@.m[a][b] == if a
                    == di && b < j || b == di && a < j {
                    want[a][b]
                } else {
                    z.m[a][b]
                },
        decreases n - j,
    {
        let ghost before = d@;
        if j != di {
            let d_dj: i64 = d.get_idx(di, j);
            if d_dj < INF {
                d.set_idx(di, j, clamped_add(d_dj, hi));
            }
            let d_jd: i64 = d.get_idx(j, di);
            if d_jd < INF {
                d.set_idx(j, di, clamp_upper_bound(sat_sub(d_jd, lo)));
            }
        }
        assert forall|a: int, b: int|
            0 <= a < n && 0 <= b < n && !(a == di && b == di) implies #[trigger] d@.m[a][b] == if a
            == di && b < j + 1 || b == di && a < j + 1 {
            want[a][b]
        } else {
            z.m[a][b]
        } by {
            assert(before.m[a][b] == if a == di && b < j || b == di && a < j {
                want[a][b]
            } else {
                z.m[a][b]
            });
        }
        j = j + 1;
    }
    d.set_idx(di, di, 0);
    assert(d@.m =~= want) by {
        assert forall|a: int| 0 <= a < n implies d@.m[a] == want[a] by {
            assert(d@.m[a] =~= want[a]);
        }
    }
}

/// Shifts row and column `di` by the negative of a value in `[lo, hi]`.
fn shift_down(d: &mut Dbm, di: usize, lo: i64, hi: i64)
    requires
        old(d).full(),
        di < DBM_DIM,
    ensures
        final(d)@ == (Zone { m: old(d)@.shift_down(di as int, lo as int, hi), ..old(d)@ }),
        final(d).full(),
{
    let n: usize = d.num_vars();
    let ghost z = old(d)@;
    let ghost want = z.shift_down(di as int, lo as int, hi);
    let mut j: usize = 0;
    while j < n
        invariant
            j <= n,
            n == DBM_DIM,
            di < n,
            z.sized(n as int),
            d.full(),
            d@.bounds == z.bounds,
            d@.prov == z.prov,
            want == z.shift_down(di as int, lo as int, hi),
            forall|a: int, b: int|
                0 <= a < n && 0 <= b < n && !(a == di && b == di) ==> #[trigger] d@.m[a][b] == if a
                    == di && b < j || b == di && a < j {
                    want[a][b]
                } else {
                    z.m[a][b]
                },
        decreases n - j,
    {
        let ghost before = d@;
        if j != di {
            let d_dj: i64 = d.get_idx(di, j);
            if d_dj < INF {
                d.set_idx(di, j, clamp_upper_bound(sat_sub(d_dj, lo)));
            }
            let d_jd: i64 = d.get_idx(j, di);
            if d_jd < INF {
                d.set_idx(j, di, clamped_add(d_jd, hi));
            }
        }
        assert forall|a: int, b: int|
            0 <= a < n && 0 <= b < n && !(a == di && b == di) implies #[trigger] d@.m[a][b] == if a
            == di && b < j + 1 || b == di && a < j + 1 {
            want[a][b]
        } else {
            z.m[a][b]
        } by {
            assert(before.m[a][b] == if a == di && b < j || b == di && a < j {
                want[a][b]
            } else {
                z.m[a][b]
            });
        }
        j = j + 1;
    }
    d.set_idx(di, di, 0);
    assert(d@.m =~= want) by {
        assert forall|a: int| 0 <= a < n implies d@.m[a] == want[a] by {
            assert(d@.m[a] =~= want[a]);
        }
    }
}

/// `dst += src`.
pub fn apply_add_reg(dbm: &mut Dbm, dst: Reg, src: Reg)
    requires
        old(dbm).full(),
        !dst.is_anchor(),
    ensures
        final(dbm)@ == old(dbm)@.add_reg(dst, src),
        final(dbm).full(),
{
    let (src_lo, src_hi) = get_interval(dbm, src);
    if src_lo != i64::MIN && src_hi != i64::MAX {
        let di: usize = dst.idx();
        shift_up(dbm, di, src_lo, src_hi);
        let b: Bounds = dbm.bounds[di];
        move_bounds(dbm, di, sat_add(b.s64_min, src_lo), sat_add(b.s64_max, src_hi));
        dbm.stamp_provenance_for_var(di);
        dbm.close();
    } else {
        let (dst_lo, dst_hi) = get_interval(dbm, dst);
        dbm.forget_var(dst);
        if dst_lo != i64::MIN && src_lo != i64::MIN {
            assume_ge_imm(dbm, dst, sat_add(dst_lo, src_lo));
        }
        if dst_hi != i64::MAX && src_hi != i64::MAX {
            assume_le_imm(dbm, dst, sat_add(dst_hi, src_hi));
        }
        dbm.close();
    }
}

/// `dst -= src`.
pub fn apply_sub_reg(dbm: &mut Dbm, dst: Reg, src: Reg)
    requires
        old(dbm).full(),
        !dst.is_anchor(),
    ensures
        final(dbm)@ == old(dbm)@.sub_reg(dst, src),
        final(dbm).full(),
{
    let (src_lo, src_hi) = get_interval(dbm, src);
    if src_lo != i64::MIN && src_hi != i64::MAX {
        let di: usize = dst.idx();
        shift_down(dbm, di, src_lo, src_hi);
        let b: Bounds = dbm.bounds[di];
        move_bounds(dbm, di, sat_sub(b.s64_min, src_hi), sat_sub(b.s64_max, src_lo));
        dbm.close();
    } else {
        let (dst_lo, dst_hi) = get_interval(dbm, dst);
        dbm.forget_var(dst);
        if dst_lo != i64::MIN && src_hi != i64::MAX {
            assume_ge_imm(dbm, dst, sat_sub(dst_lo, src_hi));
        }
        if dst_hi != i64::MAX && src_lo != i64::MIN {
            assume_le_imm(dbm, dst, sat_sub(dst_hi, src_lo));
        }
        dbm.close();
    }
}

/// `dst &= mask`: afterwards `0 <= dst <= mask`.
pub fn apply_and_imm(dbm: &mut Dbm, dst: Reg, mask: i64)
    requires
        old(dbm).full(),
        !dst.is_anchor(),
    ensures
        final(dbm)@ == old(dbm)@.and_imm(dst, mask as int),
        final(dbm).full(),
{
    dbm.forget_var(dst);
    dbm.add_constraint(dst, Reg::Zero, mask);
    dbm.add_constraint(Reg::Zero, dst, 0);
    dbm.close();
}

/// `dst *= imm`.
pub fn apply_mul_imm(dbm: &mut Dbm, dst: Reg, imm: i64)
    requires
        old(dbm).full(),
        !dst.is_anchor(),
    ensures
        final(dbm)@ == old(dbm)@.mul_imm(dst, imm as int),
        final(dbm).full(),
{
    if imm == 0 {
        assign_zero(dbm, dst);
        return;
    }
    if imm == 1 {
        return;
    }
    if imm < 0 {
        forget(dbm, dst);
        return;
    }
    let (ld, ud) = get_interval(dbm, dst);
    dbm.forget_var(dst);
    if ld != i64::MIN {
        assume_ge_imm(dbm, dst, sat_mul(ld, imm));
    }
    if ud != i64::MAX {
        assume_le_imm(dbm, dst, sat_mul(ud, imm));
    }
    dbm.close();
}

/// `a / b` rounded toward zero, for `a >= 0` and `b != 0`.
fn div_toward_zero(a: i64, b: i64) -> (r: i64)
    requires
        a >= 0,
        b != 0,
    ensures
        r == truncated_div(a as int, b as int),
{
    if b > 0 {
        assert(0 <= a as int / b as int <= a) by (nonlinear_arith)
            requires
                a >= 0,
                b > 0,
        ;
        a / b
    } else if b == i64::MIN {
        let d: i128 = a as i128 / 9223372036854775808i128;
        assert(d == 0);
        0
    } else {
        let c: i64 = -b;
        assert(0 <= a as int / c as int <= a) by (nonlinear_arith)
            requires
                a >= 0,
                c > 0,
        ;
        -(a / c)
    }
}

/// `reg /= imm`. A negative divisor exchanges the ends of the range.
pub fn apply_div_imm(dbm: &mut Dbm, reg: Reg, imm: i64)
    requires
        old(dbm).full(),
        !reg.is_anchor(),
    ensures
        final(dbm)@ == old(dbm)@.div_imm(reg, imm as int),
        final(dbm).full(),
{
    if imm == 0 {
        return;
    }
    let (l, h) = get_interval(dbm, reg);
    forget(dbm, reg);
    if l != i64::MIN && h != i64::MAX && l >= 0 && h >= 0 {
        let a: i64 = div_toward_zero(l, imm);
        let b: i64 = div_toward_zero(h, imm);
        let (new_lo, new_hi): (i64, i64) = if imm > 0 { (a, b) } else { (b, a) };
        assume_ge_imm(dbm, reg, new_lo);
        assume_le_imm(dbm, reg, new_hi);
    }
}

/// `dst /= src`: nothing is known of `dst` afterwards.
pub fn apply_div_reg(dbm: &mut Dbm, dst: Reg, _src: Reg)
    requires
        old(dbm).full(),
        !dst.is_anchor(),
    ensures
        final(dbm)@ == old(dbm)@.forget(dst.idx() as int).close(),
        final(dbm).full(),
{
    forget(dbm, dst);
}

/// `reg = -reg`.
pub fn apply_neg(dbm: &mut Dbm, reg: Reg)
    requires
        old(dbm).full(),
        !reg.is_anchor(),
    ensures
        final(dbm)@ == old(dbm)@.neg(reg),
        final(dbm).full(),
{
    let (l, h) = get_interval(dbm, reg);
    forget(dbm, reg);
    if l != i64::MIN && h != i64::MAX {
        assume_ge_imm(dbm, reg, neg_i64(h));
        assume_le_imm(dbm, reg, neg_i64(l));
    }
}

// ---- refinement -------------------------------------------------------------

/// Assumes `x <= y`.
pub fn assume_le(dbm: &mut Dbm, x: Reg, y: Reg)
    requires
        old(dbm).full(),
    ensures
        final(dbm)@ == old(dbm)@.add(x.idx() as int, y.idx() as int, 0).close(),
        final(dbm).full(),
{
    dbm.add_constraint(x, y, 0);
    dbm.close();
}

/// Assumes `x >= y`.
pub fn assume_ge(dbm: &mut Dbm, x: Reg, y: Reg)
    requires
        old(dbm).full(),
    ensures
        final(dbm)@ == old(dbm)@.add(y.idx() as int, x.idx() as int, 0).close(),
        final(dbm).full(),
{
    dbm.add_constraint(y, x, 0);
    dbm.close();
}

/// Assumes `x > y`.
pub fn assume_gt(dbm: &mut Dbm, x: Reg, y: Reg)
    requires
        old(dbm).full(),
    ensures
        final(dbm)@ == old(dbm)@.add(y.idx() as int, x.idx() as int, -1).close(),
        final(dbm).full(),
{
    dbm.add_constraint(y, x, -1);
    dbm.close();
}

/// Assumes `x <= y + c`.
pub fn assume_le_offset(dbm: &mut Dbm, x: Reg, y: Reg, c: i64)
    requires
        old(dbm).full(),
    ensures
        final(dbm)@ == old(dbm)@.add(x.idx() as int, y.idx() as int, c as int).close(),
        final(dbm).full(),
{
    dbm.add_constraint(x, y, c);
    dbm.close();
}

/// Assumes `x <= c`.
pub fn assume_le_imm(dbm: &mut Dbm, x: Reg, c: i64)
    requires
        old(dbm).full(),
    ensures
        final(dbm)@ == old(dbm)@.assume_le_imm(x, c as int),
        final(dbm).full(),
{
    if c >= INF {
        return;
    }
    dbm.add_constraint(x, Reg::Zero, c);
    dbm.close();
    sync_bounds(dbm, x);
}

/// Assumes `x >= c`.
pub fn assume_ge_imm(dbm: &mut Dbm, x: Reg, c: i64)
    requires
        old(dbm).full(),
    ensures
        final(dbm)@ == old(dbm)@.assume_ge_imm(x, c as int),
        final(dbm).full(),
{
    if c == i64::MIN {
        return;
    }
    dbm.add_constraint(Reg::Zero, x, -c);
    dbm.close();
    sync_bounds(dbm, x);
}

/// Assumes `min <= x <= max`.
pub fn assume_range(dbm: &mut Dbm, x: Reg, min: i64, max: i64)
    requires
        old(dbm).full(),
    ensures
        final(dbm)@ == old(dbm)@.assume_range(x, min as int, max as int),
        final(dbm).full(),
{
    assume_ge_imm(dbm, x, min);
    assume_le_imm(dbm, x, max);
}

/// Assumes `x == c`.
pub fn assume_eq_imm(dbm: &mut Dbm, x: Reg, c: i64)
    requires
        old(dbm).full(),
    ensures
        final(dbm)@ == old(dbm)@.assume_eq_imm(x, c as int),
        final(dbm).full(),
{
    dbm.add_constraint(x, Reg::Zero, c);
    if c > i64::MIN {
        dbm.add_constraint(Reg::Zero, x, -c);
    }
    dbm.close();
    sync_bounds(dbm, x);
}

/// Assumes `x < c`. Below `i64::MIN` there is nothing, so that bound makes
/// the matrix inconsistent.
pub fn assume_lt_imm(d: &mut Dbm, x: Reg, c: i64)
    requires
        old(d).full(),
    ensures
        final(d)@ == old(d)@.assume_lt_imm(x, c as int),
        final(d).full(),
{
    if c == i64::MIN {
        d.set(Reg::R0, Reg::R0, -1);
        return;
    }
    if c >= INF {
        return;
    }
    d.add_constraint(x, Reg::Zero, c - 1);
    d.close();
    sync_bounds(d, x);
}

// ---- packet geometry --------------------------------------------------------

/// Establishes `data_meta <= data <= data_end`.
pub fn init_packet_anchors(dbm: &mut Dbm)
    requires
        old(dbm).full(),
    ensures
        final(dbm)@ == old(dbm)@.init_anchors(),
        final(dbm).full(),
{
    dbm.add_constraint(Reg::AnchorDataMeta, Reg::AnchorData, 0);
    dbm.add_constraint(Reg::AnchorData, Reg::AnchorDataEnd, 0);
    dbm.close();
}

/// Establishes `reg == anchor`.
pub fn bind_to_anchor(dbm: &mut Dbm, reg: Reg, anchor: Reg)
    requires
        old(dbm).full(),
        anchor.is_anchor(),
    ensures
        final(dbm)@ == old(dbm)@.bind(reg.idx() as int, anchor.idx() as int),
        final(dbm).full(),
{
    dbm.add_constraint(reg, anchor, 0);
    dbm.add_constraint(anchor, reg, 0);
    dbm.close();
}

/// Whether an access of `size` bytes at `base + off` lies at or above
/// `anchor_start`, and whether it ends at or below `anchor_end`.
pub fn check_region_access(
    dbm: &Dbm,
    base: Reg,
    off: i64,
    size: i64,
    anchor_start: Reg,
    anchor_end: Reg,
) -> (r: (bool, bool))
    requires
        dbm.full(),
    ensures
        ({
            let start = dbm@.m[anchor_start.idx() as int][base.idx() as int];
            let end = dbm@.m[base.idx() as int][anchor_end.idx() as int];
            &&& r.0 == (start < INF && start <= off)
            &&& r.1 == (end < INF && end + off + size <= 0)
        }),
{
    let start_bound: i64 = dbm.get(anchor_start, base);
    let start_safe = start_bound < INF && start_bound <= off;
    let end_bound: i64 = dbm.get(base, anchor_end);
    let reach: i128 = end_bound as i128 + off as i128 + size as i128;
    let end_safe = end_bound < INF && reach <= 0;
    (start_safe, end_safe)
}

/// [`check_region_access`] for the metadata region.
pub fn verify_packet_meta_bounds(dbm: &Dbm, base: Reg, off: i64, size: i64) -> (r: (bool, bool))
    requires
        dbm.full(),
    ensures
        ({
            let start = dbm@.m[12][base.idx() as int];
            let end = dbm@.m[base.idx() as int][13];
            &&& r.0 == (start < INF && start <= off)
            &&& r.1 == (end < INF && end + off + size <= 0)
        }),
{
    check_region_access(dbm, base, off, size, Reg::AnchorDataMeta, Reg::AnchorData)
}

/// [`check_region_access`] for the packet itself.
pub fn verify_packet_bounds(dbm: &Dbm, base: Reg, off: i64, size: i64) -> (r: (bool, bool))
    requires
        dbm.full(),
    ensures
        ({
            let start = dbm@.m[13][base.idx() as int];
            let end = dbm@.m[base.idx() as int][14];
            &&& r.0 == (start < INF && start <= off)
            &&& r.1 == (end < INF && end + off + size <= 0)
        }),
{
    check_region_access(dbm, base, off, size, Reg::AnchorData, Reg::AnchorDataEnd)
}

/// Forgets what the matrix says of the anchors, then establishes their order
/// again.
pub fn reset_packet_anchors(dbm: &mut Dbm)
    requires
        old(dbm).full(),
    ensures
        final(dbm)@ == old(dbm)@.clear_anchors().init_anchors(),
        final(dbm).full(),
{
    let n: usize = dbm.num_vars();
    let ghost z = old(dbm)@;
    let mut i: usize = 12;
    while i < n
        invariant
            12 <= i <= n,
            n == DBM_DIM,
            z.sized(n as int),
            dbm.full(),
            dbm@.bounds == z.bounds,
            dbm@.prov == z.prov,
            forall|a: int, b: int|
                0 <= a < n && 0 <= b < n ==> #[trigger] dbm@.m[a][b] == if 12 <= a < i || 12 <= b
                    < i {
                    if a == b { 0i64 } else { INF }
                } else {
                    z.m[a][b]
                },
        decreases n - i,
    {
        let ghost zi = dbm@;
        let mut j: usize = 0;
        while j < n
            invariant
                j <= n,
                12 <= i < n,
                n == DBM_DIM,
                zi.sized(n as int),
                dbm.full(),
                dbm@.bounds == zi.bounds,
                dbm@.prov == zi.prov,
                forall|a: int, b: int|
                    0 <= a < n && 0 <= b < n ==> #[trigger] dbm@.m[a][b] == if a == i && b < j || b
                        == i && a < j {
                        if a == b { 0i64 } else { INF }
                    } else {
                        zi.m[a][b]
                    },
            decreases n - j,
        {
            if i == j {
                dbm.set_idx(i, j, 0);
            } else {
                dbm.set_idx(i, j, INF);
                dbm.set_idx(j, i, INF);
            }
            j = j + 1;
        }
        i = i + 1;
    }
    assert(dbm@.m =~= z.clear_anchors().m) by {
        assert forall|a: int| 0 <= a < n implies dbm@.m[a] == z.clear_anchors().m[a] by {
            assert(dbm@.m[a] =~= z.clear_anchors().m[a]);
        }
    }
    init_packet_anchors(dbm);
}

/// Adds the bound of `callee` on `a - b`, if it is the tighter one.
fn adopt(caller: &mut Dbm, callee: &Dbm, a: Reg, b: Reg)
    requires
        old(caller).full(),
        callee.full(),
    ensures
        final(caller)@ == old(caller)@.adopt(callee@, a.idx() as int, b.idx() as int),
        final(caller).full(),
{
    let callee_bound: i64 = callee.get(a, b);
    let caller_bound: i64 = caller.get(a, b);
    if callee_bound < caller_bound {
        caller.add_constraint(a, b, callee_bound);
    }
}

/// Takes over from `callee_dbm` the tighter bounds between anchors.
pub fn preserve_anchor_constraints(caller_dbm: &mut Dbm, callee_dbm: &Dbm)
    requires
        old(caller_dbm).full(),
        callee_dbm.full(),
    ensures
        final(caller_dbm)@ == old(caller_dbm)@.adopt_anchors(callee_dbm@),
        final(caller_dbm).full(),
{
    adopt(caller_dbm, callee_dbm, Reg::AnchorData, Reg::AnchorDataEnd);
    adopt(caller_dbm, callee_dbm, Reg::AnchorData, Reg::AnchorDataMeta);
    adopt(caller_dbm, callee_dbm, Reg::AnchorDataEnd, Reg::AnchorData);
    adopt(caller_dbm, callee_dbm, Reg::AnchorDataEnd, Reg::AnchorDataMeta);
    adopt(caller_dbm, callee_dbm, Reg::AnchorDataMeta, Reg::AnchorData);
    adopt(caller_dbm, callee_dbm, Reg::AnchorDataMeta, Reg::AnchorDataEnd);
    caller_dbm.close();
}

// ---- keeping matrix and ranges in step --------------------------------------

/// Carries all ranges of a register into each other.
fn synced(b: Bounds) -> (r: Bounds)
    ensures
        r == sync_ranges(b),
{
    let mut b: Bounds = b;
    if b.s64_min >= 0 {
        b.u64_min = max_u64(b.u64_min, b.s64_min as u64);
        b.u64_max = min_u64(b.u64_max, b.s64_max as u64);
    }
    if b.u64_max <= i64::MAX as u64 {
        b.s64_min = max_i64(b.s64_min, b.u64_min as i64);
        b.s64_max = min_i64(b.s64_max, b.u64_max as i64);
    }
    if b.s32_min >= 0 {
        b.u32_min = max_u32(b.u32_min, b.s32_min as u32);
        b.u32_max = min_u32(b.u32_max, b.s32_max as u32);
    }
    if b.u32_max <= i32::MAX as u32 {
        b.s32_min = max_i32(b.s32_min, b.u32_min as i32);
        b.s32_max = min_i32(b.s32_max, b.u32_max as i32);
    }
    if b.s64_min >= i32::MIN as i64 && b.s64_max <= i32::MAX as i64 {
        b.s32_min = max_i32(b.s32_min, b.s64_min as i32);
        b.s32_max = min_i32(b.s32_max, b.s64_max as i32);
    }
    if b.u64_max <= u32::MAX as u64 {
        b.u32_min = max_u32(b.u32_min, b.u64_min as u32);
        b.u32_max = min_u32(b.u32_max, b.u64_max as u32);
    }
    if b.u64_max <= u32::MAX as u64 {
        b.u64_min = max_u64(b.u64_min, b.u32_min as u64);
        b.u64_max = min_u64(b.u64_max, b.u32_max as u64);
        b.s64_min = max_i64(b.s64_min, b.u64_min as i64);
        b.s64_max = min_i64(b.s64_max, b.u64_max as i64);
    }
    b
}

/// Keeps the ranges of a register and its row and column in the matrix from
/// drifting apart.
pub fn sync_bounds(dbm: &mut Dbm, x: Reg)
    requires
        old(dbm).full(),
    ensures
        final(dbm)@ == old(dbm)@.sync(x),
        final(dbm).full(),
{
    if x == Reg::Zero || x.is_anchor() {
        return;
    }
    let idx: usize = x.idx();
    let mut b: Bounds = dbm.bounds[idx];
    let dbm_max: i64 = dbm.get(x, Reg::Zero);
    if dbm_max < INF {
        b.s64_max = min_i64(b.s64_max, dbm_max);
    }
    let dbm_min_neg: i64 = dbm.get(Reg::Zero, x);
    if dbm_min_neg < INF {
        b.s64_min = max_i64(b.s64_min, neg_i64(dbm_min_neg));
    }
    let b: Bounds = synced(b);
    dbm.bounds[idx] = b;
    if b.s64_max < i64::MAX {
        dbm.add_constraint(x, Reg::Zero, b.s64_max);
    }
    if b.s64_min > i64::MIN {
        dbm.add_constraint(Reg::Zero, x, -b.s64_min);
    }
}

} // verus!
