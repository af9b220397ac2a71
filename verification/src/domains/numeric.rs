//! One interface over the two numeric domains.
use crate::domains::interval::ops as interval_ops;
use crate::domains::interval::ops::{
    between, divided, masked, minus_reg, negated, plus_imm, plus_reg, spread, times_imm,
};
use crate::domains::interval::state::{
    IntervalState, Intervals, PtrOffset, RegInterval, ScalarBounds,
};
use crate::domains::zone::dbm::{Bounds, Dbm, Zone, INF};
use crate::domains::zone::ops as zone_ops;
use crate::domains::zone::ops::wrapped_neg;
use crate::domains::zone::render::matrix_text;
use crate::machine::reg::{Reg, DBM_DIM};
use crate::num::{clip64, clip_u64};
use vstd::prelude::*;

verus! {

/// A numeric abstract state.
#[derive(Debug)]
pub enum NumericDomain {
    /// Bounds on differences between registers.
    Zone(Dbm),
    /// Bounds on single registers.
    Interval(IntervalState),
}

/// What a [`NumericDomain`] holds.
#[verifier::ext_equal]
pub enum Numeric {
    Zone(Zone),
    Interval(Intervals),
}

impl Numeric {
    /// The range of a register.
    pub open spec fn range(self, x: Reg) -> (i64, i64) {
        match self {
            Numeric::Zone(z) => z.distance(x.idx() as int, 0),
            Numeric::Interval(s) => (s.reg(x).bounds.smin, s.reg(x).bounds.smax),
        }
    }

    /// The range of `x - y`.
    pub open spec fn distance(self, x: Reg, y: Reg) -> (i64, i64) {
        match self {
            Numeric::Zone(z) => z.distance(x.idx() as int, y.idx() as int),
            Numeric::Interval(s) => s.distance(x, y),
        }
    }

    /// The one value `x - y` can have, if there is only one.
    pub open spec fn fixed_distance(self, x: Reg, y: Reg) -> Option<i64> {
        match self {
            Numeric::Zone(z) => z.fixed(x.idx() as int, y.idx() as int),
            Numeric::Interval(s) => s.fixed_distance(x, y),
        }
    }

    /// The one value a register can have, if there is only one.
    pub open spec fn fixed(self, x: Reg) -> Option<i64> {
        match self {
            Numeric::Zone(z) => z.fixed(x.idx() as int, 0),
            Numeric::Interval(s) => s.reg(x).bounds.get_constant(),
        }
    }

    /// The state without what it said of a register.
    pub open spec fn forget(self, x: Reg) -> Numeric {
        match self {
            Numeric::Zone(z) => Numeric::Zone(z.forget(x.idx() as int).close()),
            Numeric::Interval(s) => Numeric::Interval(s.assign(x, RegInterval::unknown())),
        }
    }

    pub open spec fn assign_imm(self, x: Reg, imm: i64) -> Numeric {
        match self {
            Numeric::Zone(z) => Numeric::Zone(z.assign_imm(x, imm as int)),
            Numeric::Interval(s) => Numeric::Interval(s.assign(x, RegInterval::constant(imm))),
        }
    }

    pub open spec fn assign_interval(self, r: Reg, min: i64, max: i64) -> Numeric {
        match self {
            Numeric::Zone(z) => Numeric::Zone(z.assign_interval(r, min as int, max as int)),
            Numeric::Interval(s) => Numeric::Interval(
                s.assign(r, between(min, max)),
            ),
        }
    }

    pub open spec fn assume_le_imm(self, x: Reg, c: i64) -> Numeric {
        match self {
            Numeric::Zone(z) => Numeric::Zone(z.assume_le_imm(x, c as int)),
            Numeric::Interval(s) => Numeric::Interval(s.at_most(x, c)),
        }
    }

    pub open spec fn assume_ge_imm(self, x: Reg, c: i64) -> Numeric {
        match self {
            Numeric::Zone(z) => Numeric::Zone(z.assume_ge_imm(x, c as int)),
            Numeric::Interval(s) => Numeric::Interval(s.at_least(x, c)),
        }
    }

    pub open spec fn set_s32(self, x: Reg, min: i32, max: i32) -> Numeric {
        match self {
            Numeric::Zone(z) => Numeric::Zone(
                z.with_bounds(
                    x.idx() as int,
                    (Bounds { s32_min: min, s32_max: max, ..z.bounds[x.idx() as int] }),
                ).sync(x),
            ),
            Numeric::Interval(s) => Numeric::Interval(s),
        }
    }

    pub open spec fn init_map_value(self, reg: Reg) -> Numeric {
        match self {
            Numeric::Zone(z) => Numeric::Zone(z),
            Numeric::Interval(s) => Numeric::Interval(s.assign(reg, RegInterval::anchored(reg))),
        }
    }

    pub open spec fn assume_range(self, x: Reg, min: i64, max: i64) -> Numeric {
        match self {
            Numeric::Zone(z) => Numeric::Zone(z.assume_range(x, min as int, max as int)),
            Numeric::Interval(s) => Numeric::Interval(s.at_least(x, min).at_most(x, max)),
        }
    }

    pub open spec fn assume_eq_imm(self, x: Reg, c: i64) -> Numeric {
        match self {
            Numeric::Zone(z) => Numeric::Zone(z.assume_eq_imm(x, c as int)),
            Numeric::Interval(s) => Numeric::Interval(s.assign(
                    x,
                    (RegInterval { bounds: ScalarBounds::constant(c), ..s.reg(x) }),
                )),
        }
    }

    pub open spec fn and_imm(self, dst: Reg, mask: i64) -> Numeric {
        match self {
            Numeric::Zone(z) => Numeric::Zone(z.and_imm(dst, mask as int)),
            Numeric::Interval(s) => Numeric::Interval(s.assign(dst, masked(mask))),
        }
    }

    pub open spec fn close(self) -> Numeric {
        match self {
            Numeric::Zone(z) => Numeric::Zone(z.close()),
            Numeric::Interval(s) => Numeric::Interval(s),
        }
    }

    pub open spec fn adopt_anchors(self, callee: Numeric) -> Numeric {
        match (self, callee) {
            (Numeric::Zone(z), Numeric::Zone(c)) => Numeric::Zone(z.adopt_anchors(c)),
            _ => self,
        }
    }

    pub open spec fn bind(self, reg: Reg, anchor: Reg) -> Numeric {
        match self {
            Numeric::Zone(z) => Numeric::Zone(z.bind(reg.idx() as int, anchor.idx() as int)),
            Numeric::Interval(s) => Numeric::Interval(
                if anchor.is_anchor() { s.set(reg, RegInterval::anchored(anchor)) } else { s },
            ),
        }
    }

    pub open spec fn reset_anchors(self) -> Numeric {
        match self {
            Numeric::Zone(z) => Numeric::Zone(z.clear_anchors().init_anchors()),
            Numeric::Interval(s) => Numeric::Interval(s.anchors_reset()),
        }
    }

    /// Whether an access starts at or after one anchor, and whether it ends at
    /// or before the other.
    pub open spec fn region_access(
        self,
        base: Reg,
        off: i64,
        size: i64,
        start: Reg,
        end: Reg,
    ) -> (bool, bool) {
        match self {
            Numeric::Zone(z) => {
                let first = z.m[start.idx() as int][base.idx() as int];
                let last = z.m[base.idx() as int][end.idx() as int];
                (first < INF && first <= off, last < INF && last + off + size <= 0)
            },
            Numeric::Interval(s) => s.region_access(base, off, size, start, end),
        }
    }

    pub open spec fn inconsistent(self) -> bool {
        match self {
            Numeric::Zone(z) => z.inconsistent(),
            Numeric::Interval(s) => s.inconsistent(),
        }
    }

    /// The state after the upper half of a register was cleared. A range that
    /// does not fit in 32 bits becomes the range of its low half if that does
    /// not wrap around, else all of 32 bits.
    pub open spec fn truncate_w32(self, dst: Reg) -> Numeric {
        let (lo, hi) = self.range(dst);
        if lo >= 0 && hi <= 0xFFFF_FFFF {
            self
        } else if lo != i64::MIN && hi != i64::MAX && (lo as u64) >> 32 == (hi as u64) >> 32 {
            self.forget(dst).assume_ge_imm(dst, (lo as u64 & 0xFFFF_FFFF) as i64).assume_le_imm(
                dst,
                (hi as u64 & 0xFFFF_FFFF) as i64,
            )
        } else {
            self.forget(dst).assume_ge_imm(dst, 0).assume_le_imm(dst, 0xFFFF_FFFF)
        }
    }

    pub open spec fn add_constraint(self, i: Reg, j: Reg, c: i64) -> Numeric {
        match self {
            Numeric::Zone(z) => Numeric::Zone(z.add(i.idx() as int, j.idx() as int, c as int)),
            Numeric::Interval(s) => Numeric::Interval(
                if j == Reg::Zero {
                    s.at_most(i, c)
                } else if i == Reg::Zero {
                    s.at_least(j, wrapped_neg(c))
                } else {
                    s
                },
            ),
        }
    }

    /// A register becomes a copy of another.
    pub open spec fn assign_reg(self, x: Reg, y: Reg) -> Numeric {
        match self {
            Numeric::Zone(z) => Numeric::Zone(z.assign_reg(x, y)),
            Numeric::Interval(s) => Numeric::Interval(s.assign(x, s.reg(y))),
        }
    }

    /// A register becomes the sum of another and a constant.
    pub open spec fn assign_reg_offset(self, dst: Reg, src: Reg, imm: i64) -> Numeric {
        match self {
            Numeric::Zone(z) => Numeric::Zone(z.assign_reg_offset(dst, src, imm as int)),
            Numeric::Interval(s) => Numeric::Interval(s.assign(dst, plus_imm(s.reg(src), imm))),
        }
    }

    /// A constant is added to a register.
    pub open spec fn add_imm(self, dst: Reg, imm: i64) -> Numeric {
        match self {
            Numeric::Zone(z) => Numeric::Zone(z.add_imm(dst, imm as int)),
            Numeric::Interval(s) => Numeric::Interval(s.assign(dst, plus_imm(s.reg(dst), imm))),
        }
    }

    /// A register is added to another.
    pub open spec fn add_reg(self, dst: Reg, src: Reg) -> Numeric {
        match self {
            Numeric::Zone(z) => Numeric::Zone(z.add_reg(dst, src)),
            Numeric::Interval(s) => Numeric::Interval(s.assign(dst, plus_reg(s.reg(dst), s.reg(src).bounds))),
        }
    }

    /// A number becomes a pointer plus that number.
    pub open spec fn scalar_add_ptr(self, dst: Reg, ptr_src: Reg, scalar_lo: i64, scalar_hi: i64) -> Numeric {
        match self {
            Numeric::Zone(z) => Numeric::Zone(z),
            Numeric::Interval(s) => Numeric::Interval(
                match s.reg(ptr_src).ptr_offset {
                    Some(po) => s.assign(
                        dst,
                        (RegInterval {
                            bounds: ScalarBounds::unknown(),
                            ptr_offset: Some(
                                (PtrOffset {
                                    range: None,
                                    ..spread(po, scalar_lo, scalar_hi)
                                }),
                            ),
                        }),
                    ),
                    None => s,
                },
            ),
        }
    }

    /// A register is subtracted from another.
    pub open spec fn sub_reg(self, dst: Reg, src: Reg) -> Numeric {
        match self {
            Numeric::Zone(z) => Numeric::Zone(z.sub_reg(dst, src)),
            Numeric::Interval(s) => Numeric::Interval(s.assign(dst, minus_reg(s.reg(dst), s.reg(src).bounds))),
        }
    }

    /// A register is multiplied by a constant.
    pub open spec fn mul_imm(self, dst: Reg, imm: i64) -> Numeric {
        match self {
            Numeric::Zone(z) => Numeric::Zone(z.mul_imm(dst, imm as int)),
            Numeric::Interval(s) => Numeric::Interval(s.assign(dst, times_imm(s.reg(dst), imm))),
        }
    }

    /// A register is divided by a constant.
    pub open spec fn div_imm(self, reg: Reg, imm: i64) -> Numeric {
        match self {
            Numeric::Zone(z) => Numeric::Zone(z.div_imm(reg, imm as int)),
            Numeric::Interval(s) => Numeric::Interval(if imm == 0 { s } else { s.assign(reg, divided(s.reg(reg), imm)) }),
        }
    }

    /// A register is divided by another.
    pub open spec fn div_reg(self, dst: Reg, _src: Reg) -> Numeric {
        match self {
            Numeric::Zone(z) => Numeric::Zone(z.forget(dst.idx() as int).close()),
            Numeric::Interval(s) => Numeric::Interval(s.assign(dst, RegInterval::unknown())),
        }
    }

    /// A register is negated.
    pub open spec fn neg(self, reg: Reg) -> Numeric {
        match self {
            Numeric::Zone(z) => Numeric::Zone(z.neg(reg)),
            Numeric::Interval(s) => Numeric::Interval(s.assign(reg, negated(s.reg(reg)))),
        }
    }

    /// The first register is at most the second.
    pub open spec fn assume_le(self, x: Reg, y: Reg) -> Numeric {
        match self {
            Numeric::Zone(z) => Numeric::Zone(z.add(x.idx() as int, y.idx() as int, 0).close()),
            Numeric::Interval(s) => Numeric::Interval(s.assume_le(x, y)),
        }
    }

    /// The first register is at least the second.
    pub open spec fn assume_ge(self, x: Reg, y: Reg) -> Numeric {
        match self {
            Numeric::Zone(z) => Numeric::Zone(z.add(y.idx() as int, x.idx() as int, 0).close()),
            Numeric::Interval(s) => Numeric::Interval(s.assume_le(y, x)),
        }
    }

    /// The first register is greater than the second.
    pub open spec fn assume_gt(self, x: Reg, y: Reg) -> Numeric {
        match self {
            Numeric::Zone(z) => Numeric::Zone(z.add(y.idx() as int, x.idx() as int, -1).close()),
            Numeric::Interval(s) => Numeric::Interval(s.assume_gt(x, y)),
        }
    }

    /// The first register is at most the second plus a constant.
    pub open spec fn assume_le_offset(self, x: Reg, y: Reg, c: i64) -> Numeric {
        match self {
            Numeric::Zone(z) => Numeric::Zone(z.add(x.idx() as int, y.idx() as int, c as int).close()),
            Numeric::Interval(s) => Numeric::Interval(s.assume_le_offset(x, y, c)),
        }
    }

    /// A register is less than a constant.
    pub open spec fn assume_lt_imm(self, x: Reg, c: i64) -> Numeric {
        match self {
            Numeric::Zone(z) => Numeric::Zone(z.assume_lt_imm(x, c as int)),
            Numeric::Interval(s) => Numeric::Interval(s.assume_lt_imm(x, c)),
        }
    }

    /// The anchors are placed at program entry.
    pub open spec fn init_packet_anchors(self) -> Numeric {
        match self {
            Numeric::Zone(z) => Numeric::Zone(z.init_anchors()),
            Numeric::Interval(s) => Numeric::Interval(s.anchors_reset()),
        }
    }

    /// Nothing is known of the sizes of the packet and its metadata.
    pub open spec fn clear_packet_size_bounds(self) -> Numeric {
        match self {
            Numeric::Zone(z) => Numeric::Zone(z),
            Numeric::Interval(s) => Numeric::Interval(
                (Intervals {
                    packet_lower: None,
                    packet_upper: None,
                    meta_lower: None,
                    meta_upper: None,
                    ..s
                }),
            ),
        }
    }

    /// The register is known to be zero.
    pub open spec fn proven_zero(self, x: Reg) -> bool {
        match self {
            Numeric::Zone(z) => z.distance(x.idx() as int, 0) == (0i64, 0i64),
            Numeric::Interval(s) => s.reg(x).bounds.smin == 0 && s.reg(x).bounds.smax == 0,
        }
    }

    /// The register is known to be at least zero.
    pub open spec fn proven_nonnegative(self, x: Reg) -> bool {
        match self {
            Numeric::Zone(z) => z.lower(x.idx() as int, 0) >= 0,
            Numeric::Interval(s) => s.reg(x).bounds.smin >= 0,
        }
    }

    /// The register is known to be greater than zero.
    pub open spec fn proven_positive(self, x: Reg) -> bool {
        match self {
            Numeric::Zone(z) => z.lower(x.idx() as int, 0) > 0,
            Numeric::Interval(s) => s.reg(x).bounds.smin > 0,
        }
    }

    /// The register is known to fit in 32 bits.
    pub open spec fn proven_u32_range(self, v: Reg) -> bool {
        match self {
            Numeric::Zone(z) => z.m[v.idx() as int][0] <= u32::MAX && z.m[0][v.idx() as int] <= 0,
            Numeric::Interval(s) => s.reg(v).bounds.smin >= 0 && s.reg(v).bounds.umax <= u32::MAX,
        }
    }
}

impl NumericDomain {
    pub open spec fn view(&self) -> Numeric {
        match self {
            NumericDomain::Zone(d) => Numeric::Zone(d@),
            NumericDomain::Interval(s) => Numeric::Interval(s@),
        }
    }

    /// The state covers all registers and anchors.
    pub open spec fn wf(&self) -> bool {
        match self {
            NumericDomain::Zone(d) => d.full(),
            NumericDomain::Interval(s) => s.wf(),
        }
    }

    /// A zone that says nothing.
    pub fn new_zone() -> (r: Self)
        ensures
            r@ == Numeric::Zone(Zone::top(DBM_DIM as nat)),
            r.wf(),
    {
        NumericDomain::Zone(Dbm::new())
    }

    /// Intervals at program entry.
    pub fn new_interval() -> (r: Self)
        ensures
            r@ == Numeric::Interval(Intervals::initial()),
            r.wf(),
    {
        NumericDomain::Interval(IntervalState::new())
    }

    /// Whether this is the interval domain.
    pub fn is_interval_mode(&self) -> (r: bool)
        ensures
            r == (self is Interval),
    {
        matches!(self, NumericDomain::Interval(_))
    }

    // ---- queries ------------------------------------------------------------

    /// The range of a register.
    pub fn get_interval(&self, x: Reg) -> (r: (i64, i64))
        requires
            self.wf(),
        ensures
            r == self@.range(x),
    {
        match self {
            NumericDomain::Zone(dbm) => zone_ops::get_interval(dbm, x),
            NumericDomain::Interval(ivl) => interval_ops::get_interval(ivl, x),
        }
    }

    /// The range of `x - y`.
    pub fn get_distance_interval(&self, x: Reg, y: Reg) -> (r: (i64, i64))
        requires
            self.wf(),
        ensures
            r == self@.distance(x, y),
    {
        match self {
            NumericDomain::Zone(dbm) => zone_ops::get_distance_interval(dbm, x, y),
            NumericDomain::Interval(ivl) => interval_ops::get_distance_interval(ivl, x, y),
        }
    }

    /// The range of the low half of a register, read as signed.
    pub fn get_s32_bounds(&self, x: Reg) -> (r: (i32, i32))
        requires
            self.wf(),
        ensures
            r == match self@ {
                Numeric::Zone(z) => (
                    z.bounds[x.idx() as int].s32_min,
                    z.bounds[x.idx() as int].s32_max,
                ),
                Numeric::Interval(s) => (
                    s.reg(x).bounds.s32_min,
                    s.reg(x).bounds.s32_max,
                ),
            },
    {
        match self {
            NumericDomain::Zone(dbm) => {
                let b: Bounds = dbm.bounds[x.idx()];
                (b.s32_min, b.s32_max)
            },
            NumericDomain::Interval(ivl) => {
                let b: ScalarBounds = *ivl.get_bounds(x);
                (b.s32_min, b.s32_max)
            },
        }
    }

    /// The value of `x - y`, if only one is possible.
    pub fn get_distance_fixed(&self, x: Reg, y: Reg) -> (r: Option<i64>)
        requires
            self.wf(),
        ensures
            r == self@.fixed_distance(x, y),
    {
        match self {
            NumericDomain::Zone(dbm) => zone_ops::get_distance_fixed(dbm, x, y),
            NumericDomain::Interval(ivl) => interval_ops::get_distance_fixed(ivl, x, y),
        }
    }

    /// The value of a register, if only one is possible.
    pub fn get_fixed_value(&self, x: Reg) -> (r: Option<i64>)
        requires
            self.wf(),
        ensures
            r == self@.fixed(x),
    {
        match self {
            NumericDomain::Zone(dbm) => zone_ops::get_fixed_value(dbm, x),
            NumericDomain::Interval(ivl) => interval_ops::get_fixed_value(ivl, x),
        }
    }

    /// Whether the register is known to be zero.
    pub fn proven_zero(&self, x: Reg) -> (r: bool)
        requires
            self.wf(),
        ensures
            r == self@.proven_zero(x),
    {
        match self {
            NumericDomain::Zone(dbm) => zone_ops::proven_zero(dbm, x),
            NumericDomain::Interval(ivl) => interval_ops::proven_zero(ivl, x),
        }
    }

    /// Whether the register is known to be at least zero.
    pub fn proven_nonnegative(&self, x: Reg) -> (r: bool)
        requires
            self.wf(),
        ensures
            r == self@.proven_nonnegative(x),
    {
        match self {
            NumericDomain::Zone(dbm) => zone_ops::proven_nonnegative(dbm, x),
            NumericDomain::Interval(ivl) => interval_ops::proven_nonnegative(ivl, x),
        }
    }

    /// Whether the register is known to be greater than zero.
    pub fn proven_positive(&self, x: Reg) -> (r: bool)
        requires
            self.wf(),
        ensures
            r == self@.proven_positive(x),
    {
        match self {
            NumericDomain::Zone(dbm) => zone_ops::proven_positive(dbm, x),
            NumericDomain::Interval(ivl) => interval_ops::proven_positive(ivl, x),
        }
    }

    /// Whether the register is known to fit in 32 bits.
    pub fn proven_u32_range(&self, v: Reg, _zero: Reg) -> (r: bool)
        requires
            self.wf(),
        ensures
            r == self@.proven_u32_range(v),
    {
        match self {
            NumericDomain::Zone(dbm) => zone_ops::proven_u32_range(dbm, v, Reg::Zero),
            NumericDomain::Interval(ivl) => interval_ops::proven_u32_range(ivl, v),
        }
    }

    // ---- assignments --------------------------------------------------------

    /// Forgets what is known of a register.
    pub fn forget(&mut self, x: Reg)
        requires
            old(self).wf(),
            old(self)@ is Zone ==> !x.is_anchor(),
        ensures
            final(self)@ == old(self)@.forget(x),
            final(self).wf(),
    {
        match self {
            NumericDomain::Zone(dbm) => zone_ops::forget(dbm, x),
            NumericDomain::Interval(ivl) => interval_ops::forget(ivl, x),
        }
    }

    /// `x = imm`.
    pub fn assign_imm(&mut self, x: Reg, imm: i64)
        requires
            old(self).wf(),
            old(self)@ is Zone ==> !x.is_anchor(),
        ensures
            final(self)@ == old(self)@.assign_imm(x, imm),
            final(self).wf(),
    {
        match self {
            NumericDomain::Zone(dbm) => zone_ops::assign_imm(dbm, x, imm),
            NumericDomain::Interval(ivl) => interval_ops::assign_imm(ivl, x, imm),
        }
    }

    /// `x = y`.
    pub fn assign_reg(&mut self, x: Reg, y: Reg)
        requires
            old(self).wf(),
            old(self)@ is Zone ==> !x.is_anchor(),
        ensures
            final(self)@ == old(self)@.assign_reg(x, y),
            final(self).wf(),
    {
        match self {
            NumericDomain::Zone(dbm) => zone_ops::assign_reg(dbm, x, y),
            NumericDomain::Interval(ivl) => interval_ops::assign_reg(ivl, x, y),
        }
    }

    /// Replaces the range of the low half of a register, read as signed. The
    /// interval domain keeps no such range apart.
    pub fn set_s32_bounds(&mut self, x: Reg, min: i32, max: i32)
        requires
            old(self).wf(),
        ensures
            final(self)@ == old(self)@.set_s32(x, min, max),
            final(self).wf(),
    {
        match self {
            NumericDomain::Zone(dbm) => {
                let mut b: Bounds = dbm.bounds[x.idx()];
                b.s32_min = min;
                b.s32_max = max;
                dbm.bounds[x.idx()] = b;
                zone_ops::sync_bounds(dbm, x);
            },
            NumericDomain::Interval(_) => {},
        }
    }

    /// `dst = src + imm`.
    pub fn assign_reg_offset(&mut self, dst: Reg, src: Reg, imm: i64)
        requires
            old(self).wf(),
            old(self)@ is Zone ==> !dst.is_anchor(),
        ensures
            final(self)@ == old(self)@.assign_reg_offset(dst, src, imm),
            final(self).wf(),
    {
        match self {
            NumericDomain::Zone(dbm) => zone_ops::assign_reg_offset(dbm, dst, src, imm),
            NumericDomain::Interval(ivl) => interval_ops::assign_reg_offset(ivl, dst, src, imm),
        }
    }

    /// `r` takes some value in `[min, max]`.
    pub fn assign_interval(&mut self, r: Reg, min: i64, max: i64)
        requires
            old(self).wf(),
            old(self)@ is Zone ==> !r.is_anchor(),
        ensures
            final(self)@ == old(self)@.assign_interval(r, min, max),
            final(self).wf(),
    {
        match self {
            NumericDomain::Zone(dbm) => zone_ops::assign_interval(dbm, r, min, max),
            NumericDomain::Interval(ivl) => interval_ops::assign_interval(ivl, r, min, max),
        }
    }

    /// The register becomes the base of a map value. A zone needs no set-up for
    /// that.
    pub fn init_map_value_ptr(&mut self, reg: Reg)
        requires
            old(self).wf(),
        ensures
            final(self)@ == old(self)@.init_map_value(reg),
            final(self).wf(),
    {
        match self {
            NumericDomain::Zone(_) => {},
            NumericDomain::Interval(ivl) => interval_ops::init_map_value_ptr(ivl, reg),
        }
    }

    // ---- arithmetic ---------------------------------------------------------

    /// `dst += imm`.
    pub fn apply_add_imm(&mut self, dst: Reg, imm: i64)
        requires
            old(self).wf(),
        ensures
            final(self)@ == old(self)@.add_imm(dst, imm),
            final(self).wf(),
    {
        match self {
            NumericDomain::Zone(dbm) => zone_ops::apply_add_imm(dbm, dst, imm),
            NumericDomain::Interval(ivl) => interval_ops::apply_add_imm(ivl, dst, imm),
        }
    }

    /// `dst += src`.
    pub fn apply_add_reg(&mut self, dst: Reg, src: Reg)
        requires
            old(self).wf(),
            old(self)@ is Zone ==> !dst.is_anchor(),
        ensures
            final(self)@ == old(self)@.add_reg(dst, src),
            final(self).wf(),
    {
        match self {
            NumericDomain::Zone(dbm) => zone_ops::apply_add_reg(dbm, dst, src),
            NumericDomain::Interval(ivl) => interval_ops::apply_add_reg(ivl, dst, src),
        }
    }

    /// `dst` becomes the pointer in `ptr_src` plus a scalar in
    /// `[scalar_lo, scalar_hi]`. A zone is left alone.
    pub fn apply_scalar_add_ptr(&mut self, dst: Reg, ptr_src: Reg, scalar_lo: i64, scalar_hi: i64)
        requires
            old(self).wf(),
        ensures
            final(self)@ == old(self)@.scalar_add_ptr(dst, ptr_src, scalar_lo, scalar_hi),
            final(self).wf(),
    {
        match self {
            NumericDomain::Zone(_) => {},
            NumericDomain::Interval(ivl) => {
                interval_ops::apply_scalar_add_ptr(ivl, dst, ptr_src, scalar_lo, scalar_hi)
            },
        }
    }

    /// `dst -= src`.
    pub fn apply_sub_reg(&mut self, dst: Reg, src: Reg)
        requires
            old(self).wf(),
            old(self)@ is Zone ==> !dst.is_anchor(),
        ensures
            final(self)@ == old(self)@.sub_reg(dst, src),
            final(self).wf(),
    {
        match self {
            NumericDomain::Zone(dbm) => zone_ops::apply_sub_reg(dbm, dst, src),
            NumericDomain::Interval(ivl) => interval_ops::apply_sub_reg(ivl, dst, src),
        }
    }

    /// `dst &= mask`.
    pub fn apply_and_imm(&mut self, dst: Reg, mask: i64)
        requires
            old(self).wf(),
            old(self)@ is Zone ==> !dst.is_anchor(),
        ensures
            final(self)@ == old(self)@.and_imm(dst, mask),
            final(self).wf(),
    {
        match self {
            NumericDomain::Zone(dbm) => zone_ops::apply_and_imm(dbm, dst, mask),
            NumericDomain::Interval(ivl) => interval_ops::apply_and_imm(ivl, dst, mask),
        }
    }

    /// `dst *= imm`.
    pub fn apply_mul_imm(&mut self, dst: Reg, imm: i64)
        requires
            old(self).wf(),
            old(self)@ is Zone ==> !dst.is_anchor(),
        ensures
            final(self)@ == old(self)@.mul_imm(dst, imm),
            final(self).wf(),
    {
        match self {
            NumericDomain::Zone(dbm) => zone_ops::apply_mul_imm(dbm, dst, imm),
            NumericDomain::Interval(ivl) => interval_ops::apply_mul_imm(ivl, dst, imm),
        }
    }

    /// `reg /= imm`.
    pub fn apply_div_imm(&mut self, reg: Reg, imm: i64)
        requires
            old(self).wf(),
            old(self)@ is Zone ==> !reg.is_anchor(),
        ensures
            final(self)@ == old(self)@.div_imm(reg, imm),
            final(self).wf(),
    {
        match self {
            NumericDomain::Zone(dbm) => zone_ops::apply_div_imm(dbm, reg, imm),
            NumericDomain::Interval(ivl) => interval_ops::apply_div_imm(ivl, reg, imm),
        }
    }

    /// `dst /= src`: nothing is known of `dst` afterwards.
    pub fn apply_div_reg(&mut self, dst: Reg, _src: Reg)
        requires
            old(self).wf(),
            old(self)@ is Zone ==> !dst.is_anchor(),
        ensures
            final(self)@ == old(self)@.div_reg(dst, _src),
            final(self).wf(),
    {
        match self {
            NumericDomain::Zone(dbm) => zone_ops::apply_div_reg(dbm, dst, _src),
            NumericDomain::Interval(ivl) => interval_ops::apply_div_reg(ivl, dst),
        }
    }

    /// `reg = -reg`.
    pub fn apply_neg(&mut self, reg: Reg)
        requires
            old(self).wf(),
            old(self)@ is Zone ==> !reg.is_anchor(),
        ensures
            final(self)@ == old(self)@.neg(reg),
            final(self).wf(),
    {
        match self {
            NumericDomain::Zone(dbm) => zone_ops::apply_neg(dbm, reg),
            NumericDomain::Interval(ivl) => interval_ops::apply_neg(ivl, reg),
        }
    }

    // ---- refinement ---------------------------------------------------------

    /// Assumes `x <= y`.
    pub fn assume_le(&mut self, x: Reg, y: Reg)
        requires
            old(self).wf(),
        ensures
            final(self)@ == old(self)@.assume_le(x, y),
            final(self).wf(),
    {
        match self {
            NumericDomain::Zone(dbm) => zone_ops::assume_le(dbm, x, y),
            NumericDomain::Interval(ivl) => interval_ops::assume_le(ivl, x, y),
        }
    }

    /// Assumes `x >= y`.
    pub fn assume_ge(&mut self, x: Reg, y: Reg)
        requires
            old(self).wf(),
        ensures
            final(self)@ == old(self)@.assume_ge(x, y),
            final(self).wf(),
    {
        match self {
            NumericDomain::Zone(dbm) => zone_ops::assume_ge(dbm, x, y),
            NumericDomain::Interval(ivl) => interval_ops::assume_ge(ivl, x, y),
        }
    }

    /// Assumes `x > y`.
    pub fn assume_gt(&mut self, x: Reg, y: Reg)
        requires
            old(self).wf(),
        ensures
            final(self)@ == old(self)@.assume_gt(x, y),
            final(self).wf(),
    {
        match self {
            NumericDomain::Zone(dbm) => zone_ops::assume_gt(dbm, x, y),
            NumericDomain::Interval(ivl) => interval_ops::assume_gt(ivl, x, y),
        }
    }

    /// Assumes `x <= y + c`.
    pub fn assume_le_offset(&mut self, x: Reg, y: Reg, c: i64)
        requires
            old(self).wf(),
        ensures
            final(self)@ == old(self)@.assume_le_offset(x, y, c),
            final(self).wf(),
    {
        match self {
            NumericDomain::Zone(dbm) => zone_ops::assume_le_offset(dbm, x, y, c),
            NumericDomain::Interval(ivl) => interval_ops::assume_le_offset(ivl, x, y, c),
        }
    }

    /// Assumes `x <= c`.
    pub fn assume_le_imm(&mut self, x: Reg, c: i64)
        requires
            old(self).wf(),
        ensures
            final(self)@ == old(self)@.assume_le_imm(x, c),
            final(self).wf(),
    {
        match self {
            NumericDomain::Zone(dbm) => zone_ops::assume_le_imm(dbm, x, c),
            NumericDomain::Interval(ivl) => interval_ops::assume_le_imm(ivl, x, c),
        }
    }

    /// Assumes `x >= c`.
    pub fn assume_ge_imm(&mut self, x: Reg, c: i64)
        requires
            old(self).wf(),
        ensures
            final(self)@ == old(self)@.assume_ge_imm(x, c),
            final(self).wf(),
    {
        match self {
            NumericDomain::Zone(dbm) => zone_ops::assume_ge_imm(dbm, x, c),
            NumericDomain::Interval(ivl) => interval_ops::assume_ge_imm(ivl, x, c),
        }
    }

    /// Assumes `min <= x <= max`.
    pub fn assume_range(&mut self, x: Reg, min: i64, max: i64)
        requires
            old(self).wf(),
        ensures
            final(self)@ == old(self)@.assume_range(x, min, max),
            final(self).wf(),
    {
        match self {
            NumericDomain::Zone(dbm) => zone_ops::assume_range(dbm, x, min, max),
            NumericDomain::Interval(ivl) => interval_ops::assume_range(ivl, x, min, max),
        }
    }

    /// Assumes `x == c`.
    pub fn assume_eq_imm(&mut self, x: Reg, c: i64)
        requires
            old(self).wf(),
        ensures
            final(self)@ == old(self)@.assume_eq_imm(x, c),
            final(self).wf(),
    {
        match self {
            NumericDomain::Zone(dbm) => zone_ops::assume_eq_imm(dbm, x, c),
            NumericDomain::Interval(ivl) => interval_ops::assume_eq_imm(ivl, x, c),
        }
    }

    /// Assumes `x < c`.
    pub fn assume_lt_imm(&mut self, x: Reg, c: i64)
        requires
            old(self).wf(),
        ensures
            final(self)@ == old(self)@.assume_lt_imm(x, c),
            final(self).wf(),
    {
        match self {
            NumericDomain::Zone(dbm) => zone_ops::assume_lt_imm(dbm, x, c),
            NumericDomain::Interval(ivl) => interval_ops::assume_lt_imm(ivl, x, c),
        }
    }

    // ---- width --------------------------------------------------------------

    /// Clears the upper half of a register.
    pub fn apply_w32_truncation(&mut self, dst: Reg)
        requires
            old(self).wf(),
            old(self)@ is Zone ==> !dst.is_anchor(),
        ensures
            final(self)@ == old(self)@.truncate_w32(dst),
            final(self).wf(),
    {
        let (lo, hi) = self.get_interval(dst);
        if lo >= 0 && hi <= 0xFFFF_FFFF {
            return;
        }
        let low: u64 = lo as u64;
        let high: u64 = hi as u64;
        if lo != i64::MIN && hi != i64::MAX && (low >> 32) == (high >> 32) {
            self.forget(dst);
            self.assume_ge_imm(dst, (low & 0xFFFF_FFFF) as i64);
            self.assume_le_imm(dst, (high & 0xFFFF_FFFF) as i64);
        } else {
            self.forget(dst);
            self.assume_ge_imm(dst, 0);
            self.assume_le_imm(dst, 0xFFFF_FFFF);
        }
    }

    /// Whether the register is known to lie in `[0, 2^32 - 1]`.
    pub fn fits_in_u32_range(&self, reg: Reg) -> (r: bool)
        requires
            self.wf(),
        ensures
            r == (self@.range(reg).0 >= 0 && self@.range(reg).1 <= 0xFFFF_FFFF),
    {
        let (lo, hi) = self.get_interval(reg);
        if lo != i64::MIN && hi != i64::MAX {
            lo >= 0 && hi <= 0xFFFF_FFFF
        } else {
            false
        }
    }

    // ---- packet geometry ----------------------------------------------------

    /// Establishes `data_meta <= data <= data_end`.
    pub fn init_packet_anchors(&mut self)
        requires
            old(self).wf(),
        ensures
            final(self)@ == old(self)@.init_packet_anchors(),
            final(self).wf(),
    {
        match self {
            NumericDomain::Zone(dbm) => zone_ops::init_packet_anchors(dbm),
            NumericDomain::Interval(ivl) => interval_ops::init_packet_anchors(ivl),
        }
    }

    /// Establishes `reg == anchor`.
    pub fn bind_to_anchor(&mut self, reg: Reg, anchor: Reg)
        requires
            old(self).wf(),
            old(self)@ is Zone ==> anchor.is_anchor(),
        ensures
            final(self)@ == old(self)@.bind(reg, anchor),
            final(self).wf(),
    {
        match self {
            NumericDomain::Zone(dbm) => zone_ops::bind_to_anchor(dbm, reg, anchor),
            NumericDomain::Interval(ivl) => interval_ops::bind_to_anchor(ivl, reg, anchor),
        }
    }

    /// Whether an access of `size` bytes at `base + off` starts at or after
    /// `anchor_start`, and whether it ends at or before `anchor_end`.
    pub fn check_region_access(
        &self,
        base: Reg,
        off: i64,
        size: i64,
        anchor_start: Reg,
        anchor_end: Reg,
    ) -> (r: (bool, bool))
        requires
            self.wf(),
        ensures
            r == self@.region_access(base, off, size, anchor_start, anchor_end),
    {
        match self {
            NumericDomain::Zone(dbm) => {
                zone_ops::check_region_access(dbm, base, off, size, anchor_start, anchor_end)
            },
            NumericDomain::Interval(ivl) => {
                interval_ops::check_region_access(ivl, base, off, size, anchor_start, anchor_end)
            },
        }
    }

    /// [`NumericDomain::check_region_access`] for the metadata region.
    pub fn verify_packet_meta_bounds(&self, base: Reg, off: i64, size: i64) -> (r: (bool, bool))
        requires
            self.wf(),
        ensures
            r == self@.region_access(base, off, size, Reg::AnchorDataMeta, Reg::AnchorData),
    {
        match self {
            NumericDomain::Zone(dbm) => zone_ops::verify_packet_meta_bounds(dbm, base, off, size),
            NumericDomain::Interval(ivl) => {
                interval_ops::verify_packet_meta_bounds(ivl, base, off, size)
            },
        }
    }

    /// [`NumericDomain::check_region_access`] for the packet itself.
    pub fn verify_packet_bounds(&self, base: Reg, off: i64, size: i64) -> (r: (bool, bool))
        requires
            self.wf(),
        ensures
            r == self@.region_access(base, off, size, Reg::AnchorData, Reg::AnchorDataEnd),
    {
        match self {
            NumericDomain::Zone(dbm) => zone_ops::verify_packet_bounds(dbm, base, off, size),
            NumericDomain::Interval(ivl) => interval_ops::verify_packet_bounds(ivl, base, off, size),
        }
    }

    /// Puts the anchors back to their initial order.
    pub fn reset_packet_anchors(&mut self)
        requires
            old(self).wf(),
        ensures
            final(self)@ == old(self)@.reset_anchors(),
            final(self).wf(),
    {
        match self {
            NumericDomain::Zone(dbm) => zone_ops::reset_packet_anchors(dbm),
            NumericDomain::Interval(ivl) => interval_ops::reset_packet_anchors(ivl),
        }
    }

    /// Forgets the bounds on packet and metadata size, which only the interval
    /// domain keeps.
    pub fn clear_packet_size_bounds(&mut self)
        requires
            old(self).wf(),
        ensures
            final(self)@ == old(self)@.clear_packet_size_bounds(),
            final(self).wf(),
    {
        match self {
            NumericDomain::Zone(_) => {},
            NumericDomain::Interval(ivl) => ivl.clear_packet_size_bounds(),
        }
    }

    /// Takes over from `callee` the tighter bounds between anchors. Both must
    /// be states of the same domain.
    pub fn preserve_anchor_constraints(&mut self, callee: &NumericDomain)
        requires
            old(self).wf(),
            callee.wf(),
            old(self)@ is Zone <==> callee is Zone,
        ensures
            final(self)@ == old(self)@.adopt_anchors(callee@),
            final(self).wf(),
    {
        match self {
            NumericDomain::Zone(caller_dbm) => {
                if let NumericDomain::Zone(callee_dbm) = callee {
                    zone_ops::preserve_anchor_constraints(caller_dbm, callee_dbm)
                }
            },
            NumericDomain::Interval(caller_ivl) => {
                if let NumericDomain::Interval(callee_ivl) = callee {
                    interval_ops::preserve_anchor_constraints(caller_ivl, callee_ivl)
                }
            },
        }
    }

    // ---- whole states -------------------------------------------------------

    /// Whether no values at all fit the state.
    pub fn is_inconsistent(&self) -> (r: bool)
        requires
            self.wf(),
        ensures
            r == self@.inconsistent(),
    {
        match self {
            NumericDomain::Zone(dbm) => dbm.is_inconsistent(),
            NumericDomain::Interval(ivl) => ivl.is_inconsistent(),
        }
    }

    /// Transitive closure; intervals need none.
    pub fn close(&mut self)
        requires
            old(self).wf(),
        ensures
            final(self)@ == old(self)@.close(),
            final(self).wf(),
    {
        match self {
            NumericDomain::Zone(dbm) => dbm.close(),
            NumericDomain::Interval(_) => {},
        }
    }

    /// Adds `i - j <= c`. Intervals take it only against zero.
    pub fn add_constraint(&mut self, i: Reg, j: Reg, c: i64)
        requires
            old(self).wf(),
        ensures
            final(self)@ == old(self)@.add_constraint(i, j, c),
            final(self).wf(),
    {
        match self {
            NumericDomain::Zone(dbm) => dbm.add_constraint(i, j, c),
            NumericDomain::Interval(ivl) => {
                if j == Reg::Zero {
                    interval_ops::assume_le_imm(ivl, i, c);
                } else if i == Reg::Zero {
                    let lower: i64 = if c == i64::MIN { c } else { -c };
                    interval_ops::assume_ge_imm(ivl, j, lower);
                }
            },
        }
    }

    /// The bound on `i - j`; intervals have none.
    pub fn get(&self, i: Reg, j: Reg) -> (r: i64)
        requires
            self.wf(),
        ensures
            r == match self@ {
                Numeric::Zone(z) => z.m[i.idx() as int][j.idx() as int],
                Numeric::Interval(_) => INF,
            },
    {
        match self {
            NumericDomain::Zone(dbm) => dbm.get(i, j),
            NumericDomain::Interval(_) => INF,
        }
    }

    /// Replaces the bound on `i - j`; intervals have none.
    pub fn set(&mut self, i: Reg, j: Reg, val: i64)
        requires
            old(self).wf(),
        ensures
            final(self)@ == match old(self)@ {
                Numeric::Zone(z) => Numeric::Zone(z.put(i.idx() as int, j.idx() as int, val)),
                Numeric::Interval(s) => Numeric::Interval(s),
            },
            final(self).wf(),
    {
        match self {
            NumericDomain::Zone(dbm) => dbm.set(i, j, val),
            NumericDomain::Interval(_) => {},
        }
    }

    /// Widening; of two interval states the newer one stands. Both must be
    /// states of the same domain.
    pub fn widen(&self, newer: &NumericDomain) -> (r: NumericDomain)
        requires
            self.wf(),
            newer.wf(),
            self is Zone <==> newer is Zone,
        ensures
            r@ == match (self@, newer@) {
                (Numeric::Zone(old_zone), Numeric::Zone(z)) => Numeric::Zone(old_zone.widen(z)),
                _ => newer@,
            },
            r.wf(),
    {
        match (self, newer) {
            (NumericDomain::Zone(older), NumericDomain::Zone(new_dbm)) => {
                NumericDomain::Zone(older.widen(new_dbm))
            },
            (_, NumericDomain::Interval(new_ivl)) => NumericDomain::Interval(new_ivl.clone()),
            (_, NumericDomain::Zone(new_dbm)) => NumericDomain::Zone(new_dbm.clone()),
        }
    }

    /// The state as text; intervals have none.
    pub fn dump(&self) -> (r: String)
        requires
            self.wf(),
        ensures
            r@ == match self@ {
                Numeric::Zone(z) => matrix_text(z.m, z.m.len(), 12, "] (full, with anchors):"@),
                Numeric::Interval(_) => Seq::<char>::empty(),
            },
    {
        match self {
            NumericDomain::Zone(dbm) => dbm.matrix_full_str(),
            NumericDomain::Interval(_) => String::new(),
        }
    }

    /// The matrix, if this is a zone.
    pub fn as_zone(&self) -> (r: Option<&Dbm>)
        ensures
            r == match self {
                NumericDomain::Zone(d) => Some(d),
                NumericDomain::Interval(_) => None,
            },
    {
        match self {
            NumericDomain::Zone(dbm) => Some(dbm),
            NumericDomain::Interval(_) => None,
        }
    }

    /// The matrix, to be changed, if this is a zone.
    pub fn as_zone_mut(&mut self) -> (r: Option<&mut Dbm>)
        ensures
            match r {
                Some(d) => *old(self) == NumericDomain::Zone(*d) && *final(self)
                    == NumericDomain::Zone(*final(d)),
                None => old(self)@ is Interval && *final(self) == *old(self),
            },
    {
        match self {
            NumericDomain::Zone(dbm) => Some(dbm),
            NumericDomain::Interval(_) => None,
        }
    }

    /// The intervals, if this is no zone.
    pub fn as_interval(&self) -> (r: Option<&IntervalState>)
        ensures
            r == match self {
                NumericDomain::Zone(_) => None,
                NumericDomain::Interval(s) => Some(s),
            },
    {
        match self {
            NumericDomain::Zone(_) => None,
            NumericDomain::Interval(ivl) => Some(ivl),
        }
    }

    /// The intervals, to be changed, if this is no zone.
    pub fn as_interval_mut(&mut self) -> (r: Option<&mut IntervalState>)
        ensures
            match r {
                Some(s) => *old(self) == NumericDomain::Interval(*s) && *final(self)
                    == NumericDomain::Interval(*final(s)),
                None => old(self)@ is Zone && *final(self) == *old(self),
            },
    {
        match self {
            NumericDomain::Zone(_) => None,
            NumericDomain::Interval(ivl) => Some(ivl),
        }
    }

    /// Whether this is the zone domain.
    pub fn is_zone(&self) -> (r: bool)
        ensures
            r == (self is Zone),
    {
        matches!(self, NumericDomain::Zone(_))
    }

    /// Whether this is the interval domain.
    pub fn is_interval(&self) -> (r: bool)
        ensures
            r == (self is Interval),
    {
        matches!(self, NumericDomain::Interval(_))
    }
}

impl Clone for NumericDomain {
    fn clone(&self) -> (r: Self)
        ensures
            r@ == self@,
    {
        match self {
            NumericDomain::Zone(dbm) => NumericDomain::Zone(dbm.clone()),
            NumericDomain::Interval(ivl) => NumericDomain::Interval(ivl.clone()),
        }
    }
}

impl PartialEq for NumericDomain {
    fn eq(&self, other: &Self) -> (r: bool) {
        match (self, other) {
            (NumericDomain::Zone(a), NumericDomain::Zone(b)) => a == b,
            (NumericDomain::Interval(a), NumericDomain::Interval(b)) => a == b,
            _ => false,
        }
    }
}

impl vstd::std_specs::cmp::PartialEqSpecImpl for NumericDomain {
    open spec fn obeys_eq_spec() -> bool {
        true
    }

    open spec fn eq_spec(&self, other: &Self) -> bool {
        match (self@, other@) {
            (Numeric::Zone(a), Numeric::Zone(b)) => a.m == b.m && a.bounds == b.bounds,
            (Numeric::Interval(a), Numeric::Interval(b)) => a == b,
            _ => false,
        }
    }
}

impl Eq for NumericDomain {}

impl Default for NumericDomain {
    fn default() -> (r: Self)
        ensures
            r@ == Numeric::Zone(Zone::top(DBM_DIM as nat)),
            r.wf(),
    {
        NumericDomain::new_zone()
    }
}

} // verus!
