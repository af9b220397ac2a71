//! The interval domain: queries, assignments, arithmetic and refinements on
//! per-register bounds.
use crate::domains::interval::state::{
    IntervalState, Intervals, PtrOffset, RegInterval, ScalarBounds,
};
use crate::machine::reg::Reg;
use crate::num::{
    clip64, clip_u64, sat_add, sat_add_u64, sat_mul, sat_mul_u64, sat_sub, wide_mul,
};
use vstd::prelude::*;

verus! {

/// How many unsigned 64-bit numbers there are.
pub const TURN: i128 = 0x1_0000_0000_0000_0000;

/// A register that assignments leave alone.
pub open spec fn frozen(r: Reg) -> bool {
    r == Reg::Zero || r.is_anchor()
}

/// New 64-bit bounds; those of the low half follow from them, and the
/// register is a copy of no other.
pub open spec fn from_64(smin: i64, smax: i64, umin: u64, umax: u64) -> ScalarBounds {
    ScalarBounds { smin, smax, umin, umax, ..ScalarBounds::unknown() }.resynced()
}

fn bounds_from_64(smin: i64, smax: i64, umin: u64, umax: u64) -> (r: ScalarBounds)
    ensures
        r == from_64(smin, smax, umin, umax),
{
    let mut b: ScalarBounds = ScalarBounds::unknown();
    b.smin = smin;
    b.smax = smax;
    b.umin = umin;
    b.umax = umax;
    b.forget_32_then_sync();
    b
}

/// The unsigned 64-bit numbers that the numbers from `lo` to `hi` wrap around
/// to, as a range: that range itself, moved by one turn if all of it lies
/// outside, or everything if only a part does.
pub open spec fn wrapped_range(lo: int, hi: int) -> (u64, u64) {
    if 0 <= lo < TURN && 0 <= hi < TURN {
        (lo as u64, hi as u64)
    } else if TURN <= lo < 2 * TURN && TURN <= hi < 2 * TURN {
        ((lo - TURN) as u64, (hi - TURN) as u64)
    } else if -TURN <= lo < 0 && -TURN <= hi < 0 {
        ((lo + TURN) as u64, (hi + TURN) as u64)
    } else {
        (0, u64::MAX)
    }
}

fn wrap_range(lo: i128, hi: i128) -> (r: (u64, u64))
    ensures
        r == wrapped_range(lo as int, hi as int),
{
    if 0 <= lo && lo < TURN && 0 <= hi && hi < TURN {
        (lo as u64, hi as u64)
    } else if TURN <= lo && lo < 2 * TURN && TURN <= hi && hi < 2 * TURN {
        ((lo - TURN) as u64, (hi - TURN) as u64)
    } else if -TURN <= lo && lo < 0 && -TURN <= hi && hi < 0 {
        ((lo + TURN) as u64, (hi + TURN) as u64)
    } else {
        (0, u64::MAX)
    }
}

/// Bounds of the sum of two numbers.
pub open spec fn sum_bounds(b: ScalarBounds, s: ScalarBounds) -> ScalarBounds {
    let (umin, umax) = wrapped_range(b.umin + s.umin, b.umax + s.umax);
    from_64(clip64(b.smin + s.smin), clip64(b.smax + s.smax), umin, umax)
}

fn add_bounds(b: &ScalarBounds, s: &ScalarBounds) -> (r: ScalarBounds)
    ensures
        r == sum_bounds(*b, *s),
{
    let (umin, umax) = wrap_range(
        b.umin as i128 + s.umin as i128,
        b.umax as i128 + s.umax as i128,
    );
    bounds_from_64(sat_add(b.smin, s.smin), sat_add(b.smax, s.smax), umin, umax)
}

/// Bounds of the difference of two numbers.
pub open spec fn difference_bounds(b: ScalarBounds, s: ScalarBounds) -> ScalarBounds {
    let (umin, umax) = wrapped_range(b.umin - s.umax, b.umax - s.umin);
    from_64(clip64(b.smin - s.smax), clip64(b.smax - s.smin), umin, umax)
}

/// Bounds after a constant was added.
pub open spec fn bounds_plus(b: ScalarBounds, imm: i64) -> ScalarBounds {
    sum_bounds(b, ScalarBounds::constant(imm))
}

/// A register after a constant was added.
pub open spec fn plus_imm(x: RegInterval, imm: i64) -> RegInterval {
    RegInterval {
        bounds: bounds_plus(x.bounds, imm),
        ptr_offset: match x.ptr_offset {
            Some(po) => Some(PtrOffset { off: clip64(po.off + imm), ..po }),
            None => None,
        },
    }
}

/// A register after another one was added.
pub open spec fn plus_reg(x: RegInterval, s: ScalarBounds) -> RegInterval {
    RegInterval {
        bounds: sum_bounds(x.bounds, s),
        ptr_offset: match x.ptr_offset {
            Some(po) => Some(spread(po, s.smin, s.smax)),
            None => None,
        },
    }
}

/// A register after another one was subtracted.
pub open spec fn minus_reg(x: RegInterval, s: ScalarBounds) -> RegInterval {
    RegInterval {
        bounds: difference_bounds(x.bounds, s),
        ptr_offset: None,
    }
}

/// A register after it was masked.
pub open spec fn masked(mask: i64) -> RegInterval {
    RegInterval {
        bounds: if mask >= 0 {
            from_64(0, mask, 0, mask as u64)
        } else {
            ScalarBounds::unknown()
        },
        ptr_offset: None,
    }
}

/// A register after it was multiplied by a constant.
pub open spec fn times_imm(x: RegInterval, imm: i64) -> RegInterval {
    if imm == 0 {
        RegInterval::constant(0)
    } else if imm == 1 {
        x
    } else if imm > 0 {
        RegInterval {
            bounds: from_64(
                clip64(x.bounds.smin * imm),
                clip64(x.bounds.smax * imm),
                if x.bounds.umax * imm <= u64::MAX { clip_u64(x.bounds.umin * imm) } else { 0 },
                clip_u64(x.bounds.umax * imm),
            ),
            ptr_offset: None,
        }
    } else {
        RegInterval::unknown()
    }
}

/// `a / b` rounded toward zero, for positive `b`.
pub open spec fn quotient(a: int, b: int) -> int {
    if a >= 0 { a / b } else { -((-a) / b) }
}

/// A register after it was divided by a constant other than zero.
pub open spec fn divided(x: RegInterval, imm: i64) -> RegInterval {
    if imm > 0 && x.bounds.smin >= 0 {
        RegInterval {
            bounds: from_64(
                quotient(x.bounds.smin as int, imm as int) as i64,
                quotient(x.bounds.smax as int, imm as int) as i64,
                (x.bounds.umin / (imm as u64)) as u64,
                (x.bounds.umax / (imm as u64)) as u64,
            ),
            ptr_offset: None,
        }
    } else {
        RegInterval::unknown()
    }
}

/// A register after it was negated. The least number is its own negation, so
/// nothing is known if that is possible.
pub open spec fn negated(x: RegInterval) -> RegInterval {
    if x.bounds.smin == i64::MIN || x.bounds.smax == i64::MIN {
        RegInterval::unknown()
    } else {
        RegInterval {
            bounds: from_64((-x.bounds.smax) as i64, (-x.bounds.smin) as i64, 0, u64::MAX),
            ptr_offset: None,
        }
    }
}

/// A register that holds some number from `min` to `max`. Its unsigned value
/// is bounded only if it cannot be negative.
pub open spec fn between(min: i64, max: i64) -> RegInterval {
    RegInterval {
        bounds: from_64(
            min,
            max,
            if min >= 0 { min as u64 } else { 0 },
            if min >= 0 && max >= 0 { max as u64 } else { u64::MAX },
        ),
        ptr_offset: None,
    }
}

/// A pointer moved by some number from `lo` to `hi`.
pub open spec fn spread(po: PtrOffset, lo: i64, hi: i64) -> PtrOffset {
    PtrOffset {
        off: clip64(po.off + lo),
        var_off: clip_u64(po.var_off + clip_u64(hi - lo)),
        ..po
    }
}

fn spread_by(po: &PtrOffset, lo: i64, hi: i64) -> (r: PtrOffset)
    ensures
        r == spread(*po, lo, hi),
{
    let width: u64 = if hi < lo { 0 } else { (hi as i128 - lo as i128) as u64 };
    PtrOffset {
        anchor: po.anchor,
        off: sat_add(po.off, lo),
        var_off: sat_add_u64(po.var_off, width),
        range: po.range,
        id: po.id,
    }
}

impl Intervals {
    /// The state after `r` was overwritten, if it can be.
    pub open spec fn assign(self, r: Reg, x: RegInterval) -> Intervals {
        if frozen(r) { self } else { self.put(r, x) }
    }

    /// The range of `x - y`.
    pub open spec fn distance(self, x: Reg, y: Reg) -> (i64, i64) {
        let (a, b) = (self.reg(x), self.reg(y));
        if x == y {
            (0i64, 0i64)
        } else if a.ptr_offset is Some && b.ptr_offset is Some && a.ptr_offset->0.anchor
            == b.ptr_offset->0.anchor {
            let (p, q) = (a.ptr_offset->0, b.ptr_offset->0);
            (clip64(p.off - q.max_offset()), clip64(p.max_offset() - q.off))
        } else if a.bounds.smin != i64::MIN && a.bounds.smax != i64::MAX && b.bounds.smin
            != i64::MIN && b.bounds.smax != i64::MAX {
            (clip64(a.bounds.smin - b.bounds.smax), clip64(a.bounds.smax - b.bounds.smin))
        } else {
            (i64::MIN, i64::MAX)
        }
    }

    /// The one value `x - y` can have, if there is only one.
    pub open spec fn fixed_distance(self, x: Reg, y: Reg) -> Option<i64> {
        let (lo, hi) = self.distance(x, y);
        if lo == hi && lo != i64::MIN && lo != i64::MAX { Some(lo) } else { None }
    }

    pub open spec fn at_most(self, x: Reg, c: i64) -> Intervals {
        self.put_bounds(x, self.reg(x).bounds.at_most(c))
    }

    pub open spec fn at_least(self, x: Reg, c: i64) -> Intervals {
        self.put_bounds(x, self.reg(x).bounds.at_least(c))
    }

    pub open spec fn assume_le(self, x: Reg, y: Reg) -> Intervals {
        let (y_max, x_min) = (self.reg(y).bounds.smax, self.reg(x).bounds.smin);
        self.at_most(x, y_max).at_least(y, x_min)
    }

    pub open spec fn assume_gt(self, x: Reg, y: Reg) -> Intervals {
        let (y_min, x_max) = (self.reg(y).bounds.smin, self.reg(x).bounds.smax);
        self.at_least(x, clip64(y_min + 1)).at_most(y, clip64(x_max - 1))
    }

    pub open spec fn assume_le_offset(self, x: Reg, y: Reg, c: i64) -> Intervals {
        let y_max = self.reg(y).bounds.smax;
        if y_max != i64::MAX { self.at_most(x, clip64(y_max + c)) } else { self }
    }

    pub open spec fn assume_lt_imm(self, x: Reg, c: i64) -> Intervals {
        if c != i64::MIN { self.at_most(x, (c - 1) as i64) } else { self }
    }

    pub open spec fn anchors_reset(self) -> Intervals {
        self.put(Reg::AnchorDataMeta, RegInterval::anchored(Reg::AnchorDataMeta)).put(
            Reg::AnchorData,
            RegInterval::anchored(Reg::AnchorData),
        ).put(Reg::AnchorDataEnd, RegInterval::anchored(Reg::AnchorDataEnd))
    }

    /// How many bytes are known to lie between two anchors.
    pub open spec fn region_size(self, start: Reg, end: Reg) -> Option<u64> {
        if start == Reg::AnchorData && end == Reg::AnchorDataEnd {
            self.packet_lower
        } else if start == Reg::AnchorDataMeta && end == Reg::AnchorData {
            self.meta_lower
        } else {
            None
        }
    }

    /// Whether an access starts at or after one anchor, and whether it ends
    /// within the bytes that are known to lie between it and the other.
    pub open spec fn region_access(
        self,
        base: Reg,
        off: i64,
        size: i64,
        start: Reg,
        end: Reg,
    ) -> (bool, bool) {
        match self.reg(base).ptr_offset {
            Some(po) => if po.anchor == start {
                (
                    clip64(po.off + off) >= 0,
                    self.region_size(start, end) matches Some(n) && clip64(
                        clip64(po.max_offset() + off) + size,
                    ) <= n as i64,
                )
            } else {
                (false, false)
            },
            None => (false, false),
        }
    }
}

// ---- queries ----------------------------------------------------------------

/// The signed range of a register.
pub fn get_interval(state: &IntervalState, x: Reg) -> (r: (i64, i64))
    requires
        state.wf(),
    ensures
        r == (state@.reg(x).bounds.smin, state@.reg(x).bounds.smax),
{
    state.get_interval(x)
}

/// The range of `x - y`: from their offsets if they point relative to one
/// anchor, else from their bounds.
pub fn get_distance_interval(state: &IntervalState, x: Reg, y: Reg) -> (r: (i64, i64))
    requires
        state.wf(),
    ensures
        r == state@.distance(x, y),
{
    if x == y {
        return (0, 0);
    }
    let a: RegInterval = *state.get(x);
    let b: RegInterval = *state.get(y);
    if let (Some(xo), Some(yo)) = (a.ptr_offset, b.ptr_offset) {
        if xo.anchor == yo.anchor {
            return (sat_sub(xo.off, yo.max_offset()), sat_sub(xo.max_offset(), yo.off));
        }
    }
    if a.bounds.smin != i64::MIN && a.bounds.smax != i64::MAX && b.bounds.smin != i64::MIN
        && b.bounds.smax != i64::MAX {
        (sat_sub(a.bounds.smin, b.bounds.smax), sat_sub(a.bounds.smax, b.bounds.smin))
    } else {
        (i64::MIN, i64::MAX)
    }
}

/// The value of `x - y`, if only one is possible.
pub fn get_distance_fixed(state: &IntervalState, x: Reg, y: Reg) -> (r: Option<i64>)
    requires
        state.wf(),
    ensures
        r == state@.fixed_distance(x, y),
{
    let (lo, hi) = get_distance_interval(state, x, y);
    if lo == hi && lo != i64::MIN && lo != i64::MAX { Some(lo) } else { None }
}

/// The value of a register, if only one is possible.
pub fn get_fixed_value(state: &IntervalState, x: Reg) -> (r: Option<i64>)
    requires
        state.wf(),
    ensures
        r == state@.reg(x).bounds.get_constant(),
{
    state.get_fixed_value(x)
}

/// Whether the register is known to be zero.
pub fn proven_zero(state: &IntervalState, x: Reg) -> (r: bool)
    requires
        state.wf(),
    ensures
        r == (state@.reg(x).bounds.smin == 0 && state@.reg(x).bounds.smax == 0),
{
    state.get_bounds(x).is_zero()
}

/// Whether the register is known to be at least zero.
pub fn proven_nonnegative(state: &IntervalState, x: Reg) -> (r: bool)
    requires
        state.wf(),
    ensures
        r == (state@.reg(x).bounds.smin >= 0),
{
    state.get_bounds(x).is_nonnegative()
}

/// Whether the register is known to be greater than zero.
pub fn proven_positive(state: &IntervalState, x: Reg) -> (r: bool)
    requires
        state.wf(),
    ensures
        r == (state@.reg(x).bounds.smin > 0),
{
    state.get_bounds(x).is_positive()
}

/// Whether the register is known to fit in 32 bits.
pub fn proven_u32_range(state: &IntervalState, v: Reg) -> (r: bool)
    requires
        state.wf(),
    ensures
        r == (state@.reg(v).bounds.smin >= 0 && state@.reg(v).bounds.umax <= u32::MAX),
{
    state.get_bounds(v).is_u32()
}

// ---- assignments ------------------------------------------------------------

/// Forgets what is known of a register.
pub fn forget(state: &mut IntervalState, x: Reg)
    requires
        old(state).wf(),
    ensures
        final(state)@ == old(state)@.assign(x, RegInterval::unknown()),
        final(state).wf(),
{
    state.forget(x);
}

/// `x = imm`.
pub fn assign_imm(state: &mut IntervalState, x: Reg, imm: i64)
    requires
        old(state).wf(),
    ensures
        final(state)@ == old(state)@.assign(x, RegInterval::constant(imm)),
        final(state).wf(),
{
    if x != Reg::Zero && !x.is_anchor() {
        state.set(x, RegInterval::constant(imm));
    }
}

/// `x = 0`.
pub fn assign_zero(state: &mut IntervalState, x: Reg)
    requires
        old(state).wf(),
    ensures
        final(state)@ == old(state)@.assign(x, RegInterval::constant(0)),
        final(state).wf(),
{
    assign_imm(state, x, 0);
}

/// `x = y`.
pub fn assign_reg(state: &mut IntervalState, x: Reg, y: Reg)
    requires
        old(state).wf(),
    ensures
        final(state)@ == old(state)@.assign(x, old(state)@.reg(y)),
        final(state).wf(),
{
    if x != Reg::Zero && !x.is_anchor() {
        let v: RegInterval = *state.get(y);
        state.set(x, v);
    }
}

fn added_imm(x: RegInterval, imm: i64) -> (r: RegInterval)
    ensures
        r == plus_imm(x, imm),
{
    let bounds = add_bounds(&x.bounds, &ScalarBounds::constant(imm));
    let ptr_offset = match x.ptr_offset {
        Some(po) => Some(
            PtrOffset {
                anchor: po.anchor,
                off: sat_add(po.off, imm),
                var_off: po.var_off,
                range: po.range,
                id: po.id,
            },
        ),
        None => None,
    };
    RegInterval { bounds, ptr_offset }
}

/// `dst = src + imm`.
pub fn assign_reg_offset(state: &mut IntervalState, dst: Reg, src: Reg, imm: i64)
    requires
        old(state).wf(),
    ensures
        final(state)@ == old(state)@.assign(dst, plus_imm(old(state)@.reg(src), imm)),
        final(state).wf(),
{
    if dst == Reg::Zero || dst.is_anchor() {
        return;
    }
    let v = added_imm(*state.get(src), imm);
    state.set(dst, v);
}

/// `r` takes some value in `[min, max]`.
pub fn assign_interval(state: &mut IntervalState, r: Reg, min: i64, max: i64)
    requires
        old(state).wf(),
    ensures
        final(state)@ == old(state)@.assign(
            r,
            between(min, max),
        ),
        final(state).wf(),
{
    if r != Reg::Zero && !r.is_anchor() {
        let bounds = bounds_from_64(
            min,
            max,
            if min >= 0 { min as u64 } else { 0 },
            if min >= 0 && max >= 0 { max as u64 } else { u64::MAX },
        );
        state.set(r, RegInterval { bounds, ptr_offset: None });
    }
}

/// The register becomes the base of a map value: offsets are counted from
/// the register as it stands now.
pub fn init_map_value_ptr(state: &mut IntervalState, reg: Reg)
    requires
        old(state).wf(),
    ensures
        final(state)@ == old(state)@.assign(reg, RegInterval::anchored(reg)),
        final(state).wf(),
{
    if reg != Reg::Zero && !reg.is_anchor() {
        state.set(
            reg,
            RegInterval::with_ptr_offset(ScalarBounds::unknown(), PtrOffset::at_anchor(reg)),
        );
    }
}

// ---- arithmetic -------------------------------------------------------------

/// `dst += imm`.
pub fn apply_add_imm(state: &mut IntervalState, dst: Reg, imm: i64)
    requires
        old(state).wf(),
    ensures
        final(state)@ == old(state)@.assign(dst, plus_imm(old(state)@.reg(dst), imm)),
        final(state).wf(),
{
    assign_reg_offset(state, dst, dst, imm);
}

/// `dst += src`. A constant moves the pointer in `dst`; anything else also
/// makes its offset less certain.
pub fn apply_add_reg(state: &mut IntervalState, dst: Reg, src: Reg)
    requires
        old(state).wf(),
    ensures
        final(state)@ == old(state)@.assign(
            dst,
            plus_reg(old(state)@.reg(dst), old(state)@.reg(src).bounds),
        ),
        final(state).wf(),
{
    if dst == Reg::Zero || dst.is_anchor() {
        return;
    }
    let s: ScalarBounds = *state.get_bounds(src);
    let x: RegInterval = *state.get(dst);
    let bounds = add_bounds(&x.bounds, &s);
    let ptr_offset = match x.ptr_offset {
        Some(po) => Some(spread_by(&po, s.smin, s.smax)),
        None => None,
    };
    state.set(dst, RegInterval { bounds, ptr_offset });
}

/// `dst = dst + pointer`, where the scalar in `dst` is in
/// `[scalar_lo, scalar_hi]`: `dst` becomes a pointer relative to the same
/// anchor. Without a tracked pointer nothing changes.
pub fn apply_scalar_add_ptr(
    state: &mut IntervalState,
    dst: Reg,
    ptr_src: Reg,
    scalar_lo: i64,
    scalar_hi: i64,
)
    requires
        old(state).wf(),
    ensures
        final(state)@ == match old(state)@.reg(ptr_src).ptr_offset {
            Some(po) => old(state)@.assign(
                dst,
                (RegInterval {
                    bounds: ScalarBounds::unknown(),
                    ptr_offset: Some(
                        (PtrOffset { range: None, ..spread(po, scalar_lo, scalar_hi) }),
                    ),
                }),
            ),
            None => old(state)@,
        },
        final(state).wf(),
{
    if dst == Reg::Zero || dst.is_anchor() {
        return;
    }
    if let Some(po) = state.get(ptr_src).ptr_offset {
        let mut moved: PtrOffset = spread_by(&po, scalar_lo, scalar_hi);
        moved.range = None;
        state.set(dst, RegInterval::with_ptr_offset(ScalarBounds::unknown(), moved));
    }
}

/// `dst -= src`.
pub fn apply_sub_reg(state: &mut IntervalState, dst: Reg, src: Reg)
    requires
        old(state).wf(),
    ensures
        final(state)@ == old(state)@.assign(
            dst,
            minus_reg(old(state)@.reg(dst), old(state)@.reg(src).bounds),
        ),
        final(state).wf(),
{
    if dst == Reg::Zero || dst.is_anchor() {
        return;
    }
    let s: ScalarBounds = *state.get_bounds(src);
    let b: ScalarBounds = *state.get_bounds(dst);
    let (umin, umax) = wrap_range(
        b.umin as i128 - s.umax as i128,
        b.umax as i128 - s.umin as i128,
    );
    let bounds = bounds_from_64(sat_sub(b.smin, s.smax), sat_sub(b.smax, s.smin), umin, umax);
    state.set(dst, RegInterval { bounds, ptr_offset: None });
}

/// `dst &= mask`.
pub fn apply_and_imm(state: &mut IntervalState, dst: Reg, mask: i64)
    requires
        old(state).wf(),
    ensures
        final(state)@ == old(state)@.assign(dst, masked(mask)),
        final(state).wf(),
{
    if dst == Reg::Zero || dst.is_anchor() {
        return;
    }
    let bounds = if mask >= 0 {
        bounds_from_64(0, mask, 0, mask as u64)
    } else {
        ScalarBounds::unknown()
    };
    state.set(dst, RegInterval { bounds, ptr_offset: None });
}

/// `dst *= imm`.
pub fn apply_mul_imm(state: &mut IntervalState, dst: Reg, imm: i64)
    requires
        old(state).wf(),
    ensures
        final(state)@ == old(state)@.assign(dst, times_imm(old(state)@.reg(dst), imm)),
        final(state).wf(),
{
    if dst == Reg::Zero || dst.is_anchor() {
        return;
    }
    if imm == 0 {
        assign_zero(state, dst);
        return;
    }
    if imm == 1 {
        assert(state@.regs.update(dst.idx() as int, state@.reg(dst)) =~= state@.regs);
        return;
    }
    if imm < 0 {
        forget(state, dst);
        return;
    }
    let b: ScalarBounds = *state.get_bounds(dst);
    let top: u128 = wide_mul(b.umax, imm as u64);
    let umin: u64 = if top <= u64::MAX as u128 { sat_mul_u64(b.umin, imm as u64) } else { 0 };
    let bounds = bounds_from_64(
        sat_mul(b.smin, imm),
        sat_mul(b.smax, imm),
        umin,
        sat_mul_u64(b.umax, imm as u64),
    );
    state.set(dst, RegInterval { bounds, ptr_offset: None });
}

/// `a / b` rounded toward zero.
fn div_i64(a: i64, b: i64) -> (r: i64)
    requires
        b > 0,
    ensures
        r == quotient(a as int, b as int),
{
    if a >= 0 {
        assert(0 <= a as int / b as int <= a) by (nonlinear_arith)
            requires
                a >= 0,
                b > 0,
        ;
        a / b
    } else {
        let m: i128 = -(a as i128);
        let d: i128 = b as i128;
        assert(0 <= m as int / d as int <= m) by (nonlinear_arith)
            requires
                m >= 0,
                d > 0,
        ;
        let q: i128 = m / d;
        (-q) as i64
    }
}

/// `reg /= imm`.
pub fn apply_div_imm(state: &mut IntervalState, reg: Reg, imm: i64)
    requires
        old(state).wf(),
    ensures
        final(state)@ == if imm == 0 {
            old(state)@
        } else {
            old(state)@.assign(reg, divided(old(state)@.reg(reg), imm))
        },
        final(state).wf(),
{
    if reg == Reg::Zero || reg.is_anchor() || imm == 0 {
        return;
    }
    let b: ScalarBounds = *state.get_bounds(reg);
    if imm > 0 && b.smin >= 0 {
        let d: u64 = imm as u64;
        let bounds = bounds_from_64(div_i64(b.smin, imm), div_i64(b.smax, imm), b.umin / d, b.umax / d);
        state.set(reg, RegInterval { bounds, ptr_offset: None });
    } else {
        forget(state, reg);
    }
}

/// `dst /= src`: nothing is known of `dst` afterwards.
pub fn apply_div_reg(state: &mut IntervalState, dst: Reg)
    requires
        old(state).wf(),
    ensures
        final(state)@ == old(state)@.assign(dst, RegInterval::unknown()),
        final(state).wf(),
{
    forget(state, dst);
}

/// `reg = -reg`.
pub fn apply_neg(state: &mut IntervalState, reg: Reg)
    requires
        old(state).wf(),
    ensures
        final(state)@ == old(state)@.assign(reg, negated(old(state)@.reg(reg))),
        final(state).wf(),
{
    if reg == Reg::Zero || reg.is_anchor() {
        return;
    }
    let b: ScalarBounds = *state.get_bounds(reg);
    if b.smin == i64::MIN || b.smax == i64::MIN {
        state.set(reg, RegInterval::unknown());
        return;
    }
    let bounds = bounds_from_64(-b.smax, -b.smin, 0, u64::MAX);
    state.set(reg, RegInterval { bounds, ptr_offset: None });
}

// ---- refinement -------------------------------------------------------------

/// Assumes `x <= y`.
pub fn assume_le(state: &mut IntervalState, x: Reg, y: Reg)
    requires
        old(state).wf(),
    ensures
        final(state)@ == old(state)@.assume_le(x, y),
        final(state).wf(),
{
    let y_max: i64 = state.get_bounds(y).smax;
    let x_min: i64 = state.get_bounds(x).smin;
    assume_le_imm(state, x, y_max);
    assume_ge_imm(state, y, x_min);
}

/// Assumes `x >= y`.
pub fn assume_ge(state: &mut IntervalState, x: Reg, y: Reg)
    requires
        old(state).wf(),
    ensures
        final(state)@ == old(state)@.assume_le(y, x),
        final(state).wf(),
{
    assume_le(state, y, x);
}

/// Assumes `x > y`.
pub fn assume_gt(state: &mut IntervalState, x: Reg, y: Reg)
    requires
        old(state).wf(),
    ensures
        final(state)@ == old(state)@.assume_gt(x, y),
        final(state).wf(),
{
    let y_min: i64 = state.get_bounds(y).smin;
    let x_max: i64 = state.get_bounds(x).smax;
    assume_ge_imm(state, x, sat_add(y_min, 1));
    assume_le_imm(state, y, sat_sub(x_max, 1));
}

/// Assumes `x <= y + c`, by the greatest value of `y`.
pub fn assume_le_offset(state: &mut IntervalState, x: Reg, y: Reg, c: i64)
    requires
        old(state).wf(),
    ensures
        final(state)@ == old(state)@.assume_le_offset(x, y, c),
        final(state).wf(),
{
    let y_max: i64 = state.get_bounds(y).smax;
    if y_max != i64::MAX {
        assume_le_imm(state, x, sat_add(y_max, c));
    }
}

/// Assumes `x <= c`.
pub fn assume_le_imm(state: &mut IntervalState, x: Reg, c: i64)
    requires
        old(state).wf(),
    ensures
        final(state)@ == old(state)@.at_most(x, c),
        final(state).wf(),
{
    let mut v: RegInterval = *state.get(x);
    v.bounds.assume_sle(c);
    *state.get_mut(x) = v;
}

/// Assumes `x >= c`.
pub fn assume_ge_imm(state: &mut IntervalState, x: Reg, c: i64)
    requires
        old(state).wf(),
    ensures
        final(state)@ == old(state)@.at_least(x, c),
        final(state).wf(),
{
    let mut v: RegInterval = *state.get(x);
    v.bounds.assume_sge(c);
    *state.get_mut(x) = v;
}

/// Assumes `min <= x <= max`.
pub fn assume_range(state: &mut IntervalState, x: Reg, min: i64, max: i64)
    requires
        old(state).wf(),
    ensures
        final(state)@ == old(state)@.at_least(x, min).at_most(x, max),
        final(state).wf(),
{
    assume_ge_imm(state, x, min);
    assume_le_imm(state, x, max);
}

/// Assumes `x == c`.
pub fn assume_eq_imm(state: &mut IntervalState, x: Reg, c: i64)
    requires
        old(state).wf(),
    ensures
        final(state)@ == old(state)@.assign(
            x,
            (RegInterval { bounds: ScalarBounds::constant(c), ..old(state)@.reg(x) }),
        ),
        final(state).wf(),
{
    if x != Reg::Zero && !x.is_anchor() {
        let ptr_offset = state.get(x).ptr_offset;
        state.set(x, RegInterval { bounds: ScalarBounds::constant(c), ptr_offset });
    }
}

/// Assumes `x < c`.
pub fn assume_lt_imm(state: &mut IntervalState, x: Reg, c: i64)
    requires
        old(state).wf(),
    ensures
        final(state)@ == old(state)@.assume_lt_imm(x, c),
        final(state).wf(),
{
    if c != i64::MIN {
        assume_le_imm(state, x, c - 1);
    }
}

// ---- packet geometry --------------------------------------------------------

/// The anchors stand at themselves.
pub fn init_packet_anchors(state: &mut IntervalState)
    requires
        old(state).wf(),
    ensures
        final(state)@ == old(state)@.anchors_reset(),
        final(state).wf(),
{
    state.set(
        Reg::AnchorDataMeta,
        RegInterval::with_ptr_offset(
            ScalarBounds::unknown(),
            PtrOffset::at_anchor(Reg::AnchorDataMeta),
        ),
    );
    state.set(
        Reg::AnchorData,
        RegInterval::with_ptr_offset(
            ScalarBounds::unknown(),
            PtrOffset::at_anchor(Reg::AnchorData),
        ),
    );
    state.set(
        Reg::AnchorDataEnd,
        RegInterval::with_ptr_offset(
            ScalarBounds::unknown(),
            PtrOffset::at_anchor(Reg::AnchorDataEnd),
        ),
    );
}

/// The register stands at the anchor. Nothing happens if it is no anchor.
pub fn bind_to_anchor(state: &mut IntervalState, reg: Reg, anchor: Reg)
    requires
        old(state).wf(),
    ensures
        final(state)@ == if anchor.is_anchor() {
            old(state)@.set(reg, RegInterval::anchored(anchor))
        } else {
            old(state)@
        },
        final(state).wf(),
{
    if !anchor.is_anchor() {
        return;
    }
    state.set(
        reg,
        RegInterval::with_ptr_offset(ScalarBounds::unknown(), PtrOffset::at_anchor(anchor)),
    );
}

/// Whether an access of `size` bytes at `base + off` starts at or after
/// `anchor_start`, and whether it ends within the bytes that are known to lie
/// between there and `anchor_end`.
pub fn check_region_access(
    state: &IntervalState,
    base: Reg,
    off: i64,
    size: i64,
    anchor_start: Reg,
    anchor_end: Reg,
) -> (r: (bool, bool))
    requires
        state.wf(),
    ensures
        r == state@.region_access(base, off, size, anchor_start, anchor_end),
{
    match state.get_ptr_offset(base) {
        Some(po) => {
            if po.anchor != anchor_start {
                return (false, false);
            }
            let start_safe = sat_add(po.min_offset(), off) >= 0;
            let bound: Option<u64> = if anchor_start == Reg::AnchorData && anchor_end
                == Reg::AnchorDataEnd {
                state.get_packet_size_bound()
            } else if anchor_start == Reg::AnchorDataMeta && anchor_end == Reg::AnchorData {
                state.get_meta_size_bound()
            } else {
                None
            };
            let end_safe = match bound {
                Some(n) => sat_add(sat_add(po.max_offset(), off), size) <= n as i64,
                None => false,
            };
            (start_safe, end_safe)
        },
        None => (false, false),
    }
}

/// [`check_region_access`] for the metadata region.
pub fn verify_packet_meta_bounds(state: &IntervalState, base: Reg, off: i64, size: i64) -> (r: (
    bool,
    bool,
))
    requires
        state.wf(),
    ensures
        r == state@.region_access(base, off, size, Reg::AnchorDataMeta, Reg::AnchorData),
{
    check_region_access(state, base, off, size, Reg::AnchorDataMeta, Reg::AnchorData)
}

/// [`check_region_access`] for the packet itself.
pub fn verify_packet_bounds(state: &IntervalState, base: Reg, off: i64, size: i64) -> (r: (
    bool,
    bool,
))
    requires
        state.wf(),
    ensures
        r == state@.region_access(base, off, size, Reg::AnchorData, Reg::AnchorDataEnd),
{
    check_region_access(state, base, off, size, Reg::AnchorData, Reg::AnchorDataEnd)
}

/// The anchors stand at themselves again.
pub fn reset_packet_anchors(state: &mut IntervalState)
    requires
        old(state).wf(),
    ensures
        final(state)@ == old(state)@.anchors_reset(),
        final(state).wf(),
{
    init_packet_anchors(state);
}

/// Nothing is carried from callee to caller: there are no relations between
/// anchors in this domain.
pub fn preserve_anchor_constraints(_caller: &mut IntervalState, _callee: &IntervalState)
    ensures
        final(_caller)@ == old(_caller)@,
        final(_caller).wf() == old(_caller).wf(),
{
}

} // verus!
