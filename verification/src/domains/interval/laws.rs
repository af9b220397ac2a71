//! What interval bounds mean for the concrete values they describe.
use crate::domains::interval::ops::{
    between, bounds_plus, difference_bounds, divided, from_64, minus_reg, negated, plus_imm,
    plus_reg, quotient, spread, sum_bounds, times_imm, wrapped_range, TURN,
};
use crate::domains::interval::state::{
    low32, sync_from_s64, sync_from_u64, sync_s32_to_u32, sync_u32_to_s32, Intervals, PtrOffset,
    RegInterval, ScalarBounds,
};
use crate::domains::zone::ops::wrapped_neg;
use crate::machine::reg::{law_index_round_trip, Reg, DBM_DIM};
use crate::num::{clip64, clip_u64, max_i64, max_u64, min_i64, min_u64};
use vstd::prelude::*;

verus! {

/// The value lies within all the bounds.
pub open spec fn admits(b: ScalarBounds, x: i64) -> bool {
    &&& b.smin <= x <= b.smax
    &&& b.umin <= x as u64 <= b.umax
    &&& b.s32_min <= x as i32 <= b.s32_max
    &&& b.u32_min <= x as u32 <= b.u32_max
}

/// No bound of `a` is looser than that of `b`.
pub open spec fn no_looser(a: ScalarBounds, b: ScalarBounds) -> bool {
    &&& a.smin >= b.smin && a.smax <= b.smax
    &&& a.umin >= b.umin && a.umax <= b.umax
    &&& a.s32_min >= b.s32_min && a.s32_max <= b.s32_max
    &&& a.u32_min >= b.u32_min && a.u32_max <= b.u32_max
}

/// Unknown bounds admit every value, and a constant's bounds admit just that
/// one.
pub proof fn law_unknown_and_constant(c: i64, x: i64)
    ensures
        admits(ScalarBounds::unknown(), x),
        admits(ScalarBounds::constant(c), x) <==> x == c,
{
    assert(low32(c as u64) == c as u32) by (bit_vector);
    assert(low32(c as u64) as i32 == c as i32) by (bit_vector);
}

/// The intersection admits exactly what both admit; the join admits what
/// either admits.
pub proof fn law_intersect_and_join(a: ScalarBounds, b: ScalarBounds, x: i64)
    ensures
        admits(a.spec_intersect(&b), x) <==> admits(a, x) && admits(b, x),
        admits(a, x) || admits(b, x) ==> admits(a.spec_join(&b), x),
{
}

/// Join and intersection do not depend on the order of their operands.
pub proof fn law_intersect_and_join_commute(a: ScalarBounds, b: ScalarBounds)
    ensures
        a.spec_join(&b) == b.spec_join(&a),
        a.spec_intersect(&b) == b.spec_intersect(&a),
{
}

/// Synchronization only ever tightens, and only bounds of the low half.
pub proof fn law_sync_tightens(b: ScalarBounds)
    ensures
        no_looser(b.synced(), b),
        b.synced().smin == b.smin,
        b.synced().smax == b.smax,
        b.synced().umin == b.umin,
        b.synced().umax == b.umax,
        b.synced().scalar_id == b.scalar_id,
{
}

proof fn lemma_low_of_unsigned(lo: u64, hi: u64, x: i64)
    requires
        lo >> 32 == hi >> 32,
        lo <= x as u64 <= hi,
    ensures
        lo as u32 <= x as u32 <= hi as u32,
        (lo as i32) <= (hi as i32) ==> (lo as i32) <= (x as i32) <= (hi as i32),
{
    assert(lo as u32 <= x as u32 && x as u32 <= hi as u32) by (bit_vector)
        requires
            lo >> 32 == hi >> 32,
            lo <= x as u64,
            x as u64 <= hi,
    ;
    assert((lo as i32) <= (hi as i32) ==> (lo as i32) <= (x as i32) && (x as i32) <= (hi as i32))
        by (bit_vector)
        requires
            lo >> 32 == hi >> 32,
            lo <= x as u64,
            x as u64 <= hi,
    ;
}

proof fn lemma_low_of_signed(lo: i64, hi: i64, x: i64)
    requires
        lo >> 32 == hi >> 32,
        lo <= x <= hi,
    ensures
        (lo as u32) <= (hi as u32) ==> (lo as u32) <= (x as u32) <= (hi as u32),
        (lo as i32) <= (hi as i32) ==> (lo as i32) <= (x as i32) <= (hi as i32),
{
    assert((lo as u32) <= (hi as u32) ==> (lo as u32) <= (x as u32) && (x as u32) <= (hi as u32))
        by (bit_vector)
        requires
            lo >> 32 == hi >> 32,
            lo <= x,
            x <= hi,
    ;
    assert((lo as i32) <= (hi as i32) ==> (lo as i32) <= (x as i32) && (x as i32) <= (hi as i32))
        by (bit_vector)
        requires
            lo >> 32 == hi >> 32,
            lo <= x,
            x <= hi,
    ;
}

proof fn lemma_between_32(u: u32, s: i32, ulo: u32, uhi: u32, slo: i32, shi: i32)
    requires
        s == u as i32,
    ensures
        (ulo as i32) <= (uhi as i32) && ulo <= u <= uhi ==> (ulo as i32) <= s <= (uhi as i32),
        (slo as u32) <= (shi as u32) && slo <= s <= shi ==> (slo as u32) <= u <= (shi as u32),
{
    assert((ulo as i32) <= (uhi as i32) && ulo <= u && u <= uhi ==> (ulo as i32) <= s && s <= (
    uhi as i32)) by (bit_vector)
        requires
            s == u as i32,
    ;
    assert((slo as u32) <= (shi as u32) && slo <= s && s <= shi ==> (slo as u32) <= u && u <= (
    shi as u32)) by (bit_vector)
        requires
            s == u as i32,
    ;
}

/// Synchronization never loses a value.
pub proof fn law_sync_is_sound(b: ScalarBounds, x: i64)
    requires
        admits(b, x),
    ensures
        admits(b.synced(), x),
{
    let b1 = sync_from_u64(b);
    if b.umin >> 32 == b.umax >> 32 {
        lemma_low_of_unsigned(b.umin, b.umax, x);
    }
    assert(admits(b1, x));
    let b2 = sync_from_s64(b1);
    if b1.smin >> 32 == b1.smax >> 32 {
        lemma_low_of_signed(b1.smin, b1.smax, x);
    }
    assert(admits(b2, x));
    assert(x as i32 == (x as u32) as i32) by (bit_vector);
    let b3 = sync_u32_to_s32(b2);
    lemma_between_32(x as u32, x as i32, b2.u32_min, b2.u32_max, b2.s32_min, b2.s32_max);
    assert(admits(b3, x));
    lemma_between_32(x as u32, x as i32, b3.u32_min, b3.u32_max, b3.s32_min, b3.s32_max);
    assert(admits(sync_s32_to_u32(b3), x));
}

pub proof fn lemma_resync_is_sound(b: ScalarBounds, x: i64)
    requires
        b.smin <= x <= b.smax,
        b.umin <= x as u64 <= b.umax,
    ensures
        admits(b.resynced(), x),
{
    let w = ScalarBounds {
        s32_min: i32::MIN,
        s32_max: i32::MAX,
        u32_min: 0,
        u32_max: u32::MAX,
        ..b
    };
    assert(admits(w, x));
    law_sync_is_sound(w, x);
}

/// Bounds from zero to a number admit everything in that range.
pub proof fn law_nonnegative_is_sound(max: u64, x: i64)
    requires
        0 <= x <= max,
    ensures
        admits(ScalarBounds::nonnegative(max), x),
{
    assert(x >= 0 ==> x as u64 == x) by (bit_vector);
    assert(0 <= x <= 0xffff_ffff ==> x as u32 == x) by (bit_vector);
    assert(0 <= x <= 0x7fff_ffff ==> x as i32 == x) by (bit_vector);
}

/// Assuming a true bound never loses a value.
pub proof fn law_assumptions_are_sound(b: ScalarBounds, c: i64, u: u64, x: i64)
    requires
        admits(b, x),
    ensures
        x <= c ==> admits(b.at_most(c), x),
        x >= c ==> admits(b.at_least(c), x),
        x as u64 <= u ==> admits(b.at_most_unsigned(u), x),
        x as u64 >= u ==> admits(b.at_least_unsigned(u), x),
{
    assert(x >= 0 ==> x as u64 == x) by (bit_vector);
    assert(x < 0 ==> x as u64 > 0x7fff_ffff_ffff_ffff) by (bit_vector);
    if x <= c {
        law_sync_is_sound(
            ScalarBounds {
                smax: min_i64(b.smax, c),
                umax: if c >= 0 && b.smin >= 0 {
                    min_u64(b.umax, c as u64)
                } else {
                    b.umax
                },
                ..b
            },
            x,
        );
    }
    if x >= c {
        law_sync_is_sound(
            ScalarBounds {
                smin: max_i64(b.smin, c),
                umin: if c >= 0 { max_u64(b.umin, c as u64) } else { b.umin },
                ..b
            },
            x,
        );
    }
    if x as u64 <= u {
        law_sync_is_sound(
            ScalarBounds {
                umax: min_u64(b.umax, u),
                smax: if u <= i64::MAX {
                    min_i64(b.smax, u as i64)
                } else {
                    b.smax
                },
                ..b
            },
            x,
        );
    }
    if x as u64 >= u {
        law_sync_is_sound(
            ScalarBounds {
                umin: max_u64(b.umin, u),
                smin: if u <= i64::MAX && b.smin >= 0 {
                    max_i64(b.smin, u as i64)
                } else {
                    b.smin
                },
                ..b
            },
            x,
        );
    }
}

pub proof fn lemma_unsigned(x: i64)
    ensures
        x as u64 == if x >= 0 {
            x as int
        } else {
            x + TURN
        },
{
    assert(x >= 0 ==> x as u64 == x) by (bit_vector);
    assert(x < 0 ==> x as u64 == x + 0x1_0000_0000_0000_0000) by (bit_vector);
}

/// The bounds of a sum or difference admit the sum or difference of what the
/// bounds of the operands admit, unless it overflows.
pub proof fn law_sums_are_sound(b: ScalarBounds, s: ScalarBounds, x: i64, y: i64)
    requires
        admits(b, x),
        admits(s, y),
    ensures
        fits(x + y) ==> admits(sum_bounds(b, s), (x + y) as i64),
        fits(x - y) ==> admits(difference_bounds(b, s), (x - y) as i64),
{
    lemma_unsigned(x);
    lemma_unsigned(y);
    if fits(x + y) {
        lemma_unsigned((x + y) as i64);
        let (umin, umax) = wrapped_range(b.umin + s.umin, b.umax + s.umax);
        lemma_resync_is_sound(
            ScalarBounds {
                smin: clip64(b.smin + s.smin),
                smax: clip64(b.smax + s.smax),
                umin,
                umax,
                ..ScalarBounds::unknown()
            },
            (x + y) as i64,
        );
    }
    if fits(x - y) {
        lemma_unsigned((x - y) as i64);
        let (umin, umax) = wrapped_range(b.umin - s.umax, b.umax - s.umin);
        lemma_resync_is_sound(
            ScalarBounds {
                smin: clip64(b.smin - s.smax),
                smax: clip64(b.smax - s.smin),
                umin,
                umax,
                ..ScalarBounds::unknown()
            },
            (x - y) as i64,
        );
    }
}

/// Adding a constant keeps the sum within the new bounds, unless it overflows.
pub proof fn law_add_imm_is_sound(b: ScalarBounds, imm: i64, x: i64)
    requires
        admits(b, x),
        fits(x + imm),
    ensures
        admits(bounds_plus(b, imm), (x + imm) as i64),
{
    law_unknown_and_constant(imm, imm);
    law_sums_are_sound(b, ScalarBounds::constant(imm), x, imm);
}

/// The bounds of a multiple admit the multiples of what the bounds of the
/// register admit, unless they overflow.
pub proof fn law_mul_imm_is_sound(x: RegInterval, imm: i64, a: i64)
    requires
        admits(x.bounds, a),
        fits(a * imm),
    ensures
        admits(times_imm(x, imm).bounds, (a * imm) as i64),
{
    let b = x.bounds;
    assert(imm == 0 ==> a * imm == 0) by (nonlinear_arith);
    assert(imm == 1 ==> a * imm == a) by (nonlinear_arith);
    if imm == 0 {
        law_unknown_and_constant(0, 0);
    } else if imm < 0 {
        law_unknown_and_constant(0, (a * imm) as i64);
    } else if imm > 1 {
        let y = (a * imm) as i64;
        lemma_unsigned(a);
        lemma_unsigned(y);
        let u = a as u64;
        assert(b.smin * imm <= a * imm <= b.smax * imm && b.umin * imm <= u * imm <= b.umax * imm
            && (a >= 0 ==> a * imm >= 0) && 2 * u <= u * imm) by (nonlinear_arith)
            requires
                b.smin <= a <= b.smax,
                b.umin <= u <= b.umax,
                imm >= 2,
                u >= 0,
        ;
        lemma_resync_is_sound(
            ScalarBounds {
                smin: clip64(b.smin * imm),
                smax: clip64(b.smax * imm),
                umin: if b.umax * imm <= u64::MAX { clip_u64(b.umin * imm) } else { 0 },
                umax: clip_u64(b.umax * imm),
                ..ScalarBounds::unknown()
            },
            y,
        );
    }
}

/// The bounds of a negation admit the negation of what the bounds of the
/// register admit; the least number is its own negation.
pub proof fn law_neg_is_sound(x: RegInterval, a: i64)
    requires
        admits(x.bounds, a),
    ensures
        admits(negated(x).bounds, wrapped_neg(a)),
{
    law_unknown_and_constant(0, wrapped_neg(a));
    if x.bounds.smin > i64::MIN {
        lemma_unsigned(wrapped_neg(a));
        lemma_resync_is_sound(
            ScalarBounds {
                smin: (-x.bounds.smax) as i64,
                smax: (-x.bounds.smin) as i64,
                umin: 0,
                umax: u64::MAX,
                ..ScalarBounds::unknown()
            },
            wrapped_neg(a),
        );
    }
}

/// A register that was given a range admits every number in it.
pub proof fn law_ranges_are_admitted(min: i64, max: i64, x: i64)
    requires
        min <= x <= max,
    ensures
        admits(between(min, max).bounds, x),
{
    lemma_unsigned(x);
    lemma_resync_is_sound(
        ScalarBounds {
            smin: min,
            smax: max,
            umin: if min >= 0 { min as u64 } else { 0 },
            umax: if min >= 0 && max >= 0 { max as u64 } else { u64::MAX },
            ..ScalarBounds::unknown()
        },
        x,
    );
}

/// Masking with a non-negative mask gives bounds that admit every value
/// between zero and the mask.
pub proof fn law_mask_is_sound(mask: i64, x: i64)
    requires
        0 <= x <= mask,
    ensures
        admits(from_64(0, mask, 0, mask as u64), x),
{
    assert(x >= 0 ==> x as u64 == x) by (bit_vector);
    assert(mask >= 0 ==> mask as u64 == mask) by (bit_vector);
    lemma_resync_is_sound(
        ScalarBounds { smin: 0, smax: mask, umin: 0, umax: mask as u64, ..ScalarBounds::unknown() },
        x,
    );
}

/// The value lies within the signed bounds.
pub open spec fn in_range(b: ScalarBounds, x: int) -> bool {
    b.smin <= x <= b.smax
}

/// The number fits a register.
pub open spec fn fits(x: int) -> bool {
    i64::MIN <= x <= i64::MAX
}

/// The signed range of a register follows sums, differences, products,
/// quotients and negation, unless they overflow.
pub proof fn law_ranges_follow_arithmetic(x: RegInterval, s: ScalarBounds, imm: i64, a: int, c: int)
    requires
        in_range(x.bounds, a),
        in_range(s, c),
    ensures
        fits(a + imm) ==> in_range(plus_imm(x, imm).bounds, a + imm),
        fits(a + c) ==> in_range(plus_reg(x, s).bounds, a + c),
        fits(a - c) ==> in_range(minus_reg(x, s).bounds, a - c),
        fits(a * imm) ==> in_range(times_imm(x, imm).bounds, a * imm),
        imm > 0 ==> in_range(divided(x, imm).bounds, quotient(a, imm as int)),
        in_range(negated(x).bounds, wrapped_neg(a as i64) as int),
{
    let (lo, hi) = (x.bounds.smin as int, x.bounds.smax as int);
    assert(imm == 0 ==> a * imm == 0) by (nonlinear_arith);
    assert(imm == 1 ==> a * imm == a) by (nonlinear_arith);
    if imm > 0 {
        assert(lo * imm <= a * imm && a * imm <= hi * imm) by (nonlinear_arith)
            requires
                lo <= a <= hi,
                imm > 0,
        ;
        if lo >= 0 {
            assert(0 <= lo / (imm as int) && lo / (imm as int) <= a / (imm as int) && a / (imm as int)
                <= hi / (imm as int) && hi / (imm as int) <= hi) by (nonlinear_arith)
                requires
                    0 <= lo <= a <= hi,
                    imm > 0,
            ;
        } else {
            assert(a >= 0 ==> 0 <= a / (imm as int) <= a) by (nonlinear_arith)
                requires
                    imm > 0,
            ;
            assert(a < 0 ==> 0 <= (-a) / (imm as int) <= -a) by (nonlinear_arith)
                requires
                    imm > 0,
            ;
        }
    }
}

/// A pointer stands where its offset says, relative to where its anchor is.
pub open spec fn stands(p: PtrOffset, anchor: int, x: int) -> bool {
    p.off <= x - anchor <= p.off + p.var_off
}

/// The distance that is reported between two registers is right: of pointers
/// with a common anchor, and of numbers.
pub proof fn law_distance_is_sound(s: Intervals, x: Reg, y: Reg, anchor: int, a: int, b: int)
    requires
        fits(a - b),
        x == y ==> a == b,
        in_range(s.reg(x).bounds, a),
        in_range(s.reg(y).bounds, b),
        s.reg(x).ptr_offset matches Some(p) ==> stands(p, anchor, a) && fits(a - anchor),
        s.reg(y).ptr_offset matches Some(q) ==> stands(q, anchor, b) && fits(b - anchor),
    ensures
        s.distance(x, y).0 <= a - b <= s.distance(x, y).1,
{
}

/// A pointer that a number was added to stands where its new offset says,
/// unless the sum overflows.
pub proof fn law_moved_pointers_stand(p: PtrOffset, lo: i64, hi: i64, anchor: int, a: int, c: int)
    requires
        stands(p, anchor, a),
        lo <= c <= hi,
        fits(a + c - anchor),
        p.off + lo >= i64::MIN,
    ensures
        stands(spread(p, lo, hi), anchor, a + c),
        spread(p, lo, hi).off <= a + c - anchor <= spread(p, lo, hi).max_offset(),
{
}

proof fn lemma_bounds_put(s: Intervals, x: Reg, y: Reg, b: ScalarBounds)
    requires
        x != y,
        s.regs.len() == DBM_DIM,
    ensures
        s.put_bounds(x, b).reg(x).bounds == b,
        s.put_bounds(x, b).reg(y) == s.reg(y),
        s.put_bounds(x, b).regs.len() == DBM_DIM,
{
    law_index_round_trip(x, x.idx());
    law_index_round_trip(y, y.idx());
}

/// Assuming that one register is at most another, or greater, never loses
/// values of which that is true.
pub proof fn law_assume_le_is_sound(s: Intervals, x: Reg, y: Reg, a: i64, b: i64)
    requires
        x != y,
        s.regs.len() == DBM_DIM,
        admits(s.reg(x).bounds, a),
        admits(s.reg(y).bounds, b),
    ensures
        a <= b ==> admits(s.assume_le(x, y).reg(x).bounds, a),
        a <= b ==> admits(s.assume_le(x, y).reg(y).bounds, b),
        a > b ==> admits(s.assume_gt(x, y).reg(x).bounds, a),
        a > b ==> admits(s.assume_gt(x, y).reg(y).bounds, b),
{
    if a <= b {
        let (y_max, x_min) = (s.reg(y).bounds.smax, s.reg(x).bounds.smin);
        law_assumptions_are_sound(s.reg(x).bounds, y_max, 0, a);
        law_assumptions_are_sound(s.reg(y).bounds, x_min, 0, b);
        let c = s.reg(x).bounds.at_most(y_max);
        let d = s.reg(y).bounds.at_least(x_min);
        let t = s.put_bounds(x, c);
        lemma_bounds_put(s, x, y, c);
        lemma_bounds_put(t, y, x, d);
        assert(s.assume_le(x, y) == t.put_bounds(y, d));
    } else {
        let (y_min, x_max) = (s.reg(y).bounds.smin, s.reg(x).bounds.smax);
        law_assumptions_are_sound(s.reg(x).bounds, clip64(y_min + 1), 0, a);
        law_assumptions_are_sound(s.reg(y).bounds, clip64(x_max - 1), 0, b);
        let c = s.reg(x).bounds.at_least(clip64(y_min + 1));
        let d = s.reg(y).bounds.at_most(clip64(x_max - 1));
        let t = s.put_bounds(x, c);
        lemma_bounds_put(s, x, y, c);
        lemma_bounds_put(t, y, x, d);
        assert(s.assume_gt(x, y) == t.put_bounds(y, d));
    }
}

/// Bounds that are assumed hold afterwards, signed and unsigned, and the low half
/// is bounded by numbers that share their upper half.
pub proof fn law_assumed_bounds_hold(b: ScalarBounds, c: i64, u: u64)
    ensures
        b.at_most(c).smax <= c,
        b.at_least(c).smin >= c,
        c >= 0 && b.smin >= 0 ==> b.at_most(c).umax <= c,
        c >= 0 ==> b.at_least(c).umin >= c,
        b.at_most_unsigned(u).umax <= u,
        b.at_least_unsigned(u).umin >= u,
        u <= i64::MAX ==> b.at_most_unsigned(u).smax <= u,
        u <= i64::MAX && b.smin >= 0 ==> b.at_least_unsigned(u).smin >= u,
        no_looser(b.at_most(c), b),
        no_looser(b.at_least(c), b),
        no_looser(b.at_most_unsigned(u), b),
        no_looser(b.at_least_unsigned(u), b),
{
}

/// The bounds of the low half follow from those of the whole if all its numbers
/// share their upper half.
pub proof fn law_low_halves_are_bounded(b: ScalarBounds)
    ensures
        b.umin >> 32 == b.umax >> 32 ==> b.synced().u32_min >= low32(b.umin) && b.synced().u32_max
            <= low32(b.umax),
        b.umin >> 32 == b.umax >> 32 ==> b.resynced().u32_min >= low32(b.umin)
            && b.resynced().u32_max <= low32(b.umax),
        no_looser(b.synced(), b),
{
}

} // verus!
