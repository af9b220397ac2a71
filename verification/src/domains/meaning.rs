//! The values a numeric state allows, and what its answers say of them.
use crate::domains::interval::laws as interval_laws;
use crate::domains::interval::laws::admits;
use crate::domains::interval::state::{
    empty_bounds, Intervals, PtrOffset, RegInterval, ScalarBounds,
};
use crate::domains::numeric::Numeric;
use crate::domains::zone::dbm::{Zone, INF};
use crate::domains::zone::exact::{
    law_assignments_are_kept, law_assumptions_are_kept, law_comparisons_are_kept, lean,
    lemma_bound_is_lean, lemma_forgotten_is_lean, lemma_mask_is_lean, moderate, others_kept,
};
use crate::domains::zone::laws as zone_laws;
use crate::domains::zone::laws::{describes, models, with_value};
use crate::domains::interval::ops::{
    between, divided, from_64, masked, minus_reg, negated, plus_imm, plus_reg, spread, times_imm,
};
use crate::machine::reg::{law_index_round_trip, Reg, DBM_DIM};
use crate::num::clip64;
use vstd::prelude::*;

verus! {

/// The anchors whose places are the places of variables of their own: the
/// frame pointer, and the start of the metadata, the start and the end of the
/// packet.
pub open spec fn has_a_place(anchor: Reg) -> bool {
    anchor == Reg::R10 || anchor == Reg::AnchorDataMeta || anchor == Reg::AnchorData || anchor
        == Reg::AnchorDataEnd
}

/// A distance from the anchor that the offset allows.
pub open spec fn stands_at(p: PtrOffset, distance: int) -> bool {
    &&& p.off <= distance <= p.off + p.var_off
    &&& i64::MIN <= distance <= i64::MAX
}

/// Each variable's value lies in its interval, pointers stand where their
/// offsets from the anchors say, and the anchors are as far apart as they are
/// known to be.
pub open spec fn lie_within(s: Intervals, v: spec_fn(int) -> int) -> bool {
    &&& s.regs.len() == DBM_DIM
    &&& v(0) == 0
    &&& s.regs[0].bounds == ScalarBounds::constant(0)
    &&& s.regs[0].ptr_offset is None
    &&& forall|i: int|
        #![trigger s.regs[i]]
        1 <= i < 15 ==> i64::MIN <= v(i) <= i64::MAX && admits(s.regs[i].bounds, v(i) as i64) && (
        s.regs[i].ptr_offset matches Some(p) ==> (has_a_place(p.anchor) ==> stands_at(
            p,
            v(i) - v(p.anchor.idx() as int),
        )))
    &&& s.packet_lower matches Some(n) ==> v(14) - v(13) >= n
    &&& s.packet_upper matches Some(n) ==> v(14) - v(13) < n
    &&& s.meta_lower matches Some(n) ==> v(13) - v(12) >= n
    &&& s.meta_upper matches Some(n) ==> v(13) - v(12) < n
}

/// The state allows the values `v`, given by the variables' numbers.
pub open spec fn allows(d: Numeric, v: spec_fn(int) -> int) -> bool {
    match d {
        Numeric::Zone(z) => describes(z, v),
        Numeric::Interval(s) => lie_within(s, v),
    }
}

/// The range that is reported for a register holds all its values; if it is
/// reported to have one value, that is its value.
pub proof fn law_ranges_are_true(d: Numeric, v: spec_fn(int) -> int, r: Reg)
    requires
        allows(d, v),
        1 <= r.idx() < 12,
    ensures
        d.range(r).0 <= v(r.idx() as int) <= d.range(r).1,
        d.fixed(r) matches Some(c) ==> v(r.idx() as int) == c,
{
    match d {
        Numeric::Zone(z) => {
            zone_laws::law_distance_is_sound(z, r, Reg::Zero, v);
            let b = z.bounds[r.idx() as int];
        },
        Numeric::Interval(s) => {
            let b = s.regs[r.idx() as int];
        },
    }
}

/// Both registers are pointers with a place, or neither is a pointer.
pub open spec fn comparable(d: Numeric, x: Reg, y: Reg) -> bool {
    match d {
        Numeric::Zone(_) => true,
        Numeric::Interval(s) => {
            &&& s.regs[x.idx() as int].ptr_offset matches Some(p) ==> has_a_place(p.anchor)
            &&& s.regs[y.idx() as int].ptr_offset matches Some(p) ==> has_a_place(p.anchor)
        },
    }
}

/// The range that is reported for the distance of two registers holds all the
/// distances they can have; if one distance is reported, it is that one.
pub proof fn law_distances_are_true(d: Numeric, v: spec_fn(int) -> int, x: Reg, y: Reg)
    requires
        allows(d, v),
        comparable(d, x, y),
        i64::MIN < v(x.idx() as int) - v(y.idx() as int) < i64::MAX,
    ensures
        d.distance(x, y).0 <= v(x.idx() as int) - v(y.idx() as int) <= d.distance(x, y).1,
        d.fixed_distance(x, y) matches Some(c) ==> v(x.idx() as int) - v(y.idx() as int) == c,
{
    match d {
        Numeric::Zone(z) => {
            zone_laws::law_distance_is_sound(z, x, y, v);
        },
        Numeric::Interval(s) => {
            let a = s.regs[x.idx() as int];
            let b = s.regs[y.idx() as int];
        },
    }
}

/// An access that is reported to start in a region starts at or after the
/// region's start, and one that is reported to end in it ends at or before the
/// region's end, for all values of the pointer and the anchors.
pub proof fn law_regions_are_kept(
    d: Numeric,
    v: spec_fn(int) -> int,
    base: Reg,
    off: i64,
    size: i64,
    start: Reg,
    end: Reg,
)
    requires
        allows(d, v),
        1 <= base.idx() < 12,
        -0x8000 <= off <= 0x7FFF,
        0 < size <= 0x7FFF,
        start == Reg::AnchorData && end == Reg::AnchorDataEnd || start == Reg::AnchorDataMeta && end
            == Reg::AnchorData,
        v(end.idx() as int) - v(start.idx() as int) <= 0xFFFF_FFFF,
    ensures
        d.region_access(base, off, size, start, end).0 ==> v(start.idx() as int) <= v(
            base.idx() as int,
        ) + off,
        d.region_access(base, off, size, start, end).1 ==> v(base.idx() as int) + off + size <= v(
            end.idx() as int,
        ),
{
    match d {
        Numeric::Zone(z) => {
            zone_laws::law_region_check_is_sound(
                z,
                base,
                off as int,
                size as int,
                start,
                end,
                v,
            );
        },
        Numeric::Interval(s) => {
            let b = s.regs[base.idx() as int];
        },
    }
}

/// An inconsistent state allows nothing.
pub proof fn law_contradictions_allow_nothing(d: Numeric, v: spec_fn(int) -> int)
    requires
        allows(d, v),
    ensures
        !d.inconsistent(),
{
    match d {
        Numeric::Zone(z) => {
            if z.inconsistent() {
                zone_laws::law_inconsistent_allows_nothing(z, DBM_DIM as int, v);
            }
        },
        Numeric::Interval(s) => {
            assert forall|i: int| 0 <= i < s.regs.len() implies !empty_bounds(
                (#[trigger] s.regs[i]).bounds,
            ) by {
                if i > 0 {
                    assert(admits(s.regs[i].bounds, v(i) as i64));
                }
            }
        },
    }
}

/// A register that a program can write, other than the frame pointer.
pub open spec fn general(x: Reg) -> bool {
    1 <= x.idx() <= 10
}

/// What is known of one register is replaced by what is true of its new value.
proof fn lemma_put(s: Intervals, x: Reg, r: RegInterval, v: spec_fn(int) -> int, c: int)
    requires
        lie_within(s, v),
        general(x),
        i64::MIN <= c <= i64::MAX,
        admits(r.bounds, c as i64),
        r.ptr_offset matches Some(p) ==> (has_a_place(p.anchor) ==> stands_at(
            p,
            c - v(p.anchor.idx() as int),
        )),
    ensures
        lie_within(s.put(x, r), with_value(v, x.idx() as int, c)),
        s.assign(x, r) == s.put(x, r),
{
    let t = s.put(x, r);
    let w = with_value(v, x.idx() as int, c);
    assert forall|i: int|
        #![trigger t.regs[i]]
        1 <= i < 15 implies i64::MIN <= w(i) <= i64::MAX && admits(t.regs[i].bounds, w(i) as i64)
        && (t.regs[i].ptr_offset matches Some(p) ==> (has_a_place(p.anchor) ==> stands_at(
        p,
        w(i) - w(p.anchor.idx() as int),
    ))) by {
        if i != x.idx() {
            assert(t.regs[i] == s.regs[i]);
        }
    }
    assert(t.regs[0] == s.regs[0]);
}

/// The bounds of one variable are replaced by others that are true of it.
proof fn lemma_put_bounds(s: Intervals, x: Reg, b: ScalarBounds, v: spec_fn(int) -> int)
    requires
        lie_within(s, v),
        x != Reg::Zero,
        admits(b, v(x.idx() as int) as i64),
    ensures
        lie_within(s.put_bounds(x, b), v),
{
    let t = s.put_bounds(x, b);
    assert forall|i: int|
        #![trigger t.regs[i]]
        1 <= i < 15 implies i64::MIN <= v(i) <= i64::MAX && admits(t.regs[i].bounds, v(i) as i64)
        && (t.regs[i].ptr_offset matches Some(p) ==> (has_a_place(p.anchor) ==> stands_at(
        p,
        v(i) - v(p.anchor.idx() as int),
    ))) by {
        assert(i64::MIN <= v(i) <= i64::MAX && admits(s.regs[i].bounds, v(i) as i64));
        if i != x.idx() {
            assert(t.regs[i] == s.regs[i]);
        }
    }
    assert(t.regs[0] == s.regs[0]);
}

/// Assignments follow the program: what the state allowed before, it allows
/// with the register set to its new value.
pub proof fn law_assignments_are_followed(
    d: Numeric,
    x: Reg,
    y: Reg,
    c: i64,
    lo: i64,
    hi: i64,
    v: spec_fn(int) -> int,
)
    requires
        allows(d, v),
        general(x),
        1 <= y.idx() < 12,
    ensures
        allows(d.forget(x), with_value(v, x.idx() as int, c as int)),
        allows(d.assign_imm(x, c), with_value(v, x.idx() as int, c as int)),
        allows(d.assign_reg(x, y), with_value(v, x.idx() as int, v(y.idx() as int))),
        i64::MIN <= v(y.idx() as int) + c <= i64::MAX && distances_fit(v, y, c as int) ==> allows(
            d.assign_reg_offset(x, y, c),
            with_value(v, x.idx() as int, v(y.idx() as int) + c),
        ),
        lo <= c <= hi ==> allows(
            d.assign_interval(x, lo, hi),
            with_value(v, x.idx() as int, c as int),
        ),
{
    let i = x.idx() as int;
    let j = y.idx() as int;
    match d {
        Numeric::Zone(z) => {
            zone_laws::lemma_forget_describes(z, i, c as int, v);
            zone_laws::lemma_close_describes(z.forget(i), with_value(v, i, c as int));
            zone_laws::law_assign_imm_is_sound(z, x, c as int, v);
            let b = z.bounds[j];
            zone_laws::law_assign_reg_offset_is_sound(z, x, y, 0, v);
            assert(z.assign_reg(x, y) == z.assign_reg_offset(x, y, 0) || x == y);
            if x == y {
                lemma_same(v, i);
            }
            if i64::MIN <= v(j) + c <= i64::MAX {
                zone_laws::law_assign_reg_offset_is_sound(z, x, y, c as int, v);
            }
            if lo <= c <= hi {
                let w = with_value(v, i, c as int);
                let f = z.forget(i);
                zone_laws::law_assume_imm_is_sound(f, x, lo as int, w);
                zone_laws::law_assume_imm_is_sound(f.assume_ge_imm(x, lo as int), x, hi as int, w);
                zone_laws::lemma_close_describes(f.assume_range(x, lo as int, hi as int), w);
            }
        },
        Numeric::Interval(s) => {
            let r = s.regs[j];
            interval_laws::law_unknown_and_constant(c, c);
            lemma_put(s, x, RegInterval::unknown(), v, c as int);
            lemma_put(s, x, RegInterval::constant(c), v, c as int);
            lemma_put(s, x, r, v, v(j));
            if i64::MIN <= v(j) + c <= i64::MAX && distances_fit(v, y, c as int) {
                interval_laws::law_add_imm_is_sound(r.bounds, c, v(j) as i64);
                lemma_put(s, x, plus_imm(r, c), v, v(j) + c);
            }
            if lo <= c <= hi {
                interval_laws::law_ranges_are_admitted(lo, hi, c);
                lemma_put(s, x, between(lo, hi), v, c as int);
            }
        },
    }
}

/// Setting a variable to the value it has changes nothing.
proof fn lemma_same(v: spec_fn(int) -> int, i: int)
    ensures
        with_value(v, i, v(i)) == v,
{
    assert(with_value(v, i, v(i)) =~= v);
}

/// A pointer that moves by `c` stays within reach of the anchors.
pub open spec fn distances_fit(v: spec_fn(int) -> int, x: Reg, c: int) -> bool {
    forall|k: int|
        11 <= k < 15 ==> i64::MIN <= v(x.idx() as int) + c - (#[trigger] v(k)) <= i64::MAX
}

/// Arithmetic follows the program: what the state allowed before, it allows
/// with the register set to the result, unless that overflows.
pub proof fn law_arithmetic_is_followed(
    d: Numeric,
    x: Reg,
    y: Reg,
    c: i64,
    v: spec_fn(int) -> int,
)
    requires
        allows(d, v),
        general(x),
        general(y),
    ensures
        ({
            let (a, b) = (v(x.idx() as int), v(y.idx() as int));
            let i = x.idx() as int;
            &&& i64::MIN <= a + c <= i64::MAX && distances_fit(v, x, c as int) ==> allows(
                d.add_imm(x, c),
                with_value(v, i, a + c),
            )
            &&& i64::MIN <= a + b <= i64::MAX && distances_fit(v, x, b) ==> allows(
                d.add_reg(x, y),
                with_value(v, i, a + b),
            )
            &&& i64::MIN <= a - b <= i64::MAX ==> allows(d.sub_reg(x, y), with_value(v, i, a - b))
            &&& i64::MIN <= a * c <= i64::MAX && (d matches Numeric::Interval(s) ==> (
            s.regs[i].ptr_offset is None || c != 1)) ==> allows(
                d.mul_imm(x, c),
                with_value(v, i, a * c),
            )
            &&& c > 0 && a >= 0 ==> allows(d.div_imm(x, c), with_value(v, i, a / (c as int)))
            &&& a != i64::MIN ==> allows(d.neg(x), with_value(v, i, -a))
            &&& c >= 0 ==> allows(d.and_imm(x, c), with_value(v, i, (a as i64 & c) as int))
        }),
{
    let i = x.idx() as int;
    let j = y.idx() as int;
    let (a, b) = (v(i), v(j));
    match d {
        Numeric::Zone(z) => {
            let bx = z.bounds[i];
            let by = z.bounds[j];
            if i64::MIN <= a + c <= i64::MAX {
                zone_laws::law_add_imm_is_sound(z, x, c as int, v);
            }
            if i64::MIN <= a + b <= i64::MAX {
                zone_laws::law_add_reg_is_sound(z, x, y, v);
            }
            if i64::MIN <= a - b <= i64::MAX {
                zone_laws::law_sub_reg_is_sound(z, x, y, v);
            }
            if i64::MIN <= a * c <= i64::MAX {
                zone_laws::law_mul_imm_is_sound(z, x, c as int, v);
            }
            if c > 0 && a >= 0 {
                zone_laws::law_div_imm_is_sound(z, x, c as int, v);
            }
            if a != i64::MIN {
                zone_laws::law_neg_is_sound(z, x, v);
            }
            if c >= 0 {
                zone_laws::law_and_imm_is_sound(z, x, c, v);
            }
        },
        Numeric::Interval(s) => {
            let r = s.regs[i];
            let q = s.regs[j];
            assert(admits(r.bounds, a as i64) && admits(q.bounds, b as i64));
            if i64::MIN <= a + c <= i64::MAX && distances_fit(v, x, c as int) {
                interval_laws::law_add_imm_is_sound(r.bounds, c, a as i64);
                lemma_put(s, x, plus_imm(r, c), v, a + c);
            }
            interval_laws::law_sums_are_sound(r.bounds, q.bounds, a as i64, b as i64);
            if i64::MIN <= a + b <= i64::MAX && distances_fit(v, x, b) {
                lemma_put(s, x, plus_reg(r, q.bounds), v, a + b);
            }
            if i64::MIN <= a - b <= i64::MAX {
                lemma_put(s, x, minus_reg(r, q.bounds), v, a - b);
            }
            if i64::MIN <= a * c <= i64::MAX && (r.ptr_offset is None || c != 1) {
                assert(c == 1 ==> a * c == a) by (nonlinear_arith);
                interval_laws::law_mul_imm_is_sound(r, c, a as i64);
                lemma_put(s, x, times_imm(r, c), v, a * c);
            }
            if c > 0 && a >= 0 {
                lemma_divided(r, c, a as i64);
                lemma_put(s, x, divided(r, c), v, a / (c as int));
            }
            if a != i64::MIN {
                interval_laws::law_neg_is_sound(r, a as i64);
                lemma_put(s, x, negated(r), v, -a);
            }
            if c >= 0 {
                let e = a as i64;
                assert(c >= 0 ==> 0 <= (e & c) && (e & c) <= c) by (bit_vector);
                interval_laws::law_mask_is_sound(c, e & c);
                lemma_put(s, x, masked(c), v, (e & c) as int);
            }
        },
    }
}

proof fn lemma_divided(r: RegInterval, c: i64, a: i64)
    requires
        admits(r.bounds, a),
        c > 0,
        a >= 0,
    ensures
        admits(divided(r, c).bounds, (a as int / c as int) as i64),
        0 <= a as int / c as int <= a,
{
    let q = a as int / c as int;
    let b = r.bounds;
    assert(0 <= q <= a) by (nonlinear_arith)
        requires
            q == a as int / c as int,
            a >= 0,
            c > 0,
    ;
    interval_laws::law_unknown_and_constant(c, q as i64);
    if b.smin >= 0 {
        interval_laws::lemma_unsigned(a);
        interval_laws::lemma_unsigned(q as i64);
        let (lo, hi) = (b.smin as int / c as int, b.smax as int / c as int);
        let (ul, uh) = (b.umin as int / c as int, b.umax as int / c as int);
        assert(0 <= lo <= q <= hi && 0 <= ul <= q <= uh && hi <= b.smax && uh <= b.umax)
            by (nonlinear_arith)
            requires
                lo == b.smin as int / c as int,
                hi == b.smax as int / c as int,
                ul == b.umin as int / c as int,
                uh == b.umax as int / c as int,
                q == a as int / c as int,
                0 <= b.smin <= a <= b.smax,
                0 <= b.umin <= a <= b.umax,
                c > 0,
        ;
        interval_laws::lemma_resync_is_sound(
            ScalarBounds {
                smin: lo as i64,
                smax: hi as i64,
                umin: ul as u64,
                umax: uh as u64,
                ..ScalarBounds::unknown()
            },
            q as i64,
        );
    }
}

/// Assumptions that are true lose nothing.
pub proof fn law_assumptions_are_followed(
    d: Numeric,
    x: Reg,
    y: Reg,
    c: i64,
    lo: i64,
    hi: i64,
    v: spec_fn(int) -> int,
)
    requires
        allows(d, v),
        general(x),
        general(y),
        x != y,
    ensures
        ({
            let (a, b) = (v(x.idx() as int), v(y.idx() as int));
            &&& a <= c ==> allows(d.assume_le_imm(x, c), v)
            &&& a >= c ==> allows(d.assume_ge_imm(x, c), v)
            &&& a == c ==> allows(d.assume_eq_imm(x, c), v)
            &&& a < c ==> allows(d.assume_lt_imm(x, c), v)
            &&& lo <= a <= hi ==> allows(d.assume_range(x, lo, hi), v)
            &&& a <= b ==> allows(d.assume_le(x, y), v)
            &&& a >= b ==> allows(d.assume_ge(x, y), v)
            &&& a > b ==> allows(d.assume_gt(x, y), v)
            &&& a <= b + c ==> allows(d.assume_le_offset(x, y, c), v)
        }),
{
    let i = x.idx() as int;
    let j = y.idx() as int;
    let (a, b) = (v(i), v(j));
    match d {
        Numeric::Zone(z) => {
            zone_laws::law_assume_imm_is_sound(z, x, c as int, v);
            if lo <= a <= hi {
                zone_laws::law_assume_imm_is_sound(z, x, lo as int, v);
                zone_laws::law_assume_imm_is_sound(z.assume_ge_imm(x, lo as int), x, hi as int, v);
            }
            if a <= b {
                zone_laws::law_assume_reg_is_sound(z, x, y, 0, v);
            }
            if a >= b {
                zone_laws::law_assume_reg_is_sound(z, y, x, 0, v);
            }
            if a > b {
                zone_laws::law_assume_reg_is_sound(z, y, x, -1, v);
            }
            if a <= b + c {
                zone_laws::law_assume_reg_is_sound(z, x, y, c as int, v);
            }
        },
        Numeric::Interval(s) => {
            let r = s.regs[i];
            let q = s.regs[j];
            assert(admits(r.bounds, a as i64) && admits(q.bounds, b as i64));
            interval_laws::law_assumptions_are_sound(r.bounds, c, 0, a as i64);
            if a <= c {
                lemma_put_bounds(s, x, r.bounds.at_most(c), v);
            }
            if a >= c {
                lemma_put_bounds(s, x, r.bounds.at_least(c), v);
            }
            if a == c {
                interval_laws::law_unknown_and_constant(c, c);
                lemma_put_bounds(s, x, ScalarBounds::constant(c), v);
            }
            if a < c {
                interval_laws::law_assumptions_are_sound(r.bounds, (c - 1) as i64, 0, a as i64);
                lemma_put_bounds(s, x, r.bounds.at_most((c - 1) as i64), v);
            }
            if lo <= a <= hi {
                interval_laws::law_assumptions_are_sound(r.bounds, lo, 0, a as i64);
                let t = r.bounds.at_least(lo);
                interval_laws::law_assumptions_are_sound(t, hi, 0, a as i64);
                lemma_put_bounds(s, x, t, v);
                lemma_put_bounds(s.at_least(x, lo), x, t.at_most(hi), v);
            }
            lemma_two(s, x, y, v);
            lemma_two(s, y, x, v);
            if a <= b + c && q.bounds.smax != i64::MAX {
                let k = clip64(q.bounds.smax + c);
                interval_laws::law_assumptions_are_sound(r.bounds, k, 0, a as i64);
                lemma_put_bounds(s, x, r.bounds.at_most(k), v);
            }
        },
    }
}

proof fn lemma_two(s: Intervals, x: Reg, y: Reg, v: spec_fn(int) -> int)
    requires
        lie_within(s, v),
        general(x),
        general(y),
        x != y,
    ensures
        v(x.idx() as int) <= v(y.idx() as int) ==> lie_within(s.assume_le(x, y), v),
        v(x.idx() as int) > v(y.idx() as int) ==> lie_within(s.assume_gt(x, y), v),
{
    let i = x.idx() as int;
    let j = y.idx() as int;
    law_index_round_trip(x, x.idx());
    law_index_round_trip(y, y.idx());
    let r = s.regs[i].bounds;
    let q = s.regs[j].bounds;
    let (a, b) = (v(i) as i64, v(j) as i64);
    assert(admits(r, a) && admits(q, b));
    if v(i) <= v(j) {
        interval_laws::law_assumptions_are_sound(r, q.smax, 0, a);
        interval_laws::law_assumptions_are_sound(q, r.smin, 0, b);
        lemma_put_bounds(s, x, r.at_most(q.smax), v);
        let t = s.put_bounds(x, r.at_most(q.smax));
        assert(t.regs[j] == s.regs[j]);
        lemma_put_bounds(t, y, q.at_least(r.smin), v);
    } else {
        interval_laws::law_assumptions_are_sound(r, clip64(q.smin + 1), 0, a);
        interval_laws::law_assumptions_are_sound(q, clip64(r.smax - 1), 0, b);
        lemma_put_bounds(s, x, r.at_least(clip64(q.smin + 1)), v);
        let t = s.put_bounds(x, r.at_least(clip64(q.smin + 1)));
        assert(t.regs[j] == s.regs[j]);
        lemma_put_bounds(t, y, q.at_most(clip64(r.smax - 1)), v);
    }
}

/// The state covers all variables, and its bounds are bounds or say nothing.
pub open spec fn firm(d: Numeric) -> bool {
    match d {
        Numeric::Zone(z) => lean(z),
        Numeric::Interval(s) => s.regs.len() == DBM_DIM,
    }
}

/// The values lie in the ranges that were known of all registers but `x`.
pub open spec fn others_in_range(d: Numeric, x: Reg, w: spec_fn(int) -> int) -> bool {
    forall|r: Reg|
        general(r) && r != x ==> (#[trigger] d.range(r)).0 <= w(r.idx() as int) <= d.range(r).1
}

proof fn lemma_others_in_range(z: Zone, x: Reg, w: spec_fn(int) -> int)
    requires
        others_kept(z, x, w),
        general(x),
        w(0) == 0,
        forall|i: int| 1 <= i < 12 ==> i64::MIN <= #[trigger] w(i) <= i64::MAX,
    ensures
        others_in_range(Numeric::Zone(z), x, w),
{
    assert forall|r: Reg| general(r) && r != x implies (#[trigger] Numeric::Zone(z).range(r)).0 <= w(
        r.idx() as int,
    ) <= Numeric::Zone(z).range(r).1 by {
        let i = r.idx() as int;
        law_index_round_trip(r, r.idx());
        law_index_round_trip(x, x.idx());
        assert(i64::MIN <= w(i) <= i64::MAX);
        assert(z.m[i][0] < INF ==> w(i) - w(0) <= z.m[i][0]);
        assert(z.m[0][i] < INF ==> w(0) - w(i) <= z.m[0][i]);
    }
}

proof fn lemma_values_fit(d: Numeric, w: spec_fn(int) -> int)
    requires
        allows(d, w),
    ensures
        w(0) == 0,
        forall|i: int| 1 <= i < 12 ==> i64::MIN <= #[trigger] w(i) <= i64::MAX,
{
    assert forall|i: int| 1 <= i < 12 implies i64::MIN <= #[trigger] w(i) <= i64::MAX by {
        match d {
            Numeric::Zone(z) => {
                let b = z.bounds[i];
            },
            Numeric::Interval(s) => {
                let b = s.regs[i];
            },
        }
    }
}

/// After an assignment the register has no other value than the one assigned,
/// and the other registers stay in their ranges.
pub proof fn law_assignments_are_exact(
    d: Numeric,
    x: Reg,
    y: Reg,
    c: i64,
    lo: i64,
    hi: i64,
    w: spec_fn(int) -> int,
)
    requires
        firm(d),
        general(x),
        general(y),
        x != y,
        moderate(c as int),
        moderate(lo as int),
        moderate(hi as int),
    ensures
        allows(d.assign_imm(x, c), w) ==> w(x.idx() as int) == c && others_in_range(d, x, w),
        allows(d.assign_interval(x, lo, hi), w) ==> lo <= w(x.idx() as int) <= hi
            && others_in_range(d, x, w),
        allows(d.and_imm(x, c), w) && c >= 0 ==> 0 <= w(x.idx() as int) <= c && others_in_range(
            d,
            x,
            w,
        ),
        allows(d.assign_reg(x, y), w) ==> d.range(y).0 <= w(x.idx() as int) <= d.range(y).1
            && others_in_range(d, x, w),
        d is Zone && allows(d.assign_reg(x, y), w) ==> w(x.idx() as int) == w(y.idx() as int),
        d is Zone && allows(d.assign_reg_offset(x, y, c), w) ==> w(x.idx() as int) == w(
            y.idx() as int,
        ) + c && others_in_range(d, x, w),
        allows(d.forget(x), w) ==> others_in_range(d, x, w),
{
    match d {
        Numeric::Zone(z) => {
            lemma_zone_assigned(z, x, y, c, lo, hi, w);
        },
        Numeric::Interval(s) => {
            lemma_replaced(s, x, RegInterval::constant(c), w);
            lemma_replaced(s, x, between(lo, hi), w);
            lemma_replaced(s, x, masked(c), w);
            lemma_replaced(s, x, s.reg(y), w);
            lemma_replaced(s, x, RegInterval::unknown(), w);
        },
    }
}

proof fn lemma_replaced(s: Intervals, x: Reg, q: RegInterval, w: spec_fn(int) -> int)
    requires
        s.regs.len() == DBM_DIM,
        general(x),
    ensures
        lie_within(s.assign(x, q), w) ==> q.bounds.smin <= w(x.idx() as int) <= q.bounds.smax
            && others_in_range(Numeric::Interval(s), x, w),
{
    let d = Numeric::Interval(s);
    let t = s.assign(x, q);
    law_index_round_trip(x, x.idx());
    if lie_within(t, w) {
        assert(t.regs[x.idx() as int] == q);
        assert forall|r: Reg| general(r) && r != x implies (#[trigger] d.range(r)).0 <= w(
            r.idx() as int,
        ) <= d.range(r).1 by {
            law_index_round_trip(r, r.idx());
            assert(t.regs[r.idx() as int] == s.regs[r.idx() as int]);
        }
    }
}

proof fn lemma_zone_others(z: Zone, t: Zone, x: Reg, w: spec_fn(int) -> int)
    requires
        describes(t, w),
        others_kept(z, x, w),
        general(x),
    ensures
        others_in_range(Numeric::Zone(z), x, w),
{
    lemma_values_fit(Numeric::Zone(t), w);
    lemma_others_in_range(z, x, w);
}

proof fn lemma_zone_assigned(
    z: Zone,
    x: Reg,
    y: Reg,
    c: i64,
    lo: i64,
    hi: i64,
    w: spec_fn(int) -> int,
)
    requires
        lean(z),
        general(x),
        general(y),
        x != y,
        moderate(c as int),
        moderate(lo as int),
        moderate(hi as int),
    ensures
        ({
            let d = Numeric::Zone(z);
            let (a, b) = (w(x.idx() as int), w(y.idx() as int));
            &&& describes(z.assign_imm(x, c as int), w) ==> a == c && others_in_range(d, x, w)
            &&& describes(z.assign_interval(x, lo as int, hi as int), w) ==> lo <= a <= hi
                && others_in_range(d, x, w)
            &&& describes(z.and_imm(x, c as int), w) ==> 0 <= a <= c && others_in_range(d, x, w)
            &&& describes(z.assign_reg(x, y), w) ==> a == b && d.range(y).0 <= a <= d.range(y).1
                && others_in_range(d, x, w)
            &&& describes(z.assign_reg_offset(x, y, c as int), w) ==> a == b + c
                && others_in_range(d, x, w)
            &&& describes(z.forget(x.idx() as int).close(), w) ==> others_in_range(d, x, w)
        }),
{
    let d = Numeric::Zone(z);
    if describes(z.assign_imm(x, c as int), w) {
        law_assignments_are_kept(z, x, y, c as int, 0, w);
        lemma_zone_others(z, z.assign_imm(x, c as int), x, w);
    }
    if describes(z.assign_interval(x, lo as int, hi as int), w) {
        law_assignments_are_kept(z, x, y, lo as int, hi as int, w);
        lemma_zone_others(z, z.assign_interval(x, lo as int, hi as int), x, w);
    }
    if describes(z.and_imm(x, c as int), w) {
        law_assignments_are_kept(z, x, y, c as int, 0, w);
        lemma_zone_others(z, z.and_imm(x, c as int), x, w);
    }
    if describes(z.assign_reg(x, y), w) {
        law_assignments_are_kept(z, x, y, c as int, 0, w);
        lemma_zone_others(z, z.assign_reg(x, y), x, w);
        assert(d.range(y).0 <= w(y.idx() as int) <= d.range(y).1);
    }
    if describes(z.assign_reg_offset(x, y, c as int), w) {
        law_assignments_are_kept(z, x, y, c as int, 0, w);
        lemma_zone_others(z, z.assign_reg_offset(x, y, c as int), x, w);
    }
    if describes(z.forget(x.idx() as int).close(), w) {
        lemma_forgets(z, x, w);
        lemma_zone_others(z, z.forget(x.idx() as int).close(), x, w);
    }
}

proof fn lemma_forgets(z: Zone, x: Reg, w: spec_fn(int) -> int)
    requires
        lean(z),
        models(z.forget(x.idx() as int).close().m, w),
    ensures
        others_kept(z, x, w),
{
    lemma_forgotten_is_lean(z, x, w);
}

/// What is assumed holds afterwards, and nothing that was known is lost.
#[verifier::rlimit(60)]
pub proof fn law_assumptions_are_exact(
    d: Numeric,
    x: Reg,
    y: Reg,
    c: i64,
    lo: i64,
    hi: i64,
    w: spec_fn(int) -> int,
)
    requires
        firm(d),
        general(x),
        general(y),
        x != y,
        moderate(c as int),
        moderate(lo as int),
        moderate(hi as int),
    ensures
        ({
            let (a, b) = (w(x.idx() as int), w(y.idx() as int));
            &&& allows(d.assume_le_imm(x, c), w) ==> a <= c && others_in_range(d, x, w)
            &&& allows(d.assume_ge_imm(x, c), w) ==> a >= c && others_in_range(d, x, w)
            &&& allows(d.assume_eq_imm(x, c), w) ==> a == c && others_in_range(d, x, w)
            &&& allows(d.assume_lt_imm(x, c), w) ==> a < c && others_in_range(d, x, w)
            &&& allows(d.assume_range(x, lo, hi), w) ==> lo <= a <= hi && others_in_range(d, x, w)
            &&& d is Zone && allows(d.assume_le(x, y), w) ==> a <= b
            &&& d is Zone && allows(d.assume_ge(x, y), w) ==> a >= b
            &&& d is Zone && allows(d.assume_gt(x, y), w) ==> a > b
            &&& d is Zone && allows(d.assume_le_offset(x, y, c), w) ==> a <= b + c
            &&& d is Interval && allows(d.assume_le(x, y), w) ==> a <= d.range(y).1 && b
                >= d.range(x).0
            &&& d is Interval && allows(d.assume_ge(x, y), w) ==> b <= d.range(x).1 && a
                >= d.range(y).0
            &&& d is Interval && allows(d.assume_gt(x, y), w) && d.range(y).0 < i64::MAX && d.range(
                x,
            ).1 > i64::MIN ==> a > d.range(y).0 && b < d.range(x).1
            &&& d is Interval && allows(d.assume_le_offset(x, y, c), w) && d.range(y).1 < i64::MAX
                && i64::MIN <= d.range(y).1 + c ==> a <= d.range(y).1 + c
        }),
{
    match d {
        Numeric::Zone(z) => {
            lemma_zone_bounded(z, x, y, c, lo, hi, w);
            lemma_zone_compared(z, x, y, c, w);
        },
        Numeric::Interval(s) => {
            lemma_intervals_bounded(s, x, y, c, lo, hi, w);
            lemma_two_exact(s, x, y, w);
            lemma_two_exact(s, y, x, w);
        },
    }
}

proof fn lemma_intervals_bounded(
    s: Intervals,
    x: Reg,
    y: Reg,
    c: i64,
    lo: i64,
    hi: i64,
    w: spec_fn(int) -> int,
)
    requires
        s.regs.len() == DBM_DIM,
        general(x),
        moderate(c as int),
    ensures
        ({
            let d = Numeric::Interval(s);
            let a = w(x.idx() as int);
            &&& allows(d.assume_le_imm(x, c), w) ==> a <= c && others_in_range(d, x, w)
            &&& allows(d.assume_ge_imm(x, c), w) ==> a >= c && others_in_range(d, x, w)
            &&& allows(d.assume_eq_imm(x, c), w) ==> a == c && others_in_range(d, x, w)
            &&& allows(d.assume_lt_imm(x, c), w) ==> a < c && others_in_range(d, x, w)
            &&& allows(d.assume_range(x, lo, hi), w) ==> lo <= a <= hi && others_in_range(d, x, w)
            &&& allows(d.assume_le_offset(x, y, c), w) && d.range(y).1 < i64::MAX && i64::MIN
                <= d.range(y).1 + c ==> a <= d.range(y).1 + c
        }),
{
    lemma_capped(s, x, c, w);
    lemma_capped(s, x, (c - 1) as i64, w);
    lemma_capped(s, x, clip64(s.reg(y).bounds.smax + c), w);
    lemma_between(s, x, lo, hi, w);
    lemma_narrowed(s, x, ScalarBounds::constant(c), w);
}

proof fn lemma_capped(s: Intervals, x: Reg, c: i64, w: spec_fn(int) -> int)
    requires
        s.regs.len() == DBM_DIM,
        general(x),
    ensures
        lie_within(s.at_most(x, c), w) ==> w(x.idx() as int) <= c && others_in_range(
            Numeric::Interval(s),
            x,
            w,
        ),
        lie_within(s.at_least(x, c), w) ==> w(x.idx() as int) >= c && others_in_range(
            Numeric::Interval(s),
            x,
            w,
        ),
{
    let b = s.reg(x).bounds;
    lemma_narrowed(s, x, b.at_most(c), w);
    lemma_narrowed(s, x, b.at_least(c), w);
    assert(b.at_most(c).smax <= c);
    assert(b.at_least(c).smin >= c);
}

proof fn lemma_between(s: Intervals, x: Reg, lo: i64, hi: i64, w: spec_fn(int) -> int)
    requires
        s.regs.len() == DBM_DIM,
        general(x),
    ensures
        lie_within(s.at_least(x, lo).at_most(x, hi), w) ==> lo <= w(x.idx() as int) <= hi
            && others_in_range(Numeric::Interval(s), x, w),
{
    let a = s.reg(x).bounds.at_least(lo);
    let b = a.at_most(hi);
    assert(a.smin >= lo);
    assert(b.smin >= lo && b.smax <= hi);
    let t = s.at_least(x, lo);
    assert(t.reg(x).bounds == a);
    assert(t.at_most(x, hi).regs =~= s.put_bounds(x, b).regs);
    lemma_narrowed(s, x, b, w);
}

proof fn lemma_narrowed(s: Intervals, x: Reg, q: ScalarBounds, w: spec_fn(int) -> int)
    requires
        s.regs.len() == DBM_DIM,
        general(x),
    ensures
        lie_within(s.put_bounds(x, q), w) ==> q.smin <= w(x.idx() as int) <= q.smax
            && others_in_range(Numeric::Interval(s), x, w),
{
    lemma_replaced(s, x, RegInterval { bounds: q, ..s.reg(x) }, w);
}

proof fn lemma_zone_bounded(
    z: Zone,
    x: Reg,
    y: Reg,
    c: i64,
    lo: i64,
    hi: i64,
    w: spec_fn(int) -> int,
)
    requires
        lean(z),
        general(x),
        moderate(c as int),
        moderate(lo as int),
        moderate(hi as int),
    ensures
        ({
            let d = Numeric::Zone(z);
            let a = w(x.idx() as int);
            &&& describes(z.assume_le_imm(x, c as int), w) ==> a <= c && others_in_range(d, x, w)
            &&& describes(z.assume_ge_imm(x, c as int), w) ==> a >= c && others_in_range(d, x, w)
            &&& describes(z.assume_eq_imm(x, c as int), w) ==> a == c && others_in_range(d, x, w)
            &&& describes(z.assume_lt_imm(x, c as int), w) ==> a < c && others_in_range(d, x, w)
            &&& describes(z.assume_range(x, lo as int, hi as int), w) ==> lo <= a <= hi
                && others_in_range(d, x, w)
        }),
{
    if describes(z.assume_le_imm(x, c as int), w) {
        law_assumptions_are_kept(z, x, c as int, 0, w);
        lemma_zone_others(z, z.assume_le_imm(x, c as int), x, w);
    }
    if describes(z.assume_ge_imm(x, c as int), w) {
        law_assumptions_are_kept(z, x, c as int, 0, w);
        lemma_zone_others(z, z.assume_ge_imm(x, c as int), x, w);
    }
    if describes(z.assume_eq_imm(x, c as int), w) {
        law_assumptions_are_kept(z, x, c as int, 0, w);
        lemma_zone_others(z, z.assume_eq_imm(x, c as int), x, w);
    }
    if describes(z.assume_lt_imm(x, c as int), w) {
        law_assumptions_are_kept(z, x, c as int, 0, w);
        lemma_zone_others(z, z.assume_lt_imm(x, c as int), x, w);
    }
    if describes(z.assume_range(x, lo as int, hi as int), w) {
        law_assumptions_are_kept(z, x, lo as int, hi as int, w);
        lemma_zone_others(z, z.assume_range(x, lo as int, hi as int), x, w);
    }
}

proof fn lemma_zone_compared(z: Zone, x: Reg, y: Reg, c: i64, w: spec_fn(int) -> int)
    requires
        lean(z),
        moderate(c as int),
    ensures
        ({
            let d = Numeric::Zone(z);
            let (a, b) = (w(x.idx() as int), w(y.idx() as int));
            &&& allows(d.assume_le(x, y), w) ==> a <= b
            &&& allows(d.assume_ge(x, y), w) ==> a >= b
            &&& allows(d.assume_gt(x, y), w) ==> a > b
            &&& allows(d.assume_le_offset(x, y, c), w) ==> a <= b + c
        }),
{
    law_comparisons_are_kept(z, x, y, 0, w);
    law_comparisons_are_kept(z, y, x, 0, w);
    law_comparisons_are_kept(z, y, x, -1, w);
    law_comparisons_are_kept(z, x, y, c as int, w);
}

proof fn lemma_two_exact(s: Intervals, x: Reg, y: Reg, w: spec_fn(int) -> int)
    requires
        s.regs.len() == DBM_DIM,
        general(x),
        general(y),
        x != y,
    ensures
        lie_within(s.assume_le(x, y), w) ==> w(x.idx() as int) <= s.reg(y).bounds.smax && w(
            y.idx() as int,
        ) >= s.reg(x).bounds.smin,
        lie_within(s.assume_gt(x, y), w) ==> w(x.idx() as int) >= clip64(s.reg(y).bounds.smin + 1)
            && w(y.idx() as int) <= clip64(s.reg(x).bounds.smax - 1),
{
    law_index_round_trip(x, x.idx());
    law_index_round_trip(y, y.idx());
    let a = s.assume_le(x, y);
    assert(a.regs[x.idx() as int].bounds.smax <= s.reg(y).bounds.smax);
    assert(a.regs[y.idx() as int].bounds.smin >= s.reg(x).bounds.smin);
    let b = s.assume_gt(x, y);
    assert(b.regs[x.idx() as int].bounds.smin >= clip64(s.reg(y).bounds.smin + 1));
    assert(b.regs[y.idx() as int].bounds.smax <= clip64(s.reg(x).bounds.smax - 1));
}

/// After the upper half of a register was cleared, its value is one of 32 bits.
pub proof fn law_cleared_halves_are_small(d: Numeric, x: Reg, w: spec_fn(int) -> int)
    requires
        firm(d),
        general(x),
        allows(d.truncate_w32(x), w),
    ensures
        0 <= w(x.idx() as int) <= 0xFFFF_FFFF,
{
    let (lo, hi) = d.range(x);
    if lo >= 0 && hi <= 0xFFFF_FFFF {
        law_ranges_are_true(d, w, x);
    } else {
        let f = d.forget(x);
        lemma_forget_is_firm(d, x, w);
        let (a, b) = ((lo as u64 & 0xFFFF_FFFF) as i64, (hi as u64 & 0xFFFF_FFFF) as i64);
        let (p, q) = (lo as u64, hi as u64);
        assert((p & 0xFFFF_FFFF) <= 0xFFFF_FFFF && (q & 0xFFFF_FFFF) <= 0xFFFF_FFFF) by (bit_vector);
        if lo != i64::MIN && hi != i64::MAX && (lo as u64) >> 32 == (hi as u64) >> 32 {
            lemma_bounds_stay(f, x, a, b, w);
        } else {
            lemma_bounds_stay(f, x, 0, 0xFFFF_FFFF, w);
        }
    }
}

/// A state that a register was forgotten of still covers all variables.
pub proof fn lemma_forget_is_firm(d: Numeric, x: Reg, w: spec_fn(int) -> int)
    requires
        firm(d),
        general(x),
    ensures
        firm(d.forget(x)),
{
    if let Numeric::Zone(z) = d {
        lemma_forgotten_is_lean(z, x, w);
    }
}

/// Bounds that were assumed of a register hold of its values.
pub proof fn lemma_bounds_stay(d: Numeric, x: Reg, a: i64, b: i64, w: spec_fn(int) -> int)
    requires
        firm(d),
        general(x),
        moderate(a as int),
        moderate(b as int),
        allows(d.assume_ge_imm(x, a).assume_le_imm(x, b), w),
    ensures
        a <= w(x.idx() as int) <= b,
{
    lemma_values_fit(d.assume_ge_imm(x, a).assume_le_imm(x, b), w);
    match d {
        Numeric::Zone(z) => {
            law_assumptions_are_kept(z, x, a as int, b as int, w);
        },
        Numeric::Interval(s) => {
            let t = s.at_least(x, a).at_most(x, b);
            assert(t.regs[x.idx() as int].bounds.smin >= a);
            assert(t.regs[x.idx() as int].bounds.smax <= b);
        },
    }
}

/// A bounded state still covers all variables.
pub proof fn lemma_bounds_are_firm(d: Numeric, x: Reg, c: i64)
    requires
        firm(d),
        general(x),
    ensures
        firm(d.assume_ge_imm(x, c)),
        firm(d.assume_le_imm(x, c)),
{
    if let Numeric::Zone(z) = d {
        lemma_bound_is_lean(z, x, c as int);
    }
}

/// A state of which a register was masked still covers all variables.
pub proof fn lemma_masked_is_firm(d: Numeric, x: Reg, c: i64)
    requires
        firm(d),
        general(x),
    ensures
        firm(d.and_imm(x, c)),
{
    if let Numeric::Zone(z) = d {
        lemma_mask_is_lean(z, x, c as int);
    }
}

/// A number that a pointer is added to becomes a pointer that stands that far
/// from where the pointer stood.
pub proof fn law_numbers_become_pointers(
    d: Numeric,
    dst: Reg,
    ptr: Reg,
    lo: i64,
    hi: i64,
    k: int,
    v: spec_fn(int) -> int,
)
    requires
        d is Interval,
        allows(d, v),
        general(dst),
        1 <= ptr.idx() < 12,
        d->Interval_0.regs[ptr.idx() as int].ptr_offset is Some,
        lo <= k <= hi,
        i64::MIN <= v(ptr.idx() as int) + k <= i64::MAX,
        distances_fit(v, ptr, k),
    ensures
        allows(
            d.scalar_add_ptr(dst, ptr, lo, hi),
            with_value(v, dst.idx() as int, v(ptr.idx() as int) + k),
        ),
{
    let s = d->Interval_0;
    let j = ptr.idx() as int;
    let q = s.regs[j];
    let x = v(j) + k;
    interval_laws::law_unknown_and_constant(0, x as i64);
    let po = q.ptr_offset->Some_0;
    lemma_put(
        s,
        dst,
        RegInterval {
            bounds: ScalarBounds::unknown(),
            ptr_offset: Some(PtrOffset { range: None, ..spread(po, lo, hi) }),
        },
        v,
        x,
    );
}

/// A quotient of two registers may be anything, and forgetting the size of the
/// packet loses nothing.
pub proof fn law_unknown_quotients(d: Numeric, x: Reg, y: Reg, c: i64, v: spec_fn(int) -> int)
    requires
        allows(d, v),
        general(x),
    ensures
        allows(d.div_reg(x, y), with_value(v, x.idx() as int, c as int)),
        allows(d.clear_packet_size_bounds(), v),
        d.clear_packet_size_bounds() matches Numeric::Interval(s) ==> s.packet_lower is None
            && s.packet_upper is None,
{
    law_assignments_are_followed(d, x, x, c, 0, 0, v);
    if let Numeric::Interval(s) = d {
        if let Numeric::Interval(t) = d.clear_packet_size_bounds() {
            assert(t.regs == s.regs);
        }
    }
}

/// At entry the packet's metadata starts no later than the packet, and the
/// packet no later than it ends; nothing else becomes known.
pub proof fn law_packets_have_an_order(d: Numeric, v: spec_fn(int) -> int)
    requires
        d is Zone,
        firm(d),
    ensures
        allows(d, v) && v(12) <= v(13) <= v(14) ==> allows(d.init_packet_anchors(), v),
        allows(d.init_packet_anchors(), v) ==> v(12) <= v(13) <= v(14),
{
    let z = d->Zone_0;
    law_comparisons_are_kept(z, Reg::R0, Reg::R1, 0, v);
    if describes(z, v) && v(12) <= v(13) <= v(14) {
        zone_laws::lemma_add_describes(z, 12, 13, 0, v);
        zone_laws::lemma_add_describes(z.add(12, 13, 0), 13, 14, 0, v);
        zone_laws::lemma_close_describes(z.add(12, 13, 0).add(13, 14, 0), v);
    }
}

/// After the packet moved nothing is known of where it is, but its order.
pub proof fn law_moved_packets_are_anywhere(
    d: Numeric,
    v: spec_fn(int) -> int,
    meta: int,
    start: int,
    end: int,
)
    requires
        d is Zone,
        allows(d, v),
        meta <= start <= end,
    ensures
        allows(
            d.reset_anchors(),
            with_value(with_value(with_value(v, 12, meta), 13, start), 14, end),
        ),
{
    let z = d->Zone_0;
    let w = with_value(with_value(with_value(v, 12, meta), 13, start), 14, end);
    let c = z.clear_anchors();
    assert(c.sized(DBM_DIM as int));
    assert(describes(c, w)) by {
        assert forall|i: int, j: int|
            0 <= i < c.m.len() && 0 <= j < c.m.len() && #[trigger] c.m[i][j] < INF implies w(i) - w(j)
            <= c.m[i][j] by {
            if i < 12 && j < 12 {
                assert(c.m[i][j] == z.m[i][j]);
            }
        }
        assert forall|i: int| 1 <= i < 12 implies zone_laws::in_ranges(#[trigger] c.bounds[i], w(i)) by {
            assert(zone_laws::in_ranges(z.bounds[i], v(i)));
        }
    }
    zone_laws::lemma_add_describes(c, 12, 13, 0, w);
    zone_laws::lemma_add_describes(c.add(12, 13, 0), 13, 14, 0, w);
    zone_laws::lemma_close_describes(c.add(12, 13, 0).add(13, 14, 0), w);
}

/// Where nothing overflows, the range of a result is exactly that of the
/// arithmetic on the ranges; a pointer moves by the constant that is added.
pub proof fn law_intervals_are_computed_exactly(s: Intervals, x: Reg, y: Reg, c: i64)
    requires
        s.regs.len() == DBM_DIM,
        general(x),
        general(y),
        s.reg(x).bounds.smin <= s.reg(x).bounds.smax,
        s.reg(y).bounds.smin <= s.reg(y).bounds.smax,
    ensures
        ({
            let d = Numeric::Interval(s);
            let (lo, hi) = d.range(x);
            let (a, b) = d.range(y);
            &&& i64::MIN <= lo + c && hi + c <= i64::MAX && i64::MIN <= hi + c && lo + c <= i64::MAX
                ==> d.add_imm(x, c).range(x) == ((lo + c) as i64, (hi + c) as i64)
            &&& i64::MIN <= lo + a && hi + b <= i64::MAX && i64::MIN <= hi + b && lo + a <= i64::MAX
                ==> d.add_reg(x, y).range(x) == ((lo + a) as i64, (hi + b) as i64)
            &&& i64::MIN <= lo - b && hi - a <= i64::MAX && i64::MIN <= hi - a && lo - b <= i64::MAX
                ==> d.sub_reg(x, y).range(x) == ((lo - b) as i64, (hi - a) as i64)
            &&& lo > i64::MIN ==> d.neg(x).range(x) == ((-hi) as i64, (-lo) as i64)
            &&& c >= 0 ==> d.and_imm(x, c).range(x) == (0i64, c)
            &&& d.assign_reg(x, y).range(x) == (a, b)
            &&& d.assign_imm(x, c).range(x) == (c, c)
            &&& c > 0 && lo >= 0 ==> d.div_imm(x, c).range(x) == (
                (lo as int / c as int) as i64,
                (hi as int / c as int) as i64,
            )
            &&& d.mul_imm(x, 0).range(x) == (0i64, 0i64)
            &&& d.mul_imm(x, 1).range(x) == (lo, hi)
            &&& c > 1 && i64::MIN <= lo * c <= i64::MAX && i64::MIN <= hi * c <= i64::MAX
                ==> d.mul_imm(x, c).range(x) == ((lo * c) as i64, (hi * c) as i64)
        }),
{
    law_index_round_trip(x, x.idx());
    law_index_round_trip(y, y.idx());
    lemma_bounds_from_64();
}

proof fn lemma_bounds_from_64()
    ensures
        forall|a: i64, b: i64, p: u64, q: u64|
            (#[trigger] from_64(a, b, p, q)).smin == a && from_64(a, b, p, q).smax == b,
{
}

/// A pointer moves by the constant that is added to it, and by all numbers that
/// an added register may have; a difference is no pointer.
pub proof fn law_pointers_move_in_intervals(s: Intervals, x: Reg, y: Reg, c: i64, p: PtrOffset)
    requires
        s.regs.len() == DBM_DIM,
        general(x),
        general(y),
        s.reg(x).ptr_offset == Some(p),
        i64::MIN <= p.off + c <= i64::MAX,
    ensures
        ({
            let d = Numeric::Interval(s);
            let b = s.reg(y).bounds;
            &&& d.add_imm(x, c) matches Numeric::Interval(t) && (t.reg(x).ptr_offset matches Some(q)
                && q.anchor == p.anchor && q.off == p.off + c && q.var_off == p.var_off)
            &&& b.smin <= b.smax && i64::MIN <= p.off + b.smin <= i64::MAX && p.var_off + (b.smax
                - b.smin) <= u64::MAX ==> (d.add_reg(x, y) matches Numeric::Interval(t) && (t.reg(
                x,
            ).ptr_offset matches Some(q) && q.anchor == p.anchor && q.off == p.off + b.smin
                && q.var_off == p.var_off + (b.smax - b.smin)))
            &&& d.sub_reg(x, y) matches Numeric::Interval(t) && t.reg(x).ptr_offset is None
            &&& d.assign_imm(x, c) matches Numeric::Interval(t) && t.reg(x).ptr_offset is None
        }),
{
    law_index_round_trip(x, x.idx());
    law_index_round_trip(y, y.idx());
}

/// What is proven of a register is true of all its values, and what its range
/// shows is proven.
pub proof fn law_proven_facts_are_true(d: Numeric, v: spec_fn(int) -> int, x: Reg)
    requires
        allows(d, v),
        1 <= x.idx() < 12,
    ensures
        d.proven_zero(x) ==> v(x.idx() as int) == 0,
        d.proven_nonnegative(x) ==> v(x.idx() as int) >= 0,
        d.proven_positive(x) ==> v(x.idx() as int) > 0,
        d.proven_u32_range(x) ==> 0 <= v(x.idx() as int) <= 0xFFFF_FFFF,
        d.range(x) == (0i64, 0i64) <==> d.proven_zero(x),
        d.range(x).0 >= 0 <==> d.proven_nonnegative(x),
        d.range(x).0 > 0 <==> d.proven_positive(x),
{
    law_ranges_are_true(d, v, x);
    let i = x.idx() as int;
    match d {
        Numeric::Zone(z) => {
            assert(z.m[i][0] < INF ==> v(i) - v(0) <= z.m[i][0]);
            assert(z.m[0][i] < INF ==> v(0) - v(i) <= z.m[0][i]);
        },
        Numeric::Interval(s) => {
            assert(admits(s.regs[i].bounds, v(i) as i64));
            interval_laws::lemma_unsigned(v(i) as i64);
        },
    }
}

} // verus!
