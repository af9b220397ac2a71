//! What the states of the analysis keep: after each instruction they allow no
//! more than the instruction explains.
use crate::ast::Width;
use crate::compact::alu::{as_wide, bits, computed, ones, swapped, two_to};
use crate::compact::ast::{AluOp, CmpOp, EndianKind, Operand};
use crate::compact::branch::{branched, passed, taken};
use crate::compact::context::ExecContext;
use crate::compact::domain::{
    at_least, at_most, bound_sum, bound_times, bounds_of, equated, exactly, forgotten, multiplied,
    shifted, stated, summed, type_of, Reg, RegType, NUM_VARS,
};
use crate::compact::example;
use crate::compact::memory::after_call;
use crate::compact::soundness::{at, operand_value};
use crate::domains::zone::dbm::{Zone, INF, NEG_BOUND, POS_BOUND};
use crate::domains::zone::laws::{
    law_add_keeps_what_respects_the_bound, law_close_keeps_meaning, models, with_value,
};
use crate::domains::zone::ops::wrapped_neg;
use vstd::prelude::*;

verus! {

/// A zone over the twelve variables whose entries are bounds or say nothing.
pub open spec fn plain(z: Zone) -> bool {
    &&& z.sized(NUM_VARS as int)
    &&& forall|i: int, j: int|
        0 <= i < NUM_VARS && 0 <= j < NUM_VARS ==> #[trigger] z.m[i][j] <= INF
}

/// Numbers far from the bounds that are not kept.
pub open spec fn moderate(x: int) -> bool {
    -0x400_0000_0000_0000 <= x <= 0x400_0000_0000_0000
}

/// All bounds of the zone are such numbers, and none contradicts itself.
pub open spec fn moderate_zone(z: Zone) -> bool {
    &&& !z.inconsistent()
    &&& forall|i: int, j: int|
        0 <= i < NUM_VARS && 0 <= j < NUM_VARS && #[trigger] z.m[i][j] < INF ==> moderate(
            z.m[i][j] as int,
        )
}

/// The values respect what the zone says of all variables but one.
pub open spec fn others_kept(z: Zone, x: Reg, w: spec_fn(int) -> int) -> bool {
    forall|i: int, j: int|
        0 <= i < NUM_VARS && 0 <= j < NUM_VARS && i != x.idx() && j != x.idx() && #[trigger] z.m[i][j]
            < INF ==> w(i) - w(j) <= z.m[i][j]
}

proof fn lemma_closed(z: Zone, w: spec_fn(int) -> int)
    requires
        plain(z),
    ensures
        models(z.close().m, w) ==> models(z.m, w),
        plain(z.close()),
{
    law_close_keeps_meaning(z, NUM_VARS as int, w);
    assert forall|i: int, j: int| 0 <= i < NUM_VARS && 0 <= j < NUM_VARS implies #[trigger] z.close().m[i][j]
        <= INF by {
        assert(z.m[i][j] <= INF);
        assert(z.close().m[i][j] <= z.m[i][j]);
    }
}

proof fn lemma_added(z: Zone, x: Reg, y: Reg, c: int, w: spec_fn(int) -> int)
    requires
        plain(z),
    ensures
        ({
            let r = z.add(x.idx() as int, y.idx() as int, c);
            &&& plain(r)
            &&& models(r.m, w) ==> models(z.m, w)
            &&& models(r.m, w) && moderate(c) ==> at(w, x) - at(w, y) <= c
        }),
{
    let (i, j) = (x.idx() as int, y.idx() as int);
    law_add_keeps_what_respects_the_bound(z, NUM_VARS as int, i, j, c, w);
    let r = z.add(i, j, c);
    assert(z.m[i][j] <= INF);
    assert forall|a: int, b: int| 0 <= a < NUM_VARS && 0 <= b < NUM_VARS implies #[trigger] r.m[a][b]
        <= INF by {
        assert(z.m[a][b] <= INF);
        assert(r.m[a][b] <= z.m[a][b]);
    }
}

proof fn lemma_stated(z: Zone, x: Reg, y: Reg, c: i64, w: spec_fn(int) -> int)
    requires
        plain(z),
    ensures
        plain(stated(z, x, y, c)),
        models(stated(z, x, y, c).m, w) ==> models(z.m, w),
        models(stated(z, x, y, c).m, w) && moderate(c as int) ==> at(w, x) - at(w, y) <= c,
{
    lemma_added(z, x, y, c as int, w);
    lemma_closed(z.add(x.idx() as int, y.idx() as int, c as int), w);
}

proof fn lemma_dropped(z: Zone, x: Reg, w: spec_fn(int) -> int)
    requires
        plain(z),
    ensures
        plain(z.forget(x.idx() as int)),
        models(z.forget(x.idx() as int).m, w) ==> others_kept(z, x, w),
{
    let f = z.forget(x.idx() as int);
    assert forall|i: int, j: int| 0 <= i < NUM_VARS && 0 <= j < NUM_VARS implies #[trigger] f.m[i][j]
        <= INF by {
        assert(z.m[i][j] <= INF);
    }
    if models(f.m, w) {
        assert forall|i: int, j: int|
            0 <= i < NUM_VARS && 0 <= j < NUM_VARS && i != x.idx() && j != x.idx()
                && #[trigger] z.m[i][j] < INF implies w(i) - w(j) <= z.m[i][j] by {
            assert(f.m[i][j] == z.m[i][j]);
        }
    }
}

proof fn lemma_forgotten(z: Zone, x: Reg, w: spec_fn(int) -> int)
    requires
        plain(z),
    ensures
        plain(forgotten(z, x)),
        models(forgotten(z, x).m, w) ==> others_kept(z, x, w),
{
    lemma_dropped(z, x, w);
    lemma_closed(z.forget(x.idx() as int), w);
}

proof fn lemma_between(z: Zone, x: Reg, lo: Option<i64>, hi: Option<i64>, w: spec_fn(int) -> int)
    requires
        plain(z),
        w(0) == 0,
    ensures
        ({
            let a = at_least(z, x, Reg::Zero, lo);
            let b = at_most(a, x, Reg::Zero, hi);
            &&& plain(b)
            &&& models(b.m, w) ==> models(z.m, w)
            &&& models(b.m, w) ==> (lo matches Some(l) ==> (moderate(l as int) ==> l <= at(w, x)))
            &&& models(b.m, w) ==> (hi matches Some(h) ==> (moderate(h as int) ==> at(w, x) <= h))
        }),
{
    let a = at_least(z, x, Reg::Zero, lo);
    if let Some(l) = lo {
        lemma_stated(z, Reg::Zero, x, wrapped_neg(l), w);
    }
    if let Some(h) = hi {
        lemma_stated(a, x, Reg::Zero, h, w);
    }
}

proof fn lemma_exactly(z: Zone, x: Reg, c: i64, w: spec_fn(int) -> int)
    requires
        plain(z),
        w(0) == 0,
        models(exactly(z, x, Reg::Zero, c).m, w),
        moderate(c as int),
    ensures
        models(z.m, w),
        at(w, x) == c,
{
    lemma_added(z, x, Reg::Zero, c as int, w);
    let a = z.add(x.idx() as int, 0, c as int);
    lemma_added(a, Reg::Zero, x, wrapped_neg(c) as int, w);
    lemma_closed(a.add(0, x.idx() as int, wrapped_neg(c) as int), w);
}

proof fn lemma_equated(z: Zone, x: Reg, y: Reg, w: spec_fn(int) -> int)
    requires
        plain(z),
        models(equated(z, x, y).m, w),
    ensures
        at(w, x) == at(w, y),
        others_kept(z, x, w),
        x == y ==> models(z.m, w),
{
    if x != y {
        let f = z.forget(x.idx() as int);
        lemma_dropped(z, x, w);
        lemma_added(f, x, y, 0, w);
        let a = f.add(x.idx() as int, y.idx() as int, 0);
        lemma_added(a, y, x, 0, w);
        lemma_closed(a.add(y.idx() as int, x.idx() as int, 0), w);
    }
}

/// A constant as an instruction of a width sees it.
pub open spec fn seen_as(width: Width, c: i64) -> int {
    if width is W64 { c as int } else { c as int % 0x1_0000_0000 }
}

/// After arithmetic, values that the state allows are explained by it: what was
/// known of the other registers still is, a move of a constant leaves that
/// constant, a move of a register leaves both equal, masks, shifts and
/// remainders leave a number in their range, and a sum with a constant only
/// shifts what was known.
pub proof fn law_arithmetic_is_kept(
    ctx: &ExecContext,
    z: Zone,
    width: Width,
    op: AluOp,
    dst: Reg,
    src: Operand,
    w: spec_fn(int) -> int,
)
    requires
        ctx.zero is Zero,
        plain(z),
        !(dst is Zero),
        w(0) == 0,
        models(computed(ctx, z, width, op, dst, src).m, w),
    ensures
        moderate_zone(z) && (src matches Operand::Imm(c) ==> moderate(c as int)) ==> others_kept(
            z,
            dst,
            w,
        ),
        match (op, src) {
            (AluOp::Mov, Operand::Imm(c)) => moderate(seen_as(width, c)) ==> at(w, dst) == seen_as(
                width,
                c,
            ),
            (AluOp::Mov, Operand::Reg(r)) => if width is W32 {
                0 <= at(w, dst) < 0x1_0000_0000
            } else if r == ctx.r10 {
                at(w, dst) == 0
            } else {
                at(w, dst) == at(w, r)
            },
            (AluOp::Or, _) => width is W32 ==> 0 <= at(w, dst) < 0x1_0000_0000,
            (AluOp::And, Operand::Imm(c)) => 0 <= at(w, dst) && (moderate(seen_as(width, c)) ==> at(
                w,
                dst,
            ) <= seen_as(width, c)),
            (AluOp::Mod, Operand::Imm(c)) => c > 0 ==> 0 <= at(w, dst) && (moderate(c as int) ==> at(
                w,
                dst,
            ) < c),
            (AluOp::Shr, Operand::Imm(k)) => {
                &&& 0 <= at(w, dst)
                &&& width is W32 && 0 <= k < 32 ==> at(w, dst) < two_to((32 - k) as nat)
                &&& width is W64 && 8 <= k < 64 ==> at(w, dst) < two_to((64 - k) as nat)
                &&& 64 <= k <= 0xffff_ffff ==> at(w, dst) == 0
            },
            (AluOp::Add, Operand::Reg(r)) => moderate_zone(z) ==> {
                let (d, s) = (dst.idx() as int, r.idx() as int);
                &&& z.m[d][0] < INF && z.m[s][0] < INF ==> at(w, dst) <= z.m[d][0] + z.m[s][0]
                &&& z.m[0][d] < INF && z.m[0][s] < INF ==> -at(w, dst) <= z.m[0][d] + z.m[0][s]
            },
            (AluOp::Mul, Operand::Imm(c)) => {
                let d = dst.idx() as int;
                &&& c == 0 ==> at(w, dst) == 0
                &&& c == 1 ==> models(z.m, w)
                &&& c > 0 && z.m[d][0] < INF && moderate(z.m[d][0] * c) ==> at(w, dst) <= z.m[d][0]
                    * c
                &&& c > 0 && z.m[0][d] < INF && moderate(z.m[0][d] * c) ==> -at(w, dst)
                    <= z.m[0][d] * c
            },
            (AluOp::Add, Operand::Imm(c)) => moderate_zone(z) && moderate(c as int) ==> models(
                z.m,
                with_value(w, dst.idx() as int, at(w, dst) - c),
            ),
            (AluOp::Sub, Operand::Imm(c)) => moderate_zone(z) && moderate(c as int) ==> models(
                z.m,
                with_value(w, dst.idx() as int, at(w, dst) + c),
            ),
            _ => true,
        },
{
    lemma_forgotten(z, dst, w);
    let f = forgotten(z, dst);
    if let Operand::Imm(c) = src {
        lemma_seen_as(c);
    }
    match (op, src) {
        (AluOp::Mov, Operand::Imm(c)) => {
            let k = as_wide(width, c);
            let a = at_most(f, dst, Reg::Zero, Some(k));
            lemma_stated(f, dst, Reg::Zero, k, w);
            lemma_stated(a, Reg::Zero, dst, wrapped_neg(k), w);
        },
        (AluOp::Mov, Operand::Reg(r)) => {
            if width is W32 {
                lemma_between(f, dst, Some(0), Some(0xffff_ffff), w);
            } else if r == ctx.r10 {
                lemma_equated(z, dst, Reg::Zero, w);
            } else {
                lemma_equated(z, dst, r, w);
            }
        },
        (AluOp::Or, _) => {
            if width is W32 {
                lemma_between(f, dst, Some(0), Some(0xffff_ffff), w);
            }
        },
        (AluOp::And, Operand::Imm(c)) => {
            let m = as_wide(width, c);
            let g = z.forget(dst.idx() as int);
            lemma_dropped(z, dst, w);
            lemma_added(g, dst, Reg::Zero, m as int, w);
            let a = g.add(dst.idx() as int, 0, m as int);
            lemma_added(a, Reg::Zero, dst, 0, w);
            lemma_closed(a.add(0, dst.idx() as int, 0), w);
        },
        (AluOp::Mod, Operand::Imm(c)) => {
            if c > 0 {
                lemma_between(f, dst, Some(0), Some((c - 1) as i64), w);
            }
        },
        (AluOp::Shr, Operand::Imm(k)) => {
            let a = at_least(f, dst, Reg::Zero, Some(0));
            lemma_stated(f, Reg::Zero, dst, wrapped_neg(0), w);
            lemma_small_powers();
            if (k as u32) < bits(width) {
                lemma_powers_grow((bits(width) - (k as u32)) as nat, 63);
                lemma_powers_grow((bits(width) - (k as u32)) as nat, 56);
                lemma_stated(a, dst, Reg::Zero, ones((bits(width) - (k as u32)) as u32), w);
            } else {
                lemma_exactly(a, dst, 0, w);
            }
        },
        (AluOp::Add, Operand::Imm(c)) => {
            if moderate_zone(z) && moderate(c as int) {
                lemma_shifted(z, dst, c, w);
            }
        },
        (AluOp::Sub, Operand::Imm(c)) => {
            if moderate_zone(z) && moderate(c as int) {
                lemma_shifted(z, dst, wrapped_neg(c), w);
            }
        },
        (AluOp::Add, Operand::Reg(r)) => {
            lemma_summed(z, dst, r, w);
        },
        (AluOp::Mul, Operand::Imm(c)) => {
            lemma_multiplied(z, dst, c, w);
        },
        _ => {},
    }
}

proof fn lemma_seen_as(c: i64)
    ensures
        (c as u32) as int == c as int % 0x1_0000_0000,
{
    assert(c as u32 == (c as u64) % 0x1_0000_0000) by (bit_vector);
    assert(c < 0 ==> c as u64 == c + 0x1_0000_0000_0000_0000) by (bit_vector);
}

proof fn lemma_small_powers()
    ensures
        two_to(56) == 0x100_0000_0000_0000,
        two_to(63) == 0x8000_0000_0000_0000,
{
    reveal_with_fuel(two_to, 64);
}

proof fn lemma_powers_grow(a: nat, b: nat)
    ensures
        two_to(a) >= 1,
        a <= b ==> two_to(a) <= two_to(b),
    decreases a + b,
{
    if a > 0 {
        lemma_powers_grow((a - 1) as nat, 0);
    }
    if a < b {
        lemma_powers_grow(a, (b - 1) as nat);
    }
}

proof fn lemma_summed(z: Zone, dst: Reg, src: Reg, w: spec_fn(int) -> int)
    requires
        plain(z),
        w(0) == 0,
        models(summed(z, dst, src, Reg::Zero).m, w),
    ensures
        others_kept(z, dst, w),
        moderate_zone(z) ==> {
            let (d, s) = (dst.idx() as int, src.idx() as int);
            &&& z.m[d][0] < INF && z.m[s][0] < INF ==> at(w, dst) <= z.m[d][0] + z.m[s][0]
            &&& z.m[0][d] < INF && z.m[0][s] < INF ==> -at(w, dst) <= z.m[0][d] + z.m[0][s]
        },
{
    let (ld, ud) = bounds_of(z, dst, Reg::Zero);
    let (ls, us) = bounds_of(z, src, Reg::Zero);
    let f = z.forget(dst.idx() as int);
    lemma_dropped(z, dst, w);
    let a = at_least(f, dst, Reg::Zero, bound_sum(ld, ls));
    if let Some(l) = bound_sum(ld, ls) {
        lemma_wide(f, Reg::Zero, dst, wrapped_neg(l), w);
    }
    let b = at_most(a, dst, Reg::Zero, bound_sum(ud, us));
    if let Some(h) = bound_sum(ud, us) {
        lemma_wide(a, dst, Reg::Zero, h, w);
    }
    lemma_closed(b, w);
    let (d, s) = (dst.idx() as int, src.idx() as int);
    if moderate_zone(z) {
        assert(z.m[d][0] < INF ==> moderate(z.m[d][0] as int));
        assert(z.m[s][0] < INF ==> moderate(z.m[s][0] as int));
        assert(z.m[0][d] < INF ==> moderate(z.m[0][d] as int));
        assert(z.m[0][s] < INF ==> moderate(z.m[0][s] as int));
    }
}

proof fn lemma_wide(z: Zone, x: Reg, y: Reg, c: i64, w: spec_fn(int) -> int)
    requires
        plain(z),
    ensures
        plain(stated(z, x, y, c)),
        models(stated(z, x, y, c).m, w) ==> models(z.m, w),
        models(stated(z, x, y, c).m, w) && NEG_BOUND <= c <= POS_BOUND ==> at(w, x) - at(w, y) <= c,
{
    let (i, j) = (x.idx() as int, y.idx() as int);
    lemma_stated(z, x, y, c, w);
    assert(z.m[i][j] <= INF);
    law_add_keeps_what_respects_the_bound(z, NUM_VARS as int, i, j, c as int, w);
    lemma_added(z, x, y, c as int, w);
    lemma_closed(z.add(i, j, c as int), w);
}

proof fn lemma_multiplied(z: Zone, dst: Reg, c: i64, w: spec_fn(int) -> int)
    requires
        plain(z),
        w(0) == 0,
        !(dst is Zero),
        models(multiplied(z, dst, c, Reg::Zero).m, w),
    ensures
        others_kept(z, dst, w),
        ({
            let d = dst.idx() as int;
            &&& c == 0 ==> at(w, dst) == 0
            &&& c == 1 ==> models(z.m, w)
            &&& c > 0 && z.m[d][0] < INF && moderate(z.m[d][0] * c) ==> at(w, dst) <= z.m[d][0] * c
            &&& c > 0 && z.m[0][d] < INF && moderate(z.m[0][d] * c) ==> -at(w, dst) <= z.m[0][d] * c
        }),
{
    let d = dst.idx() as int;
    lemma_forgotten(z, dst, w);
    if c == 0 {
        lemma_equated(z, dst, Reg::Zero, w);
    } else if c == 1 {
        assert(z.m[d][0] < INF ==> w(d) - w(0) <= z.m[d][0]);
        assert(z.m[0][d] < INF ==> w(0) - w(d) <= z.m[0][d]);
    } else if c > 1 {
        let (lo, hi) = bounds_of(z, dst, Reg::Zero);
        let f = z.forget(d);
        lemma_dropped(z, dst, w);
        let (l2, h2) = (bound_times(lo, c), bound_times(hi, c));
        lemma_between(f, dst, l2, h2, w);
        lemma_closed(at_most(at_least(f, dst, Reg::Zero, l2), dst, Reg::Zero, h2), w);
        if z.m[0][d] < INF && moderate(z.m[0][d] * c) {
            let e = z.m[0][d] as int;
            assert(moderate(e)) by (nonlinear_arith)
                requires
                    -0x400_0000_0000_0000 <= e * c <= 0x400_0000_0000_0000,
                    c > 1,
            ;
            assert((-e) * c == -(e * c)) by (nonlinear_arith);
        }
    }
}

proof fn lemma_shifted(z: Zone, x: Reg, c: i64, w: spec_fn(int) -> int)
    requires
        plain(z),
        models(shifted(z, x, c).m, w),
        moderate_zone(z),
        moderate(c as int),
    ensures
        models(z.m, with_value(w, x.idx() as int, at(w, x) - c)),
        others_kept(z, x, w),
{
    let i = x.idx() as int;
    let s = Zone { m: z.shift(i, c as int), ..z };
    assert(s.sized(NUM_VARS as int));
    law_close_keeps_meaning(s, NUM_VARS as int, w);
    let u = with_value(w, x.idx() as int, at(w, x) - c);
    assert forall|a: int, b: int|
        0 <= a < z.m.len() && 0 <= b < z.m.len() && #[trigger] z.m[a][b] < INF implies u(a) - u(b)
        <= z.m[a][b] by {
        assert(moderate(z.m[a][b] as int));
        assert(s.m[a][b] < INF);
        assert(z.m[a][a] >= 0);
        assert(w(a) - w(b) <= s.m[a][b]);
    }
    assert forall|a: int, b: int|
        0 <= a < NUM_VARS && 0 <= b < NUM_VARS && a != i && b != i && #[trigger] z.m[a][b]
            < INF implies w(a) - w(b) <= z.m[a][b] by {
        assert(u(a) - u(b) <= z.m[a][b]);
    }
}

/// On each side of a jump, values that the state allows were allowed before and
/// compare as the side says, unless the comparison is with a register or a
/// constant for equality. Comparisons are of signed numbers here; those of
/// numbers that are not negative are the same.
pub proof fn law_branches_are_kept(
    z: Zone,
    left: Reg,
    op: CmpOp,
    right: Operand,
    w: spec_fn(int) -> int,
)
    requires
        plain(z),
        w(0) == 0,
        right matches Operand::Imm(c) ==> moderate(c - 1) && moderate(c + 1),
    ensures
        ({
            let (a, b) = (at(w, left), operand_value(w, right));
            &&& models(taken(z, left, op, right, Reg::Zero).m, w) ==> models(z.m, w) && match op {
                CmpOp::UGe => a >= b,
                CmpOp::ULe => a <= b,
                CmpOp::UGt => a > b,
                CmpOp::ULt => a < b,
                _ => true,
            }
            &&& models(passed(z, left, op, right, Reg::Zero).m, w) ==> models(z.m, w) && match op {
                CmpOp::UGe => a < b,
                CmpOp::ULe => a > b,
                CmpOp::UGt => a <= b,
                CmpOp::ULt => a >= b,
                CmpOp::Ne => right is Imm ==> a == b,
                CmpOp::Eq => true,
            }
        }),
{
    match right {
        Operand::Imm(c) => {
            let (c0, c1, c2) = ((c - 1) as i64, c, (c + 1) as i64);
            lemma_stated(z, left, Reg::Zero, c0, w);
            lemma_stated(z, left, Reg::Zero, c1, w);
            lemma_stated(z, Reg::Zero, left, wrapped_neg(c1), w);
            lemma_stated(z, Reg::Zero, left, wrapped_neg(c2), w);
            if op is Ne && models(passed(z, left, op, right, Reg::Zero).m, w) {
                lemma_exactly(z, left, c, w);
            }
        },
        Operand::Reg(r) => {
            lemma_stated(z, left, r, 0, w);
            lemma_stated(z, left, r, (-1) as i64, w);
            lemma_stated(z, r, left, 0, w);
            lemma_stated(z, r, left, (-1) as i64, w);
        },
    }
}

/// A jump that compares whole registers leads, where it leads to its target, to
/// values of which the condition holds, and elsewhere to values of which it
/// does not. A packet pointer that is found not to be behind the packet's end
/// learns how many bytes are left.
pub proof fn law_sides_of_a_jump_are_told_apart(
    ctx: &ExecContext,
    z: Zone,
    pc: usize,
    left: Reg,
    op: CmpOp,
    right: Operand,
    target: usize,
    types: Seq<RegType>,
    k: int,
    w: spec_fn(int) -> int,
)
    requires
        ctx.zero is Zero,
        plain(z),
        w(0) == 0,
        pc < usize::MAX,
        target != pc + 1,
        right matches Operand::Imm(c) ==> moderate(c - 1) && moderate(c + 1),
        0 <= k < branched(ctx, z, pc, Width::W64, left, op, right, target, types).len(),
        models(
            branched(ctx, z, pc, Width::W64, left, op, right, target, types)[k].zone.m,
            w,
        ),
    ensures
        ({
            let n = branched(ctx, z, pc, Width::W64, left, op, right, target, types)[k];
            let (a, b) = (at(w, left), operand_value(w, right));
            &&& n.pc == target || n.pc == pc + 1
            &&& n.pc == target ==> match op {
                CmpOp::UGe => a >= b,
                CmpOp::ULe => a <= b,
                CmpOp::UGt => a > b,
                CmpOp::ULt => a < b,
                _ => true,
            }
            &&& n.pc != target ==> n.types == types && match op {
                CmpOp::UGe => a < b,
                CmpOp::ULe => a > b,
                CmpOp::UGt => a <= b,
                CmpOp::ULt => a >= b,
                _ => true,
            }
            &&& n.pc == target && op is ULe && types.len() == 11 ==> match (right, type_of(types, left)) {
                (Operand::Reg(e), RegType::PtrToPacket { id, .. }) => type_of(
                    types,
                    e,
                ) is PtrToPacketEnd ==> (type_of(n.types, left) matches RegType::PtrToPacket {
                    id: i,
                    range,
                } && i == id && (n.zone.m[left.idx() as int][e.idx() as int] <= 0 ==> range
                    >= -n.zone.m[left.idx() as int][e.idx() as int])),
                _ => true,
            }
        }),
{
    law_branches_are_kept(z, left, op, right, w);
}

/// A byte order conversion and a call leave what was known of the registers
/// that they do not write; a conversion of some bytes leaves a number of as
/// many.
pub proof fn law_unwritten_registers_are_kept(
    z: Zone,
    dst: Reg,
    kind: EndianKind,
    w: spec_fn(int) -> int,
)
    requires
        plain(z),
        w(0) == 0,
        !(dst is Zero),
    ensures
        models(swapped(z, dst, Reg::Zero, kind).m, w) ==> others_kept(z, dst, w) && match kind {
            EndianKind::Be16 => 0 <= at(w, dst) < 0x1_0000,
            EndianKind::Be32 => 0 <= at(w, dst) < 0x1_0000_0000,
            EndianKind::Be64 => true,
        },
        models(after_call(z).m, w) ==> forall|i: int, j: int|
            (i == 0 || 7 <= i < NUM_VARS) && (j == 0 || 7 <= j < NUM_VARS) && #[trigger] z.m[i][j]
                < INF ==> w(i) - w(j) <= z.m[i][j],
{
    let f = forgotten(z, dst);
    lemma_forgotten(z, dst, w);
    lemma_between(f, dst, Some(0), Some(0xffff), w);
    lemma_between(f, dst, Some(0), Some(0xffff_ffff), w);
    let z1 = forgotten(z, Reg::R1);
    let z2 = forgotten(z1, Reg::R2);
    let z3 = forgotten(z2, Reg::R3);
    let z4 = forgotten(z3, Reg::R4);
    let z5 = forgotten(z4, Reg::R5);
    lemma_tight(z, Reg::R1);
    lemma_tight(z1, Reg::R2);
    lemma_tight(z2, Reg::R3);
    lemma_tight(z3, Reg::R4);
    lemma_tight(z4, Reg::R5);
    lemma_tight(z5, Reg::R0);
    if models(after_call(z).m, w) {
        assert forall|i: int, j: int|
            (i == 0 || 7 <= i < NUM_VARS) && (j == 0 || 7 <= j < NUM_VARS) && #[trigger] z.m[i][j]
                < INF implies w(i) - w(j) <= z.m[i][j] by {
            assert(z1.m[i][j] <= z.m[i][j]);
            assert(z2.m[i][j] <= z1.m[i][j]);
            assert(z3.m[i][j] <= z2.m[i][j]);
            assert(z4.m[i][j] <= z3.m[i][j]);
            assert(z5.m[i][j] <= z4.m[i][j]);
            assert(after_call(z).m[i][j] <= z5.m[i][j]);
        }
    }
}

proof fn lemma_tight(z: Zone, x: Reg)
    requires
        plain(z),
    ensures
        plain(forgotten(z, x)),
        forall|i: int, j: int|
            0 <= i < NUM_VARS && 0 <= j < NUM_VARS && i != x.idx() && j != x.idx()
                ==> #[trigger] forgotten(z, x).m[i][j] <= z.m[i][j],
{
    let f = z.forget(x.idx() as int);
    lemma_forgotten(z, x, |i: int| 0);
    lemma_dropped(z, x, |i: int| 0);
    law_close_keeps_meaning(f, NUM_VARS as int, |i: int| 0);
    assert forall|i: int, j: int|
        0 <= i < NUM_VARS && 0 <= j < NUM_VARS && i != x.idx() && j
            != x.idx() implies #[trigger] forgotten(z, x).m[i][j] <= z.m[i][j] by {
        assert(f.close().m[i][j] <= f.m[i][j]);
    }
}

/// After each step of an example the values are those that the step explains:
/// what was assigned has its value, what was assumed holds.
pub proof fn law_examples_are_followed(z: Zone, i: example::Instr, w: spec_fn(int) -> int)
    requires
        plain(z),
        w(0) == 0,
        models(example::applied(z, i).m, w),
    ensures
        match i {
            example::Instr::AssignZero { x } => !(x is Zero) ==> at(w, x) == 0,
            example::Instr::AssignEq { x, y } => at(w, x) == at(w, y),
            example::Instr::AssignAddConst { x, y, c } => moderate(c as int) ==> if x != y {
                at(w, x) == at(w, y) + c && others_kept(z, x, w)
            } else {
                moderate_zone(z) ==> models(
                    z.m,
                    with_value(w, x.idx() as int, at(w, x) - c),
                )
            },
            example::Instr::AssumeLessThan { x, c } => models(z.m, w) && (moderate(c as int)
                ==> at(w, x) < c),
        },
{
    match i {
        example::Instr::AssignZero { x } => {
            lemma_equated(z, x, Reg::Zero, w);
        },
        example::Instr::AssignEq { x, y } => {
            lemma_equated(z, x, y, w);
        },
        example::Instr::AssignAddConst { x, y, c } => {
            if x == y {
                if moderate_zone(z) && moderate(c as int) {
                    lemma_shifted(z, x, c, w);
                }
            } else {
                let f = z.forget(x.idx() as int);
                lemma_dropped(z, x, w);
                lemma_added(f, x, y, c as int, w);
                let a = f.add(x.idx() as int, y.idx() as int, c as int);
                lemma_added(a, y, x, wrapped_neg(c) as int, w);
                lemma_closed(a.add(y.idx() as int, x.idx() as int, wrapped_neg(c) as int), w);
            }
        },
        example::Instr::AssumeLessThan { x, c } => {
            lemma_stated(z, x, Reg::Zero, crate::num::wadd(c, (-1) as i64), w);
            lemma_added(z, x, Reg::Zero, crate::num::wadd(c, (-1) as i64) as int, w);
            if moderate(c as int) {
                law_add_keeps_what_respects_the_bound(
                    z,
                    NUM_VARS as int,
                    x.idx() as int,
                    0,
                    c - 1,
                    w,
                );
                law_close_keeps_meaning(z.add(x.idx() as int, 0, c - 1), NUM_VARS as int, w);
                assert(z.m[x.idx() as int][0] <= INF);
            }
        },
    }
}

} // verus!
