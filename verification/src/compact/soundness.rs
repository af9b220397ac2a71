//! What the analysis means: the states it computes allow every run of the
//! program.
//!
//! Values are signed 64-bit numbers; a pointer to the stack is its distance from
//! the frame pointer. A step leaves out what the analysis does not model: sums,
//! differences and products that wrap, masks that are negative, comparisons of
//! negative numbers, a shift of a whole register by nothing, and the least
//! number as a constant.
use crate::ast::{MemSize, Width};
use crate::compact::alu::{
    as_wide, bits, computed, ones, shifted_right, stepped, swapped, two_to, within,
};
use crate::compact::analyze::{
    accounted, covered, law_finished_analyses_are_inductive, law_finished_analyses_find_everything,
    reaches, run, start,
};
use crate::compact::ast::{AluOp, CmpOp, EndianKind, Instr, Operand};
use crate::compact::branch::{branched, informative, passed, reaching, taken};
use crate::compact::context::{AnalysisStats, ExecContext};
use crate::compact::domain::{
    at_least, at_most, below, bound_sum, bound_times, bounds_of, equated, exactly, forgotten, masked,
    multiplied, no_types, shifted, stated, summed, type_of, Reg, RegType, NUM_VARS,
};
use crate::compact::exec::edges;
use crate::compact::memory::{access_size, after_call, end_reg, in_packet, in_stack};
use crate::domains::zone::dbm::{Zone, INF};
use crate::domains::zone::laws::{
    as_u32, as_u64, law_add_keeps_what_respects_the_bound, law_close_keeps_meaning,
    law_forget_allows_every_value, law_inconsistent_allows_nothing, models, with_value,
};
use crate::domains::zone::ops::wrapped_neg;
use crate::num::wadd;
use vstd::prelude::*;

verus! {

/// The zone is over the twelve variables and allows the values.
pub open spec fn good(z: Zone, v: spec_fn(int) -> int) -> bool {
    z.sized(NUM_VARS as int) && models(z.m, v)
}

/// Values of the variables: zero is zero, the frame pointer is where it was,
/// and all are 64-bit numbers.
pub open spec fn values(ctx: &ExecContext, v: spec_fn(int) -> int) -> bool {
    &&& v(0) == 0
    &&& v(ctx.r10.idx() as int) == 0
    &&& forall|i: int| 0 <= i < NUM_VARS ==> i64::MIN <= #[trigger] v(i) <= i64::MAX
}

/// The value of a variable.
pub open spec fn at(v: spec_fn(int) -> int, r: Reg) -> int {
    v(r.idx() as int)
}

/// A register that a program can write.
pub open spec fn writable(ctx: &ExecContext, r: Reg) -> bool {
    !(r is Zero) && r != ctx.r10
}

/// The values with that of a register replaced.
pub open spec fn set(v: spec_fn(int) -> int, r: Reg, x: int) -> spec_fn(int) -> int {
    with_value(v, r.idx() as int, x)
}

// ---- the operations of the domain -------------------------------------------

proof fn lemma_stated(z: Zone, x: Reg, y: Reg, c: i64, v: spec_fn(int) -> int)
    requires
        good(z, v),
        at(v, x) - at(v, y) <= c,
    ensures
        good(stated(z, x, y, c), v),
{
    let n = NUM_VARS as int;
    let a = z.add(x.idx() as int, y.idx() as int, c as int);
    law_add_keeps_what_respects_the_bound(z, n, x.idx() as int, y.idx() as int, c as int, v);
    law_close_keeps_meaning(a, n, v);
}

proof fn lemma_added(z: Zone, x: Reg, y: Reg, c: i64, v: spec_fn(int) -> int)
    requires
        good(z, v),
        at(v, x) - at(v, y) <= c,
    ensures
        good(z.add(x.idx() as int, y.idx() as int, c as int), v),
{
    law_add_keeps_what_respects_the_bound(
        z,
        NUM_VARS as int,
        x.idx() as int,
        y.idx() as int,
        c as int,
        v,
    );
}

proof fn lemma_closed(z: Zone, v: spec_fn(int) -> int)
    requires
        good(z, v),
    ensures
        good(z.close(), v),
{
    law_close_keeps_meaning(z, NUM_VARS as int, v);
}

proof fn lemma_dropped(z: Zone, x: Reg, c: int, v: spec_fn(int) -> int)
    requires
        good(z, v),
    ensures
        good(z.forget(x.idx() as int), set(v, x, c)),
{
    law_forget_allows_every_value(z, NUM_VARS as int, x.idx() as int, c, v);
}

proof fn lemma_forgotten(z: Zone, x: Reg, c: int, v: spec_fn(int) -> int)
    requires
        good(z, v),
    ensures
        good(forgotten(z, x), set(v, x, c)),
{
    lemma_dropped(z, x, c, v);
    lemma_closed(z.forget(x.idx() as int), set(v, x, c));
}

proof fn lemma_at_most(z: Zone, x: Reg, c: Option<i64>, v: spec_fn(int) -> int)
    requires
        good(z, v),
        v(0) == 0,
        c matches Some(k) ==> at(v, x) <= k,
    ensures
        good(at_most(z, x, Reg::Zero, c), v),
{
    if let Some(k) = c {
        lemma_stated(z, x, Reg::Zero, k, v);
    }
}

proof fn lemma_at_least(z: Zone, x: Reg, c: Option<i64>, v: spec_fn(int) -> int)
    requires
        good(z, v),
        v(0) == 0,
        c matches Some(k) ==> i64::MIN < k <= at(v, x),
    ensures
        good(at_least(z, x, Reg::Zero, c), v),
{
    if let Some(k) = c {
        lemma_stated(z, Reg::Zero, x, wrapped_neg(k), v);
    }
}

proof fn lemma_within(z: Zone, dst: Reg, lo: i64, hi: i64, x: int, v: spec_fn(int) -> int)
    requires
        good(z, v),
        v(0) == 0,
        !(dst is Zero),
        i64::MIN < lo <= x <= hi,
    ensures
        good(within(z, dst, Reg::Zero, lo, hi), set(v, dst, x)),
{
    let w = set(v, dst, x);
    lemma_forgotten(z, dst, x, v);
    let a = forgotten(z, dst);
    lemma_at_least(a, dst, Some(lo), w);
    lemma_at_most(at_least(a, dst, Reg::Zero, Some(lo)), dst, Some(hi), w);
}

proof fn lemma_equated(z: Zone, x: Reg, y: Reg, v: spec_fn(int) -> int)
    requires
        good(z, v),
    ensures
        good(equated(z, x, y), set(v, x, at(v, y))),
{
    let w = set(v, x, at(v, y));
    if x == y {
        assert(w =~= v);
    } else {
        lemma_dropped(z, x, at(v, y), v);
        let a = z.forget(x.idx() as int);
        lemma_added(a, x, y, 0, w);
        let b = a.add(x.idx() as int, y.idx() as int, 0);
        lemma_added(b, y, x, 0, w);
        lemma_closed(b.add(y.idx() as int, x.idx() as int, 0), w);
    }
}

proof fn lemma_exactly(z: Zone, x: Reg, c: i64, v: spec_fn(int) -> int)
    requires
        good(z, v),
        v(0) == 0,
        c > i64::MIN,
        at(v, x) == c,
    ensures
        good(exactly(z, x, Reg::Zero, c), v),
{
    lemma_added(z, x, Reg::Zero, c, v);
    let a = z.add(x.idx() as int, 0, c as int);
    lemma_added(a, Reg::Zero, x, wrapped_neg(c), v);
    lemma_closed(a.add(0, x.idx() as int, wrapped_neg(c) as int), v);
}

proof fn lemma_shifted(z: Zone, x: Reg, c: i64, v: spec_fn(int) -> int)
    requires
        good(z, v),
        forall|i: int| 0 <= i < NUM_VARS ==> i64::MIN <= #[trigger] v(i) <= i64::MAX,
        i64::MIN <= at(v, x) + c <= i64::MAX,
    ensures
        good(shifted(z, x, c), set(v, x, at(v, x) + c)),
{
    let i = x.idx() as int;
    let w = set(v, x, at(v, x) + c);
    let a = Zone { m: z.shift(i, c as int), ..z };
    assert(a.sized(NUM_VARS as int));
    assert forall|p: int, q: int|
        0 <= p < a.m.len() && 0 <= q < a.m.len() && #[trigger] a.m[p][q] < INF implies w(p) - w(q)
        <= a.m[p][q] by {
        assert(z.m[p][q] < INF ==> v(p) - v(q) <= z.m[p][q]);
    }
    lemma_closed(a, w);
}

/// What the bounds of a register say of its value.
proof fn lemma_bounds(z: Zone, x: Reg, y: Reg, v: spec_fn(int) -> int)
    requires
        good(z, v),
    ensures
        bounds_of(z, x, y).1 matches Some(u) ==> at(v, x) - at(v, y) <= u < INF,
        bounds_of(z, x, y).0 matches Some(l) ==> {
            &&& z.m[y.idx() as int][x.idx() as int] > i64::MIN ==> -INF < l <= at(v, x) - at(v, y)
            &&& z.m[y.idx() as int][x.idx() as int] == i64::MIN ==> at(v, x) - at(v, y)
                >= 0x8000_0000_0000_0000
        },
{
    let (i, j) = (x.idx() as int, y.idx() as int);
    assert(z.m[i][j] < INF ==> v(i) - v(j) <= z.m[i][j]);
    assert(z.m[j][i] < INF ==> v(j) - v(i) <= z.m[j][i]);
}

proof fn lemma_summed(z: Zone, dst: Reg, src: Reg, v: spec_fn(int) -> int)
    requires
        good(z, v),
        v(0) == 0,
        !(dst is Zero),
        forall|i: int| 0 <= i < NUM_VARS ==> i64::MIN <= #[trigger] v(i) <= i64::MAX,
        i64::MIN <= at(v, dst) + at(v, src) <= i64::MAX,
    ensures
        good(summed(z, dst, src, Reg::Zero), set(v, dst, at(v, dst) + at(v, src))),
{
    let x = at(v, dst) + at(v, src);
    let w = set(v, dst, x);
    let (ld, ud) = bounds_of(z, dst, Reg::Zero);
    let (ls, us) = bounds_of(z, src, Reg::Zero);
    lemma_bounds(z, dst, Reg::Zero, v);
    lemma_bounds(z, src, Reg::Zero, v);
    assert(i64::MIN <= v(dst.idx() as int) <= i64::MAX);
    assert(i64::MIN <= v(src.idx() as int) <= i64::MAX);
    lemma_dropped(z, dst, x, v);
    let a = z.forget(dst.idx() as int);
    let lo = bound_sum(ld, ls);
    let hi = bound_sum(ud, us);
    lemma_at_least(a, dst, lo, w);
    let b = at_least(a, dst, Reg::Zero, lo);
    lemma_at_most(b, dst, hi, w);
    lemma_closed(at_most(b, dst, Reg::Zero, hi), w);
}

proof fn lemma_masked(z: Zone, dst: Reg, mask: i64, x: int, v: spec_fn(int) -> int)
    requires
        good(z, v),
        v(0) == 0,
        !(dst is Zero),
        0 <= x <= mask,
    ensures
        good(masked(z, dst, mask, Reg::Zero), set(v, dst, x)),
{
    let w = set(v, dst, x);
    lemma_dropped(z, dst, x, v);
    let a = z.forget(dst.idx() as int);
    lemma_added(a, dst, Reg::Zero, mask, w);
    let b = a.add(dst.idx() as int, 0, mask as int);
    lemma_added(b, Reg::Zero, dst, 0, w);
    lemma_closed(b.add(0, dst.idx() as int, 0), w);
}

/// The lower bound of a register can be multiplied.
pub open spec fn scales(z: Zone, dst: Reg, c: i64) -> bool {
    c > 1 ==> (bounds_of(z, dst, Reg::Zero).0 matches Some(lo) ==> lo * c > i64::MIN)
}

proof fn lemma_times(a: int, b: int, c: int)
    requires
        a <= b,
        c > 0,
    ensures
        a * c <= b * c,
{
    assert(a * c <= b * c) by (nonlinear_arith)
        requires
            a <= b,
            c > 0,
    ;
}

proof fn lemma_multiplied(z: Zone, dst: Reg, c: i64, v: spec_fn(int) -> int)
    requires
        good(z, v),
        v(0) == 0,
        !(dst is Zero),
        scales(z, dst, c),
        forall|i: int| 0 <= i < NUM_VARS ==> i64::MIN <= #[trigger] v(i) <= i64::MAX,
        i64::MIN <= at(v, dst) * c <= i64::MAX,
    ensures
        good(multiplied(z, dst, c, Reg::Zero), set(v, dst, at(v, dst) * c)),
{
    let d = at(v, dst);
    let x = d * c;
    let w = set(v, dst, x);
    assert(i64::MIN <= v(dst.idx() as int) <= i64::MAX);
    if c == 0 {
        assert(x == 0) by (nonlinear_arith)
            requires
                x == d * c,
                c == 0,
        ;
        lemma_equated(z, dst, Reg::Zero, v);
    } else if c == 1 {
        assert(x == d) by (nonlinear_arith)
            requires
                x == d * c,
                c == 1,
        ;
        assert(w =~= v);
    } else if c < 0 {
        lemma_forgotten(z, dst, x, v);
    } else {
        let (lo, hi) = bounds_of(z, dst, Reg::Zero);
        lemma_bounds(z, dst, Reg::Zero, v);
        lemma_dropped(z, dst, x, v);
        let a = z.forget(dst.idx() as int);
        if let Some(l) = lo {
            lemma_times(l as int, d, c as int);
        }
        if let Some(h) = hi {
            lemma_times(d, h as int, c as int);
        }
        let l2 = bound_times(lo, c);
        let h2 = bound_times(hi, c);
        lemma_at_least(a, dst, l2, w);
        let b = at_least(a, dst, Reg::Zero, l2);
        lemma_at_most(b, dst, h2, w);
        lemma_closed(at_most(b, dst, Reg::Zero, h2), w);
    }
}

// ---- steps of a program -----------------------------------------------------

/// The bits that two numbers share.
pub open spec fn shared_bits(a: int, b: int) -> int {
    ((a as i64) & (b as i64)) as int
}

/// A register of a width, read as unsigned.
pub open spec fn unsigned_value(width: Width, x: int) -> int {
    if width is W32 { as_u32(x) } else { as_u64(x) }
}

/// `x` is what arithmetic makes of `d` and a constant.
pub open spec fn arith_const(width: Width, op: AluOp, d: int, c: i64, x: int) -> bool {
    match op {
        AluOp::Mov => c > i64::MIN && x == as_wide(width, c),
        AluOp::Add => x == d + c,
        AluOp::Sub => c > i64::MIN && x == d - c,
        AluOp::And => as_wide(width, c) >= 0 && x == shared_bits(d, as_wide(width, c) as int),
        AluOp::Or => width is W32 ==> 0 <= x <= 0xffff_ffff,
        AluOp::Shr => if (c as u32) < bits(width) {
            (width is W32 || (c as u32) > 0) && x == unsigned_value(width, d) / (two_to(
                (c as u32) as nat,
            ) as int)
        } else {
            x == 0
        },
        AluOp::Mul => x == d * c,
        AluOp::Mod => c > 0 ==> x == unsigned_value(width, d) % (c as int),
        AluOp::Xor => true,
        AluOp::Shl => true,
        AluOp::Arsh => true,
    }
}

/// `x` is what arithmetic makes of `d` and a register with value `s`.
pub open spec fn arith_reg(width: Width, op: AluOp, d: int, s: int, x: int) -> bool {
    match op {
        AluOp::Mov => if width is W32 { x == as_u32(s) } else { x == s },
        AluOp::Add => x == d + s,
        AluOp::Or => width is W32 ==> 0 <= x <= 0xffff_ffff,
        _ => true,
    }
}

/// `x` is what arithmetic makes of the values.
pub open spec fn arith(
    width: Width,
    op: AluOp,
    dst: Reg,
    src: Operand,
    v: spec_fn(int) -> int,
    x: int,
) -> bool {
    match src {
        Operand::Imm(c) => arith_const(width, op, at(v, dst), c, x),
        Operand::Reg(r) => arith_reg(width, op, at(v, dst), at(v, r), x),
    }
}

/// The condition of a jump holds.
pub open spec fn holds(op: CmpOp, a: int, b: int) -> bool {
    match op {
        CmpOp::UGe => a >= b,
        CmpOp::ULe => a <= b,
        CmpOp::UGt => a > b,
        CmpOp::ULt => a < b,
        CmpOp::Eq => a == b,
        CmpOp::Ne => a != b,
    }
}

/// The numbers that a jump compares.
pub open spec fn compared(width: Width, left: int, right: int) -> (int, int) {
    if width is W32 { (as_u32(left), as_u32(right)) } else { (left, right) }
}

/// The value of an operand.
pub open spec fn operand_value(v: spec_fn(int) -> int, o: Operand) -> int {
    match o {
        Operand::Reg(r) => at(v, r),
        Operand::Imm(c) => c as int,
    }
}

/// The analysis compares what the program compares: numbers that are not
/// negative, or for equality; and constants that can be moved by one.
pub open spec fn comparable(
    width: Width,
    left: Reg,
    op: CmpOp,
    right: Operand,
    v: spec_fn(int) -> int,
) -> bool {
    &&& op is Eq || op is Ne || at(v, left) >= 0 && operand_value(v, right) >= 0
    &&& right matches Operand::Imm(c) ==> i64::MIN < c < i64::MAX && (width is W32 ==> 0 <= c
        <= 0xffff_ffff)
}

/// A step of an instruction from a place and values to others.
pub open spec fn steps(
    ctx: &ExecContext,
    instr: Instr,
    pc: usize,
    v: spec_fn(int) -> int,
    next: usize,
    w: spec_fn(int) -> int,
) -> bool {
    let on = next == pc + 1;
    match instr {
        Instr::MovArg0 { dst } => on && writable(ctx, dst) && exists|x: int| w == #[trigger] set(
            v,
            dst,
            x,
        ),
        Instr::Alu { width, op, dst, src } => on && writable(ctx, dst) && exists|x: int|
            w == #[trigger] set(v, dst, x) && arith(width, op, dst, src, v, x),
        Instr::Endian { dst, kind } => on && writable(ctx, dst) && exists|x: int|
            w == #[trigger] set(v, dst, x) && match kind {
                EndianKind::Be16 => 0 <= x <= 0xffff,
                EndianKind::Be32 => 0 <= x <= 0xffff_ffff,
                EndianKind::Be64 => true,
            },
        Instr::If { width, left, op, right, target } => {
            let (a, b) = compared(width, at(v, left), operand_value(v, right));
            &&& w == v
            &&& comparable(width, left, op, right, v)
            &&& if holds(op, a, b) {
                next == target
            } else {
                on
            }
        },
        Instr::Load { dst, .. } => on && writable(ctx, dst) && exists|x: int|
            w == #[trigger] set(v, dst, x),
        Instr::Store { .. } => on && w == v,
        Instr::Call { .. } => on && ctx.r10 == Reg::R10 && exists|
            a: int,
            b: int,
            c: int,
            d: int,
            e: int,
            r: int,
        |
            w == #[trigger] called(v, a, b, c, d, e, r),
        Instr::Jmp { target } => next == target && w == v,
        Instr::Exit => false,
    }
}

/// The values after a call.
pub open spec fn called(
    v: spec_fn(int) -> int,
    a: int,
    b: int,
    c: int,
    d: int,
    e: int,
    r: int,
) -> spec_fn(int) -> int {
    set(
        set(set(set(set(set(v, Reg::R1, a), Reg::R2, b), Reg::R3, c), Reg::R4, d), Reg::R5, e),
        Reg::R0,
        r,
    )
}

/// The arithmetic on bounds does not leave their range.
pub open spec fn in_range(z: Zone, instr: Instr) -> bool {
    match instr {
        Instr::Alu { op: AluOp::Mul, dst, src: Operand::Imm(c), .. } => scales(z, dst, c),
        _ => true,
    }
}

proof fn lemma_two_to_splits(a: nat, b: nat)
    ensures
        two_to(a + b) == two_to(a) * two_to(b),
        two_to(a) > 0,
    decreases a,
{
    if a > 0 {
        lemma_two_to_splits((a - 1) as nat, b);
        let t = two_to((a - 1) as nat);
        let u = two_to(b);
        assert(two_to(a + b) == 2 * two_to((a + b - 1) as nat));
        assert(2 * (t * u) == (2 * t) * u) by (nonlinear_arith);
    } else {
        assert(two_to(0) * two_to(b) == two_to(b)) by (nonlinear_arith)
            requires
                two_to(0) == 1,
        ;
    }
}

proof fn lemma_quotient(u: int, n: nat, k: nat)
    requires
        k <= n,
        0 <= u < two_to(n),
    ensures
        0 <= u / (two_to(k) as int) <= two_to((n - k) as nat) - 1,
{
    lemma_two_to_splits(k, (n - k) as nat);
    let t = two_to(k) as int;
    let r = two_to((n - k) as nat) as int;
    assert(0 <= u / t < r) by (nonlinear_arith)
        requires
            0 <= u < t * r,
            t > 0,
    ;
}

proof fn lemma_powers()
    ensures
        two_to(32) == 0x1_0000_0000,
        two_to(64) == 0x1_0000_0000_0000_0000,
        two_to(63) == 0x8000_0000_0000_0000,
{
    reveal_with_fuel(two_to, 65);
}

proof fn lemma_shift_right(z: Zone, dst: Reg, width: Width, k: i64, v: spec_fn(int) -> int, x: int)
    requires
        good(z, v),
        v(0) == 0,
        !(dst is Zero),
        arith_const(width, AluOp::Shr, at(v, dst), k, x),
    ensures
        good(shifted_right(z, dst, Reg::Zero, width, k), set(v, dst, x)),
{
    let w = set(v, dst, x);
    let n = bits(width);
    let s = k as u32;
    lemma_powers();
    lemma_forgotten(z, dst, x, v);
    let a = forgotten(z, dst);
    if s < n {
        let u = unsigned_value(width, at(v, dst));
        assert(0 <= u < two_to(n as nat));
        lemma_quotient(u, n as nat, s as nat);
        lemma_two_to_splits((63 - (n - s)) as nat, (n - s) as nat);
        lemma_at_least(a, dst, Some(0), w);
        let b = at_least(a, dst, Reg::Zero, Some(0i64));
        let top = ones((n - s) as u32);
        assert(top == two_to((n - s) as nat) - 1) by {
            let t = two_to((63 - (n - s)) as nat);
            let r = two_to((n - s) as nat);
            assert(r <= t * r) by (nonlinear_arith)
                requires
                    t > 0,
                    r >= 0,
            ;
        }
        lemma_at_most(b, dst, Some(top), w);
    } else {
        lemma_at_least(a, dst, Some(0), w);
        let b = at_least(a, dst, Reg::Zero, Some(0i64));
        lemma_exactly(b, dst, 0, w);
    }
}

proof fn lemma_shared_bits(a: int, b: int)
    requires
        0 <= b <= i64::MAX,
    ensures
        0 <= shared_bits(a, b) <= b,
{
    let x = a as i64;
    let y = b as i64;
    assert(y >= 0 ==> 0 <= (x & y) && (x & y) <= y) by (bit_vector);
}

/// After arithmetic the values are allowed that it makes.
pub proof fn law_arithmetic_is_sound(
    ctx: &ExecContext,
    z: Zone,
    width: Width,
    op: AluOp,
    dst: Reg,
    src: Operand,
    v: spec_fn(int) -> int,
    x: int,
)
    requires
        ctx.zero is Zero,
        good(z, v),
        values(ctx, v),
        writable(ctx, dst),
        in_range(z, Instr::Alu { width, op, dst, src }),
        arith(width, op, dst, src, v, x),
        i64::MIN <= x <= i64::MAX,
    ensures
        good(computed(ctx, z, width, op, dst, src), set(v, dst, x)),
{
    let w = set(v, dst, x);
    lemma_forgotten(z, dst, x, v);
    match (op, src) {
        (AluOp::Mov, Operand::Reg(r)) => {
            if width is W32 {
                lemma_within(z, dst, 0, 0xffff_ffff, x, v);
            } else if r == ctx.r10 {
                lemma_equated(z, dst, Reg::Zero, v);
            } else {
                lemma_equated(z, dst, r, v);
            }
        },
        (AluOp::Mov, Operand::Imm(c)) => {
            let k = as_wide(width, c);
            lemma_at_most(forgotten(z, dst), dst, Some(k), w);
            lemma_at_least(at_most(forgotten(z, dst), dst, Reg::Zero, Some(k)), dst, Some(k), w);
        },
        (AluOp::Add, Operand::Imm(c)) => lemma_shifted(z, dst, c, v),
        (AluOp::Add, Operand::Reg(r)) => lemma_summed(z, dst, r, v),
        (AluOp::Sub, Operand::Imm(c)) => lemma_shifted(z, dst, wrapped_neg(c), v),
        (AluOp::And, Operand::Imm(c)) => {
            let m = as_wide(width, c);
            lemma_shared_bits(at(v, dst), m as int);
            lemma_masked(z, dst, m, x, v);
        },
        (AluOp::Or, _) => {
            if width is W32 {
                lemma_within(z, dst, 0, 0xffff_ffff, x, v);
            }
        },
        (AluOp::Shr, Operand::Imm(k)) => lemma_shift_right(z, dst, width, k, v, x),
        (AluOp::Mul, Operand::Imm(c)) => lemma_multiplied(z, dst, c, v),
        (AluOp::Mod, Operand::Imm(c)) => {
            if c > 0 {
                lemma_within(z, dst, 0, (c - 1) as i64, x, v);
            }
        },
        _ => {},
    }
}

/// The values on the side of a jump that is taken are allowed there.
pub proof fn law_branches_are_sound(
    z: Zone,
    width: Width,
    left: Reg,
    op: CmpOp,
    right: Operand,
    v: spec_fn(int) -> int,
)
    requires
        good(z, v),
        v(0) == 0,
        comparable(width, left, op, right, v),
        informative(z, width, left, right, Reg::Zero),
    ensures
        ({
            let (a, b) = compared(width, at(v, left), operand_value(v, right));
            &&& holds(op, a, b) ==> good(taken(z, left, op, right, Reg::Zero), v)
            &&& !holds(op, a, b) ==> good(passed(z, left, op, right, Reg::Zero), v)
        }),
{
    let (a, b) = compared(width, at(v, left), operand_value(v, right));
    if width is W32 {
        let i = left.idx() as int;
        assert(z.m[i][0] < INF ==> v(i) - v(0) <= z.m[i][0]);
        assert(z.m[0][i] < INF ==> v(0) - v(i) <= z.m[0][i]);
        assert(a == at(v, left) && b == operand_value(v, right));
    }
    match right {
        Operand::Imm(c) => {
            match op {
                CmpOp::UGe => {
                    if a >= b {
                        lemma_at_least(z, left, Some(c), v);
                    } else {
                        lemma_at_most(z, left, Some(wadd(c, (-1) as i64)), v);
                    }
                },
                CmpOp::ULe => {
                    if a <= b {
                        lemma_at_most(z, left, Some(c), v);
                    } else {
                        lemma_at_least(z, left, Some(wadd(c, 1)), v);
                    }
                },
                CmpOp::UGt => {
                    if a > b {
                        lemma_at_least(z, left, Some(wadd(c, 1)), v);
                    } else {
                        lemma_at_most(z, left, Some(c), v);
                    }
                },
                CmpOp::ULt => {
                    if a < b {
                        lemma_at_most(z, left, Some(wadd(c, (-1) as i64)), v);
                    } else {
                        lemma_at_least(z, left, Some(c), v);
                    }
                },
                CmpOp::Ne => {
                    if a == b {
                        lemma_exactly(z, left, c, v);
                    }
                },
                CmpOp::Eq => {},
            }
        },
        Operand::Reg(r) => {
            match op {
                CmpOp::UGe => {
                    if a >= b {
                        lemma_stated(z, r, left, 0, v);
                    } else {
                        lemma_stated(z, left, r, (-1) as i64, v);
                    }
                },
                CmpOp::ULe => {
                    if a <= b {
                        lemma_stated(z, left, r, 0, v);
                    } else {
                        lemma_stated(z, r, left, (-1) as i64, v);
                    }
                },
                CmpOp::UGt => {
                    if a > b {
                        lemma_stated(z, r, left, (-1) as i64, v);
                    } else {
                        lemma_stated(z, left, r, 0, v);
                    }
                },
                CmpOp::ULt => {
                    if a < b {
                        lemma_stated(z, left, r, (-1) as i64, v);
                    } else {
                        lemma_stated(z, r, left, 0, v);
                    }
                },
                _ => {},
            }
        },
    }
}

/// An edge leads to a place and allows values there.
pub open spec fn leads(es: Seq<(usize, Zone)>, next: usize, w: spec_fn(int) -> int) -> bool {
    exists|k: int| 0 <= k < es.len() && (#[trigger] es[k]).0 == next && good(es[k].1, w)
}

proof fn lemma_single(es: Seq<(usize, Zone)>, next: usize, z: Zone, w: spec_fn(int) -> int)
    requires
        es == seq![(next, z)],
        good(z, w),
    ensures
        leads(es, next, w),
{
    assert(es[0].0 == next && good(es[0].1, w));
}

proof fn lemma_if_leads(
    ctx: &ExecContext,
    z: Zone,
    pc: usize,
    width: Width,
    left: Reg,
    op: CmpOp,
    right: Operand,
    target: usize,
    v: spec_fn(int) -> int,
    next: usize,
)
    requires
        ctx.zero is Zero,
        good(z, v),
        values(ctx, v),
        pc < usize::MAX,
        steps(ctx, Instr::If { width, left, op, right, target }, pc, v, next, v),
    ensures
        leads(edges(ctx, z, pc, Instr::If { width, left, op, right, target }), next, v),
{
    let instr = Instr::If { width, left, op, right, target };
    let es = edges(ctx, z, pc, instr);
    let b = branched(ctx, z, pc, width, left, op, right, target, no_types());
    let (x, y) = compared(width, at(v, left), operand_value(v, right));
    if informative(z, width, left, right, ctx.zero) {
        law_branches_are_sound(z, width, left, op, right, v);
        let t = taken(z, left, op, right, ctx.zero);
        let f = passed(z, left, op, right, ctx.zero);
        if holds(op, x, y) {
            if t.inconsistent() {
                law_inconsistent_allows_nothing(t, NUM_VARS as int, v);
            }
            assert(b[0].pc == target && b[0].zone == t);
            assert(es[0].0 == next && good(es[0].1, v));
        } else {
            if f.inconsistent() {
                law_inconsistent_allows_nothing(f, NUM_VARS as int, v);
            }
            let k = b.len() - 1;
            assert(b[k].pc == pc + 1 && b[k].zone == f);
            assert(es[k].0 == next && good(es[k].1, v));
        }
    } else {
        if holds(op, x, y) {
            assert(b[1].pc == target && b[1].zone == z);
            assert(es[1].0 == next && good(es[1].1, v));
        } else {
            assert(b[0].zone == z);
            assert(es[0].0 == next && good(es[0].1, v));
        }
    }
}

/// Every step goes along an edge whose state allows the values it leads to.
pub proof fn law_steps_follow_edges(
    ctx: &ExecContext,
    z: Zone,
    instr: Instr,
    pc: usize,
    v: spec_fn(int) -> int,
    next: usize,
    w: spec_fn(int) -> int,
)
    requires
        ctx.zero is Zero,
        pc < usize::MAX,
        good(z, v),
        values(ctx, v),
        values(ctx, w),
        in_range(z, instr),
        steps(ctx, instr, pc, v, next, w),
    ensures
        leads(edges(ctx, z, pc, instr), next, w),
{
    let es = edges(ctx, z, pc, instr);
    match instr {
        Instr::MovArg0 { dst } => {
            let x = choose|x: int| w == #[trigger] set(v, dst, x);
            lemma_forgotten(z, dst, x, v);
            lemma_single(es, next, forgotten(z, dst), w);
        },
        Instr::Alu { width, op, dst, src } => {
            let x = choose|x: int|
                w == #[trigger] set(v, dst, x) && arith(width, op, dst, src, v, x);
            let r = computed(ctx, z, width, op, dst, src);
            assert(w(dst.idx() as int) == x);
            law_arithmetic_is_sound(ctx, z, width, op, dst, src, v, x);
            if r.inconsistent() {
                law_inconsistent_allows_nothing(r, NUM_VARS as int, w);
            }
            lemma_single(es, next, r, w);
        },
        Instr::Endian { dst, kind } => {
            let x = choose|x: int|
                w == #[trigger] set(v, dst, x) && match kind {
                    EndianKind::Be16 => 0 <= x <= 0xffff,
                    EndianKind::Be32 => 0 <= x <= 0xffff_ffff,
                    EndianKind::Be64 => true,
                };
            match kind {
                EndianKind::Be16 => lemma_within(z, dst, 0, 0xffff, x, v),
                EndianKind::Be32 => lemma_within(z, dst, 0, 0xffff_ffff, x, v),
                EndianKind::Be64 => lemma_forgotten(z, dst, x, v),
            }
            lemma_single(es, next, swapped(z, dst, ctx.zero, kind), w);
        },
        Instr::If { width, left, op, right, target } => {
            lemma_if_leads(ctx, z, pc, width, left, op, right, target, v, next);
        },
        Instr::Load { dst, .. } => {
            let x = choose|x: int| w == #[trigger] set(v, dst, x);
            lemma_forgotten(z, dst, x, v);
            lemma_single(es, next, forgotten(z, dst), w);
        },
        Instr::Store { .. } => lemma_single(es, next, z, w),
        Instr::Call { .. } => {
            let (a, b, c, d, e, r) = choose|a: int, b: int, c: int, d: int, e: int, r: int|
                w == #[trigger] called(v, a, b, c, d, e, r);
            let v1 = set(v, Reg::R1, a);
            let v2 = set(v1, Reg::R2, b);
            let v3 = set(v2, Reg::R3, c);
            let v4 = set(v3, Reg::R4, d);
            let v5 = set(v4, Reg::R5, e);
            let z1 = forgotten(z, Reg::R1);
            let z2 = forgotten(z1, Reg::R2);
            let z3 = forgotten(z2, Reg::R3);
            let z4 = forgotten(z3, Reg::R4);
            let z5 = forgotten(z4, Reg::R5);
            lemma_forgotten(z, Reg::R1, a, v);
            lemma_forgotten(z1, Reg::R2, b, v1);
            lemma_forgotten(z2, Reg::R3, c, v2);
            lemma_forgotten(z3, Reg::R4, d, v3);
            lemma_forgotten(z4, Reg::R5, e, v4);
            lemma_forgotten(z5, Reg::R0, r, v5);
            lemma_single(es, next, after_call(z), w);
        },
        Instr::Jmp { target } => lemma_single(es, next, z, w),
        Instr::Exit => {},
    }
}

// ---- whole runs -------------------------------------------------------------

/// Looser bounds allow the same values.
pub proof fn law_looser_bounds_allow_more(a: Zone, b: Zone, v: spec_fn(int) -> int)
    requires
        good(a, v),
        below(a, b),
        b.sized(NUM_VARS as int),
    ensures
        good(b, v),
{
    assert forall|i: int, j: int|
        0 <= i < b.m.len() && 0 <= j < b.m.len() && #[trigger] b.m[i][j] < INF implies v(i) - v(j)
        <= b.m[i][j] by {
        assert(a.m[i][j] <= b.m[i][j]);
    }
}

/// A place in a program and the values there.
pub ghost struct Moment {
    pub pc: usize,
    pub v: spec_fn(int) -> int,
}

/// A run of a program from its start: each moment follows from the one before
/// by a step.
pub open spec fn runs(ctx: &ExecContext, instrs: Seq<Instr>, t: Seq<Moment>) -> bool {
    &&& t.len() > 0
    &&& t[0].pc == 0
    &&& forall|i: int|
        0 <= i < t.len() ==> (#[trigger] t[i]).pc < instrs.len() && values(ctx, t[i].v)
    &&& forall|i: int|
        0 <= i < t.len() - 1 ==> steps(
            ctx,
            instrs[(#[trigger] t[i]).pc as int],
            t[i].pc,
            t[i].v,
            t[i + 1].pc,
            t[i + 1].v,
        )
}

/// The arithmetic on bounds does not leave their range at any instruction that
/// was reached.
pub open spec fn all_in_range(instrs: Seq<Instr>, states: Seq<Option<Zone>>) -> bool {
    forall|pc: int|
        0 <= pc < states.len() && (#[trigger] states[pc]) is Some ==> in_range(
            states[pc]->0,
            instrs[pc],
        )
}

proof fn lemma_one_step(
    ctx: &ExecContext,
    instrs: Seq<Instr>,
    states: Seq<Option<Zone>>,
    a: Moment,
    b: Moment,
)
    requires
        ctx.zero is Zero,
        states.len() == instrs.len(),
        instrs.len() <= usize::MAX,
        a.pc < instrs.len(),
        b.pc < instrs.len(),
        values(ctx, a.v),
        values(ctx, b.v),
        states[a.pc as int] is Some,
        good(states[a.pc as int]->0, a.v),
        in_range(states[a.pc as int]->0, instrs[a.pc as int]),
        steps(ctx, instrs[a.pc as int], a.pc, a.v, b.pc, b.v),
        covered(ctx, instrs, states, a.pc as int),
        states[b.pc as int] is Some ==> states[b.pc as int]->0.sized(NUM_VARS as int),
    ensures
        states[b.pc as int] is Some,
        good(states[b.pc as int]->0, b.v),
{
    let z = states[a.pc as int]->0;
    law_steps_follow_edges(ctx, z, instrs[a.pc as int], a.pc, a.v, b.pc, b.v);
    let es = edges(ctx, z, a.pc, instrs[a.pc as int]);
    let e = choose|e: int| 0 <= e < es.len() && (#[trigger] es[e]).0 == b.pc && good(es[e].1, b.v);
    let at_a = a.pc as int;
    assert(at_a as usize == a.pc);
    assert(es == edges(ctx, states[at_a]->0, at_a as usize, instrs[at_a]));
    assert(reaches(states, es[e]));
    law_looser_bounds_allow_more(es[e].1, states[b.pc as int]->0, b.v);
}

/// The states of a finished analysis allow every run: wherever a run that
/// starts with values that the entry state allows comes, there is a state, and
/// it allows the values.
pub proof fn law_the_analysis_is_sound(
    ctx: &ExecContext,
    instrs: Seq<Instr>,
    entry: Zone,
    stats: AnalysisStats,
    k: nat,
    t: Seq<Moment>,
    i: int,
)
    requires
        ctx.zero is Zero,
        0 < instrs.len() <= usize::MAX,
        run(ctx, instrs, start(ctx, instrs.len(), entry, stats), k).finished(),
        !run(ctx, instrs, start(ctx, instrs.len(), entry, stats), k).stats.abort,
        run(ctx, instrs, start(ctx, instrs.len(), entry, stats), k).wf(instrs.len()),
        all_in_range(instrs, run(ctx, instrs, start(ctx, instrs.len(), entry, stats), k).states),
        runs(ctx, instrs, t),
        good(entry, t[0].v),
        0 <= i < t.len(),
    ensures
        ({
            let states = run(ctx, instrs, start(ctx, instrs.len(), entry, stats), k).states;
            &&& states[t[i].pc as int] is Some
            &&& good(states[t[i].pc as int]->0, t[i].v)
        }),
    decreases i,
{
    let p = run(ctx, instrs, start(ctx, instrs.len(), entry, stats), k);
    law_finished_analyses_are_inductive(ctx, instrs, entry, stats, k);
    if i == 0 {
        assert(p.states[0] is Some);
        law_looser_bounds_allow_more(entry, p.states[0]->0, t[0].v);
    } else {
        law_the_analysis_is_sound(ctx, instrs, entry, stats, k, t, i - 1);
        let (a, b) = (t[i - 1], t[i]);
        assert(a.pc < instrs.len() && values(ctx, a.v));
        assert(b.pc < instrs.len() && values(ctx, b.v));
        assert(t[i - 1 + 1] == b);
        assert(p.states[a.pc as int] is Some);
        assert(p.states[b.pc as int] is Some ==> p.states[b.pc as int]->0.sized(NUM_VARS as int));
        lemma_one_step(ctx, instrs, p.states, a, b);
    }
}

/// An access that is known to be in the stack is in the stack.
pub proof fn law_stack_accesses_are_in_bounds(
    ctx: &ExecContext,
    z: Zone,
    base: Reg,
    off: i16,
    size: MemSize,
    v: spec_fn(int) -> int,
)
    requires
        ctx.zero is Zero,
        ctx.stack_min >= -0x4000_0000_0000_0000,
        good(z, v),
        values(ctx, v),
        in_stack(ctx, z, base, off, size),
    ensures
        ctx.stack_min <= at(v, base) + off,
        at(v, base) + off + access_size(size) - 1 <= ctx.stack_max,
{
    lemma_bounds(z, base, Reg::Zero, v);
    assert(i64::MIN <= v(base.idx() as int) <= i64::MAX);
}

/// An access that is known to be in the packet by the pointer's distance from
/// the packet's end ends before the packet does.
pub proof fn law_packet_accesses_end_in_the_packet(
    z: Zone,
    types: Seq<RegType>,
    base: Reg,
    range: u64,
    off: i16,
    size: MemSize,
    v: spec_fn(int) -> int,
)
    requires
        good(z, v),
        in_packet(z, types, base, range, off, size),
        end_reg(types) is Some,
        at(v, base) + range <= at(v, end_reg(types)->0),
    ensures
        at(v, base) + off + access_size(size) <= at(v, end_reg(types)->0),
{
    lemma_bounds(z, base, end_reg(types)->0, v);
}

/// A pointer is at least its range before the packet's end.
pub open spec fn range_holds(t: RegType, x: int, end: int) -> bool {
    t matches RegType::PtrToPacket { range, .. } ==> x + range <= end
}

/// What a comparison with the packet's end teaches about ranges is true, and a
/// pointer that moves by no more than its range keeps a range that is true.
pub proof fn law_ranges_are_true(
    z: Zone,
    t: RegType,
    id: u32,
    r: Reg,
    end: Reg,
    k: i64,
    v: spec_fn(int) -> int,
)
    requires
        good(z, v),
        range_holds(t, at(v, r), at(v, end)),
    ensures
        range_holds(reaching(t, id, bounds_of(z, r, end).1), at(v, r), at(v, end)),
        (t matches RegType::PtrToPacket { range, .. } ==> k <= range) ==> range_holds(
            stepped(t, k as int),
            at(v, r) + k,
            at(v, end),
        ),
{
    lemma_bounds(z, r, end, v);
}

/// Where an analysis ends without stopping early and without an unsafe load,
/// every load and store of a run through a pointer to the stack is in the
/// stack.
pub proof fn law_accepted_programs_stay_in_the_stack(
    ctx: &ExecContext,
    instrs: Seq<Instr>,
    entry: Zone,
    stats: AnalysisStats,
    k: nat,
    t: Seq<Moment>,
    i: int,
)
    requires
        ctx.zero is Zero,
        ctx.stack_min >= -0x4000_0000_0000_0000,
        0 < instrs.len() <= usize::MAX,
        run(ctx, instrs, start(ctx, instrs.len(), entry, stats), k).finished(),
        !run(ctx, instrs, start(ctx, instrs.len(), entry, stats), k).stats.abort,
        !run(ctx, instrs, start(ctx, instrs.len(), entry, stats), k).stats.unsafe_stack_load,
        run(ctx, instrs, start(ctx, instrs.len(), entry, stats), k).wf(instrs.len()),
        all_in_range(instrs, run(ctx, instrs, start(ctx, instrs.len(), entry, stats), k).states),
        runs(ctx, instrs, t),
        good(entry, t[0].v),
        0 <= i < t.len(),
    ensures
        ({
            let p = run(ctx, instrs, start(ctx, instrs.len(), entry, stats), k);
            let types = p.types[t[i].pc as int]->0;
            match instrs[t[i].pc as int] {
                Instr::Load { size, base, off, .. } => type_of(types, base) is PtrToStack ==> {
                    &&& ctx.stack_min <= at(t[i].v, base) + off
                    &&& at(t[i].v, base) + off + access_size(size) - 1 <= ctx.stack_max
                },
                Instr::Store { size, base, off, .. } => type_of(types, base) is PtrToStack ==> {
                    &&& ctx.stack_min <= at(t[i].v, base) + off
                    &&& at(t[i].v, base) + off + access_size(size) - 1 <= ctx.stack_max
                },
                _ => true,
            }
        }),
{
    let p = run(ctx, instrs, start(ctx, instrs.len(), entry, stats), k);
    let m = t[i];
    let z = p.states[m.pc as int]->0;
    let types = p.types[m.pc as int]->0;
    law_the_analysis_is_sound(ctx, instrs, entry, stats, k, t, i);
    law_finished_analyses_find_everything(ctx, instrs, entry, stats, k);
    assert(p.states[m.pc as int] is Some);
    assert(accounted(ctx, instrs, p, m.pc as int));
    assert(values(ctx, m.v));
    match instrs[m.pc as int] {
        Instr::Load { size, base, off, .. } => {
            if type_of(types, base) is PtrToStack {
                law_stack_accesses_are_in_bounds(ctx, z, base, off, size, m.v);
            }
        },
        Instr::Store { size, base, off, .. } => {
            if type_of(types, base) is PtrToStack {
                law_stack_accesses_are_in_bounds(ctx, z, base, off, size, m.v);
            }
        },
        _ => {},
    }
}

} // verus!
