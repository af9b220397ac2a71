//! Arithmetic: what it does to values and to types.
use crate::ast::Width;
use crate::compact::ast::{AluOp, EndianKind, Operand};
use crate::compact::context::{all_wf, nexts, only, AnalysisStats, ExecContext, Next, Successor};
use crate::compact::domain::{
    assign_add_imm, assign_add_reg, assign_and_mask, assign_eq, assign_mul_imm, assign_zero,
    assume_eq_const, assume_ge_const, assume_le_const, at_least, at_most, equated, exactly, forget,
    forgotten, masked, multiplied, no_types, shifted, small, summed, type_of, with_type, Reg,
    RegType, RegTypeState,
};
use crate::domains::zone::dbm::{Dbm, Zone};
use crate::domains::zone::ops::wrapped_neg;
use crate::num::{clip_u64, sat_add_u64, sat_sub_u64, wadd};
use vstd::prelude::*;

verus! {

/// Nothing is left of `dst` but that it is in a range.
pub open spec fn within(z: Zone, dst: Reg, zero: Reg, lo: i64, hi: i64) -> Zone {
    at_most(at_least(forgotten(z, dst), dst, zero, Some(lo)), dst, zero, Some(hi))
}

fn set_range(dbm: &mut Dbm, dst: Reg, zero: Reg, lo: i64, hi: i64)
    requires
        small(old(dbm)),
    ensures
        small(final(dbm)),
        final(dbm)@ == within(old(dbm)@, dst, zero, lo, hi),
{
    forget(dbm, dst);
    assume_ge_const(dbm, dst, zero, lo);
    assume_le_const(dbm, dst, zero, hi);
}

/// A constant as an operation of a width sees it.
pub open spec fn spec_as_wide(width: Width, c: i64) -> i64 {
    if width is W32 { (c as u32) as i64 } else { c }
}

#[verifier::when_used_as_spec(spec_as_wide)]
pub fn as_wide(width: Width, c: i64) -> (r: i64)
    ensures
        r == spec_as_wide(width, c),
{
    if width == Width::W32 {
        (c as u32) as i64
    } else {
        c
    }
}

/// Two to the power of `n`.
pub open spec fn two_to(n: nat) -> nat
    decreases n,
{
    if n == 0 { 1 } else { 2 * two_to((n - 1) as nat) }
}

/// Bits in a register of a width.
pub open spec fn bits(width: Width) -> u32 {
    if width is W32 { 32 } else { 64 }
}

/// The all-ones number of `n` bits, as a signed 64-bit number.
pub open spec fn ones(n: u32) -> i64 {
    if n >= 64 { (-1) as i64 } else { (two_to(n as nat) - 1) as i64 }
}

fn all_ones(n: u32) -> (r: i64)
    requires
        n <= 64,
    ensures
        r == ones(n),
{
    if n >= 64 {
        return -1;
    }
    let mut v: i128 = 1;
    let mut i: u32 = 0;
    proof {
        lemma_two_to_grows(0, n as nat);
        lemma_two_to_grows(n as nat, 63);
        lemma_two_to_63();
    }
    while i < n
        invariant
            i <= n < 64,
            v == two_to(i as nat),
            two_to(n as nat) <= 0x8000_0000_0000_0000,
        decreases n - i,
    {
        proof {
            lemma_two_to_grows((i + 1) as nat, n as nat);
        }
        v = v * 2;
        i = i + 1;
    }
    (v - 1) as i64
}

proof fn lemma_two_to_grows(a: nat, b: nat)
    requires
        a <= b,
    ensures
        1 <= two_to(a) <= two_to(b),
    decreases b,
{
    if a < b {
        lemma_two_to_grows(a, (b - 1) as nat);
    } else if a > 0 {
        lemma_two_to_grows((a - 1) as nat, (a - 1) as nat);
    }
}

proof fn lemma_two_to_63()
    ensures
        two_to(63) == 0x8000_0000_0000_0000,
{
    reveal_with_fuel(two_to, 64);
}

/// `dst >>= k`: the high bits become zero.
pub open spec fn shifted_right(z: Zone, dst: Reg, zero: Reg, width: Width, k: i64) -> Zone {
    let z = at_least(forgotten(z, dst), dst, zero, Some(0));
    if (k as u32) < bits(width) {
        at_most(z, dst, zero, Some(ones((bits(width) - (k as u32)) as u32)))
    } else {
        exactly(z, dst, zero, 0)
    }
}

fn shift_right(dbm: &mut Dbm, dst: Reg, zero: Reg, width: Width, k: i64)
    requires
        small(old(dbm)),
    ensures
        small(final(dbm)),
        final(dbm)@ == shifted_right(old(dbm)@, dst, zero, width, k),
{
    let n: u32 = if width == Width::W32 { 32 } else { 64 };
    let k: u32 = k as u32;
    forget(dbm, dst);
    assume_ge_const(dbm, dst, zero, 0);
    if k < n {
        assume_le_const(dbm, dst, zero, all_ones(n - k));
    } else {
        assume_eq_const(dbm, dst, zero, 0);
    }
}

/// The value of `dst` after a move.
pub open spec fn moved(ctx: &ExecContext, z: Zone, width: Width, dst: Reg, src: Operand) -> Zone {
    match src {
        Operand::Reg(r) => if width is W32 {
            within(z, dst, ctx.zero, 0, 0xffff_ffff)
        } else if r == ctx.r10 {
            equated(z, dst, ctx.zero)
        } else {
            equated(z, dst, r)
        },
        Operand::Imm(c) => at_least(
            at_most(forgotten(z, dst), dst, ctx.zero, Some(as_wide(width, c))),
            dst,
            ctx.zero,
            Some(as_wide(width, c)),
        ),
    }
}

fn move_value(ctx: &ExecContext, dbm: &mut Dbm, width: Width, dst: Reg, src: Operand)
    requires
        small(old(dbm)),
    ensures
        small(final(dbm)),
        final(dbm)@ == moved(ctx, old(dbm)@, width, dst, src),
{
    match src {
        Operand::Reg(r) => {
            if width == Width::W32 {
                set_range(dbm, dst, ctx.zero, 0, 0xffff_ffff);
            } else if r == ctx.r10 {
                assign_zero(dbm, dst, ctx.zero);
            } else {
                assign_eq(dbm, dst, r);
            }
        },
        Operand::Imm(c) => {
            let c: i64 = as_wide(width, c);
            forget(dbm, dst);
            assume_le_const(dbm, dst, ctx.zero, c);
            assume_ge_const(dbm, dst, ctx.zero, c);
        },
    }
}

/// The values after arithmetic.
pub open spec fn computed(
    ctx: &ExecContext,
    z: Zone,
    width: Width,
    op: AluOp,
    dst: Reg,
    src: Operand,
) -> Zone {
    match (op, src) {
        (AluOp::Mov, _) => moved(ctx, z, width, dst, src),
        (AluOp::Add, Operand::Imm(c)) => shifted(z, dst, c),
        (AluOp::Add, Operand::Reg(r)) => summed(z, dst, r, ctx.zero),
        (AluOp::Sub, Operand::Imm(c)) => shifted(z, dst, wrapped_neg(c)),
        (AluOp::And, Operand::Imm(mask)) => masked(z, dst, as_wide(width, mask), ctx.zero),
        (AluOp::Or, _) => if width is W32 {
            within(z, dst, ctx.zero, 0, 0xffff_ffff)
        } else {
            forgotten(z, dst)
        },
        (AluOp::Shr, Operand::Imm(k)) => shifted_right(z, dst, ctx.zero, width, k),
        (AluOp::Mul, Operand::Imm(c)) => multiplied(z, dst, c, ctx.zero),
        (AluOp::Mod, Operand::Imm(c)) => if c > 0 {
            within(z, dst, ctx.zero, 0, (c - 1) as i64)
        } else {
            forgotten(z, dst)
        },
        _ => forgotten(z, dst),
    }
}

fn compute(ctx: &ExecContext, dbm: &mut Dbm, width: Width, op: AluOp, dst: Reg, src: Operand)
    requires
        small(old(dbm)),
    ensures
        small(final(dbm)),
        final(dbm)@ == computed(ctx, old(dbm)@, width, op, dst, src),
{
    match (op, src) {
        (AluOp::Mov, _) => move_value(ctx, dbm, width, dst, src),
        (AluOp::Add, Operand::Imm(c)) => assign_add_imm(dbm, dst, c),
        (AluOp::Add, Operand::Reg(r)) => assign_add_reg(dbm, dst, r, ctx.zero),
        (AluOp::Sub, Operand::Imm(c)) => {
            assign_add_imm(dbm, dst, if c == i64::MIN { c } else { -c });
        },
        (AluOp::And, Operand::Imm(mask)) => {
            assign_and_mask(dbm, dst, as_wide(width, mask), ctx.zero);
        },
        (AluOp::Or, _) => {
            if width == Width::W32 {
                set_range(dbm, dst, ctx.zero, 0, 0xffff_ffff);
            } else {
                forget(dbm, dst);
            }
        },
        (AluOp::Shr, Operand::Imm(k)) => shift_right(dbm, dst, ctx.zero, width, k),
        (AluOp::Mul, Operand::Imm(c)) => assign_mul_imm(dbm, dst, c, ctx.zero),
        (AluOp::Mod, Operand::Imm(c)) => {
            if c > 0 {
                set_range(dbm, dst, ctx.zero, 0, c - 1);
            } else {
                forget(dbm, dst);
            }
        },
        _ => forget(dbm, dst),
    }
}

/// A packet pointer after moving `k` bytes forward: the bytes known to be
/// ahead of it shrink by as many.
pub open spec fn spec_slid(range: u64, k: int) -> u64 {
    clip_u64(range - k)
}

fn slide_forward(range: u64, k: i64) -> (r: u64)
    ensures
        r == spec_slid(range, k as int),
{
    if k > 0 {
        sat_sub_u64(range, k as u64)
    } else {
        sat_add_u64(range, (-(k as i128)) as u64)
    }
}

fn slide_back(range: u64, k: i64) -> (r: u64)
    ensures
        r == spec_slid(range, -k),
{
    if k > 0 {
        sat_add_u64(range, k as u64)
    } else {
        sat_sub_u64(range, (-(k as i128)) as u64)
    }
}

/// The type of a pointer moved by a constant: packet pointers lose or gain
/// range, others stay.
pub open spec fn stepped(t: RegType, k: int) -> RegType {
    match t {
        RegType::PtrToPacket { id, range } => RegType::PtrToPacket {
            id,
            range: spec_slid(range, k),
        },
        _ => t,
    }
}

/// The type of the result of arithmetic.
pub open spec fn result_type(
    types: Seq<RegType>,
    width: Width,
    op: AluOp,
    dst: Reg,
    src: Operand,
) -> RegType {
    let t = type_of(types, dst);
    match (op, src) {
        (AluOp::Mov, Operand::Reg(r)) => if width is W32 {
            RegType::ScalarValue
        } else {
            type_of(types, r)
        },
        (AluOp::Add, Operand::Imm(k)) => if width is W64 && t.is_pointer() {
            stepped(t, k as int)
        } else {
            RegType::ScalarValue
        },
        (AluOp::Sub, Operand::Imm(k)) => if width is W64 && t.is_pointer() {
            stepped(t, -k)
        } else {
            RegType::ScalarValue
        },
        _ => RegType::ScalarValue,
    }
}

fn type_of_result(types: &RegTypeState, width: Width, op: AluOp, dst: Reg, src: Operand) -> (r:
    RegType)
    requires
        types.wf(),
    ensures
        r == result_type(types@, width, op, dst, src),
{
    if width == Width::W32 {
        return RegType::ScalarValue;
    }
    let t: RegType = types.get(dst);
    match (op, src) {
        (AluOp::Mov, Operand::Reg(r)) => types.get(r),
        (AluOp::Add, Operand::Imm(k)) => {
            if !t.is_pointer() {
                return RegType::ScalarValue;
            }
            match t {
                RegType::PtrToPacket { id, range } => RegType::PtrToPacket {
                    id,
                    range: slide_forward(range, k),
                },
                _ => t,
            }
        },
        (AluOp::Sub, Operand::Imm(k)) => {
            if !t.is_pointer() {
                return RegType::ScalarValue;
            }
            match t {
                RegType::PtrToPacket { id, range } => RegType::PtrToPacket {
                    id,
                    range: slide_back(range, k),
                },
                _ => t,
            }
        },
        _ => RegType::ScalarValue,
    }
}

/// The next instruction after arithmetic, unless no values are left.
pub fn transfer_alu(
    ctx: &ExecContext,
    dbm_in: &Dbm,
    pc: usize,
    width: Width,
    op: AluOp,
    dst: Reg,
    src: Operand,
    stats: &mut AnalysisStats,
    reg_types: &RegTypeState,
) -> (r: Vec<Successor>)
    requires
        small(dbm_in),
        reg_types.wf(),
        pc < usize::MAX,
    ensures
        all_wf(r@),
        computed(ctx, dbm_in@, width, op, dst, src).inconsistent() ==> {
            &&& r@.len() == 0
            &&& *final(stats) == old(stats).with_dbm_inconsistent()
        },
        !computed(ctx, dbm_in@, width, op, dst, src).inconsistent() ==> {
            &&& nexts(r@) == seq![
                (Next {
                    pc: (pc + 1) as usize,
                    zone: computed(ctx, dbm_in@, width, op, dst, src),
                    types: with_type(
                        reg_types@,
                        dst,
                        result_type(reg_types@, width, op, dst, src),
                    ),
                }),
            ]
            &&& *final(stats) == *old(stats)
        },
{
    let mut dbm: Dbm = dbm_in.clone();
    let mut next_types: RegTypeState = reg_types.clone();
    compute(ctx, &mut dbm, width, op, dst, src);
    next_types.set(dst, type_of_result(reg_types, width, op, dst, src));
    if dbm.is_inconsistent() {
        stats.mark_dbm_inconsistent();
        Vec::new()
    } else {
        only(pc + 1, dbm, next_types)
    }
}

/// The values after a byte order conversion: the converted bytes stay in
/// their range.
pub open spec fn swapped(z: Zone, dst: Reg, zero: Reg, kind: EndianKind) -> Zone {
    match kind {
        EndianKind::Be16 => within(z, dst, zero, 0, 0xffff),
        EndianKind::Be32 => within(z, dst, zero, 0, 0xffff_ffff),
        EndianKind::Be64 => forgotten(z, dst),
    }
}

/// The next instruction after a byte order conversion. It carries no types.
pub fn transfer_endian(ctx: &ExecContext, dbm_in: &Dbm, pc: usize, dst: Reg, kind: EndianKind) -> (r:
    Vec<Successor>)
    requires
        small(dbm_in),
        pc < usize::MAX,
    ensures
        all_wf(r@),
        nexts(r@) == seq![
            (Next {
                pc: (pc + 1) as usize,
                zone: swapped(dbm_in@, dst, ctx.zero, kind),
                types: no_types(),
            }),
        ],
{
    let mut dbm: Dbm = dbm_in.clone();
    match kind {
        EndianKind::Be16 => set_range(&mut dbm, dst, ctx.zero, 0, 0xffff),
        EndianKind::Be32 => set_range(&mut dbm, dst, ctx.zero, 0, 0xffff_ffff),
        EndianKind::Be64 => forget(&mut dbm, dst),
    }
    only(pc + 1, dbm, RegTypeState::new_not_init())
}

/// The next instruction after the program's argument was fetched. It carries
/// no types.
pub fn transfer_mov_arg0(dbm_in: &Dbm, pc: usize, dst: Reg) -> (r: Vec<Successor>)
    requires
        small(dbm_in),
        pc < usize::MAX,
    ensures
        all_wf(r@),
        nexts(r@) == seq![
            (Next {
                pc: (pc + 1) as usize,
                zone: forgotten(dbm_in@, dst),
                types: no_types(),
            }),
        ],
{
    let mut dbm: Dbm = dbm_in.clone();
    forget(&mut dbm, dst);
    only(pc + 1, dbm, RegTypeState::new_not_init())
}

/// The type after arithmetic as the flow of types sees it: a load of a map's
/// address yields the map, and map value pointers keep their offset.
pub open spec fn flow_type(
    ctx: &ExecContext,
    pc: usize,
    types: Seq<RegType>,
    width: Width,
    op: AluOp,
    dst: Reg,
    src: Operand,
) -> RegType {
    let t = type_of(types, dst);
    if width is W32 {
        RegType::ScalarValue
    } else {
        match (op, src) {
            (AluOp::Mov, Operand::Reg(r)) => type_of(types, r),
            (AluOp::Mov, Operand::Imm(_)) => if ctx.pc_to_map_idx@.contains_key(pc) {
                RegType::PtrToMapObject { map_idx: ctx.pc_to_map_idx@[pc] }
            } else {
                RegType::ScalarValue
            },
            (AluOp::Add, Operand::Imm(k)) => if t.is_pointer() {
                match t {
                    RegType::PtrToMapValue { offset, map_idx } => RegType::PtrToMapValue {
                        offset: wadd(offset, k),
                        map_idx,
                    },
                    _ => stepped(t, k as int),
                }
            } else {
                RegType::ScalarValue
            },
            (AluOp::Sub, Operand::Imm(k)) => if t.is_pointer() {
                match t {
                    RegType::PtrToMapValue { offset, map_idx } => RegType::PtrToMapValue {
                        offset: wadd(offset, wrapped_neg(k)),
                        map_idx,
                    },
                    _ => stepped(t, -k),
                }
            } else {
                RegType::ScalarValue
            },
            _ => RegType::ScalarValue,
        }
    }
}

/// Updates the types for arithmetic.
pub fn update_alu_types(
    ctx: &ExecContext,
    pc: usize,
    types: &mut RegTypeState,
    width: Width,
    op: AluOp,
    dst: Reg,
    src: Operand,
)
    requires
        old(types).wf(),
    ensures
        final(types).wf(),
        final(types)@ == with_type(
            old(types)@,
            dst,
            flow_type(ctx, pc, old(types)@, width, op, dst, src),
        ),
{
    if width == Width::W32 {
        types.set(dst, RegType::ScalarValue);
        return;
    }
    match op {
        AluOp::Mov => handle_mov(ctx, pc, types, dst, src),
        AluOp::Add => handle_add(types, dst, src),
        AluOp::Sub => handle_sub(types, dst, src),
        _ => types.set(dst, RegType::ScalarValue),
    }
}

fn handle_mov(ctx: &ExecContext, pc: usize, types: &mut RegTypeState, dst: Reg, src: Operand)
    requires
        old(types).wf(),
    ensures
        final(types).wf(),
        final(types)@ == with_type(
            old(types)@,
            dst,
            flow_type(ctx, pc, old(types)@, Width::W64, AluOp::Mov, dst, src),
        ),
{
    broadcast use vstd::std_specs::hash::group_hash_axioms;

    match src {
        Operand::Reg(r) => {
            let t: RegType = types.get(r);
            types.set(dst, t);
        },
        Operand::Imm(_) => {
            match ctx.pc_to_map_idx.get(&pc) {
                Some(map_idx) => types.set(dst, RegType::PtrToMapObject { map_idx: *map_idx }),
                None => types.set(dst, RegType::ScalarValue),
            }
        },
    }
}

fn handle_add(types: &mut RegTypeState, dst: Reg, src: Operand)
    requires
        old(types).wf(),
    ensures
        final(types).wf(),
        forall|ctx: &ExecContext, pc: usize|
            final(types)@ == with_type(
                old(types)@,
                dst,
                #[trigger] flow_type(ctx, pc, old(types)@, Width::W64, AluOp::Add, dst, src),
            ),
{
    let t: RegType = types.get(dst);
    match (t.is_pointer(), src) {
        (true, Operand::Imm(k)) => {
            match t {
                RegType::PtrToPacket { id, range } => {
                    types.set(dst, RegType::PtrToPacket { id, range: slide_forward(range, k) });
                },
                RegType::PtrToMapValue { offset, map_idx } => {
                    types.set(dst, RegType::PtrToMapValue { offset: wadd(offset, k), map_idx });
                },
                _ => types.set(dst, t),
            }
        },
        _ => types.set(dst, RegType::ScalarValue),
    }
}

fn handle_sub(types: &mut RegTypeState, dst: Reg, src: Operand)
    requires
        old(types).wf(),
    ensures
        final(types).wf(),
        forall|ctx: &ExecContext, pc: usize|
            final(types)@ == with_type(
                old(types)@,
                dst,
                #[trigger] flow_type(ctx, pc, old(types)@, Width::W64, AluOp::Sub, dst, src),
            ),
{
    let t: RegType = types.get(dst);
    match (t.is_pointer(), src) {
        (true, Operand::Imm(k)) => {
            match t {
                RegType::PtrToPacket { id, range } => {
                    types.set(dst, RegType::PtrToPacket { id, range: slide_back(range, k) });
                },
                RegType::PtrToMapValue { offset, map_idx } => {
                    let back: i64 = if k == i64::MIN { k } else { -k };
                    types.set(dst, RegType::PtrToMapValue { offset: wadd(offset, back), map_idx });
                },
                _ => types.set(dst, t),
            }
        },
        _ => types.set(dst, RegType::ScalarValue),
    }
}

} // verus!
