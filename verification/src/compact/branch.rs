//! Conditional jumps: what each side learns about values and types.
use crate::ast::Width;
use crate::compact::ast::{CmpOp, Instr, Operand};
use crate::compact::context::{all_wf, nexts, ExecContext, Next, Successor};
use crate::compact::domain::{
    all_regs, assume_eq_const, assume_ge_const, assume_ge_var, assume_gt_var, assume_le_const,
    assume_le_var, assume_le_var_plus_const, assume_less_than, at_least, at_most, bounds_of, exactly,
    get_bounds, small, stated, type_of, Reg, RegEnv, RegType, RegTypeState, NUM_REGS,
};
use crate::domains::zone::dbm::{Dbm, Zone};
use crate::num::wadd;
use vstd::prelude::*;

verus! {

/// The register is known to be an unsigned 32-bit number.
pub open spec fn fits_u32(z: Zone, v: Reg, zero: Reg) -> bool {
    z.m[v.idx() as int][zero.idx() as int] <= 0xffff_ffff && z.m[zero.idx() as int][v.idx() as int]
        <= 0
}

/// Whether the register is known to be an unsigned 32-bit number.
pub fn proven_u32_range(dbm: &Dbm, v: Reg, zero: Reg) -> (r: bool)
    requires
        small(dbm),
    ensures
        r == fits_u32(dbm@, v, zero),
{
    let ub: i64 = dbm.raw(v.idx(), zero.idx());
    let lb: i64 = dbm.raw(zero.idx(), v.idx());
    ub <= 0xffff_ffff && lb <= 0
}

/// A lookup result with an identity is found.
pub open spec fn found(t: RegType, id: u32) -> RegType {
    match t {
        RegType::PtrToMapValueOrNull { id: i, map_idx } => if i == id {
            RegType::PtrToMapValue { offset: 0, map_idx }
        } else {
            t
        },
        _ => t,
    }
}

/// The lookup result in a register, and all its copies, are found.
pub open spec fn promoted(types: Seq<RegType>, reg: Reg) -> Seq<RegType> {
    match type_of(types, reg) {
        RegType::PtrToMapValueOrNull { id, .. } => Seq::new(
            types.len(),
            |i: int| found(types[i], id),
        ),
        _ => types,
    }
}

/// Promotes a lookup result and all its copies.
pub fn maybe_promote_map_val(types: &mut RegTypeState, reg: Reg)
    requires
        old(types).wf(),
    ensures
        final(types).wf(),
        final(types)@ == promoted(old(types)@, reg),
{
    let target: u32 = match types.get(reg) {
        RegType::PtrToMapValueOrNull { id, .. } => id,
        _ => {
            return ;
        },
    };
    let ghost before = types@;
    let mut i: usize = 0;
    while i < NUM_REGS
        invariant
            i <= NUM_REGS,
            types.wf(),
            before.len() == NUM_REGS,
            forall|k: int|
                0 <= k < NUM_REGS ==> (#[trigger] types.regs@[k]) == if k < i {
                    found(before[k], target)
                } else {
                    before[k]
                },
        decreases NUM_REGS - i,
    {
        if let RegType::PtrToMapValueOrNull { id, map_idx } = types.regs[i] {
            if id == target {
                types.regs[i] = RegType::PtrToMapValue { offset: 0, map_idx };
            }
        }
        i = i + 1;
    }
    assert(types@ =~= promoted(before, reg));
}

/// The types after a jump was taken or not: a comparison with zero tells
/// whether a lookup found something.
pub open spec fn branch_types(instr: Instr, succ: usize, types: Seq<RegType>) -> Seq<RegType> {
    match instr {
        Instr::If { op, left, right: Operand::Imm(c), target, .. } => if c == 0 && (succ == target
            && (op is Ne || op is UGt) || succ != target && op is Eq) {
            promoted(types, left)
        } else {
            types
        },
        _ => types,
    }
}

/// Updates the types for a jump that was taken or not.
pub fn refine_branch_types(instr: &Instr, succ_pc: usize, types: &mut RegTypeState)
    requires
        old(types).wf(),
    ensures
        final(types).wf(),
        final(types)@ == branch_types(*instr, succ_pc, old(types)@),
{
    if let Instr::If { op, left, right: Operand::Imm(c), target, .. } = *instr {
        if c != 0 {
            return ;
        }
        let taken: bool = succ_pc == target;
        match op {
            CmpOp::Ne | CmpOp::UGt => {
                if taken {
                    maybe_promote_map_val(types, left);
                }
            },
            CmpOp::Eq => {
                if !taken {
                    maybe_promote_map_val(types, left);
                }
            },
            _ => {},
        }
    }
}

/// The type of a packet pointer that is at least `-upper` bytes before the
/// packet's end.
pub open spec fn reaching(t: RegType, id: u32, upper: Option<i64>) -> RegType {
    match (t, upper) {
        (RegType::PtrToPacket { id: i, range }, Some(u)) => if i == id && u <= 0 && -u > range {
            RegType::PtrToPacket { id: i, range: (-u) as u64 }
        } else {
            t
        },
        _ => t,
    }
}

/// The types after a packet pointer was found to be before the packet's end:
/// its copies learn how far they are from the end.
pub open spec fn ranged(z: Zone, types: Seq<RegType>, packet: Reg, end: Reg) -> Seq<RegType> {
    match type_of(types, packet) {
        RegType::PtrToPacket { id, .. } => Seq::new(
            types.len(),
            |i: int| reaching(types[i], id, bounds_of(z, all_regs()[i + 1], end).1),
        ),
        _ => types,
    }
}

/// Updates the ranges of a packet pointer and its copies.
pub fn update_packet_ranges(dbm: &Dbm, types: &mut RegTypeState, packet_reg: Reg, packet_end_reg: Reg)
    requires
        small(dbm),
        old(types).wf(),
    ensures
        final(types).wf(),
        final(types)@ == ranged(dbm@, old(types)@, packet_reg, packet_end_reg),
{
    let target: u32 = match types.get(packet_reg) {
        RegType::PtrToPacket { id, .. } => id,
        _ => {
            return ;
        },
    };
    let ghost before = types@;
    let mut i: usize = 0;
    while i < NUM_REGS
        invariant
            i <= NUM_REGS,
            small(dbm),
            types.wf(),
            before.len() == NUM_REGS,
            forall|k: int|
                0 <= k < NUM_REGS ==> (#[trigger] types.regs@[k]) == if k < i {
                    reaching(
                        before[k],
                        target,
                        bounds_of(dbm@, all_regs()[k + 1], packet_end_reg).1,
                    )
                } else {
                    before[k]
                },
        decreases NUM_REGS - i,
    {
        let r: Reg = RegEnv.var_of_index(i + 1);
        if let RegType::PtrToPacket { id, range } = types.regs[i] {
            let (_, ub) = get_bounds(dbm, r, packet_end_reg);
            if let Some(upper) = ub {
                if id == target && upper <= 0 {
                    let proved: u64 = (-(upper as i128)) as u64;
                    if proved > range {
                        types.regs[i] = RegType::PtrToPacket { id, range: proved };
                    }
                }
            }
        }
        i = i + 1;
    }
    assert(types@ =~= ranged(dbm@, before, packet_reg, packet_end_reg));
}

/// Learning more about a range never makes it shorter.
pub proof fn law_reaching_only_lengthens(t: RegType, id: u32, upper: Option<i64>)
    ensures
        match (t, reaching(t, id, upper)) {
            (RegType::PtrToPacket { id: i, range: r }, RegType::PtrToPacket { id: j, range: s }) => {
                i == j && r <= s
            },
            (_, u) => u == t,
        },
{
}

/// The values where the condition holds.
pub open spec fn taken(z: Zone, left: Reg, op: CmpOp, right: Operand, zero: Reg) -> Zone {
    match (op, right) {
        (CmpOp::UGe, Operand::Imm(c)) => at_least(z, left, zero, Some(c)),
        (CmpOp::ULe, Operand::Imm(c)) => at_most(z, left, zero, Some(c)),
        (CmpOp::UGt, Operand::Imm(c)) => at_least(z, left, zero, Some(wadd(c, 1))),
        (CmpOp::ULt, Operand::Imm(c)) => at_most(z, left, zero, Some(wadd(c, (-1) as i64))),
        (CmpOp::UGe, Operand::Reg(r)) => stated(z, r, left, 0),
        (CmpOp::ULe, Operand::Reg(r)) => stated(z, left, r, 0),
        (CmpOp::UGt, Operand::Reg(r)) => stated(z, r, left, (-1) as i64),
        (CmpOp::ULt, Operand::Reg(r)) => stated(z, left, r, (-1) as i64),
        (CmpOp::Eq, _) => z,
        (CmpOp::Ne, _) => z,
    }
}

/// The values where the condition does not hold.
pub open spec fn passed(z: Zone, left: Reg, op: CmpOp, right: Operand, zero: Reg) -> Zone {
    match (op, right) {
        (CmpOp::UGe, Operand::Imm(c)) => at_most(z, left, zero, Some(wadd(c, (-1) as i64))),
        (CmpOp::ULe, Operand::Imm(c)) => at_least(z, left, zero, Some(wadd(c, 1))),
        (CmpOp::UGt, Operand::Imm(c)) => at_most(z, left, zero, Some(c)),
        (CmpOp::ULt, Operand::Imm(c)) => at_least(z, left, zero, Some(c)),
        (CmpOp::Ne, Operand::Imm(c)) => exactly(z, left, zero, c),
        (CmpOp::UGe, Operand::Reg(r)) => stated(z, left, r, (-1) as i64),
        (CmpOp::ULe, Operand::Reg(r)) => stated(z, r, left, (-1) as i64),
        (CmpOp::UGt, Operand::Reg(r)) => stated(z, left, r, 0),
        (CmpOp::ULt, Operand::Reg(r)) => stated(z, r, left, 0),
        (CmpOp::Eq, _) => z,
        (CmpOp::Ne, _) => z,
    }
}

/// The types where the condition holds: a packet pointer compared with the
/// packet's end learns its range.
pub open spec fn taken_types(
    z: Zone,
    types: Seq<RegType>,
    left: Reg,
    op: CmpOp,
    right: Operand,
) -> Seq<RegType> {
    match (op, right) {
        (CmpOp::ULe, Operand::Reg(r)) => if type_of(types, left) is PtrToPacket && type_of(
            types,
            r,
        ) is PtrToPacketEnd {
            ranged(z, types, left, r)
        } else {
            types
        },
        (CmpOp::ULt, Operand::Reg(r)) => if type_of(types, left) is PtrToPacket && type_of(
            types,
            r,
        ) is PtrToPacketEnd {
            ranged(z, types, left, r)
        } else {
            types
        },
        (CmpOp::UGt, Operand::Reg(r)) => if type_of(types, left) is PtrToPacketEnd && type_of(
            types,
            r,
        ) is PtrToPacket {
            ranged(z, types, r, left)
        } else {
            types
        },
        _ => types,
    }
}

/// A comparison of low halves tells something only about a register that is
/// known to have no high half, and only against a constant.
pub open spec fn informative(z: Zone, width: Width, left: Reg, right: Operand, zero: Reg) -> bool {
    width is W64 || right is Imm && fits_u32(z, left, zero)
}

/// A side of a jump, unless no values are left on it.
pub open spec fn side(n: Next) -> Seq<Next> {
    if n.zone.inconsistent() { Seq::empty() } else { seq![n] }
}

/// The states a conditional jump leads to.
pub open spec fn branched(
    ctx: &ExecContext,
    z: Zone,
    pc: usize,
    width: Width,
    left: Reg,
    op: CmpOp,
    right: Operand,
    target: usize,
    types: Seq<RegType>,
) -> Seq<Next> {
    let next = (pc + 1) as usize;
    if informative(z, width, left, right, ctx.zero) {
        let then = taken(z, left, op, right, ctx.zero);
        side(Next { pc: target, zone: then, types: taken_types(then, types, left, op, right) })
            + side(Next { pc: next, zone: passed(z, left, op, right, ctx.zero), types })
    } else {
        seq![Next { pc: next, zone: z, types }, Next { pc: target, zone: z, types }]
    }
}

fn assume_taken(dbm: &mut Dbm, left: Reg, op: CmpOp, right: Operand, zero: Reg)
    requires
        small(old(dbm)),
    ensures
        small(final(dbm)),
        final(dbm)@ == taken(old(dbm)@, left, op, right, zero),
{
    match (op, right) {
        (CmpOp::UGe, Operand::Imm(c)) => assume_ge_const(dbm, left, zero, c),
        (CmpOp::ULe, Operand::Imm(c)) => assume_le_const(dbm, left, zero, c),
        (CmpOp::UGt, Operand::Imm(c)) => assume_ge_const(dbm, left, zero, wadd(c, 1)),
        (CmpOp::ULt, Operand::Imm(c)) => assume_less_than(dbm, left, zero, c),
        (CmpOp::UGe, Operand::Reg(r)) => assume_ge_var(dbm, left, r),
        (CmpOp::ULe, Operand::Reg(r)) => assume_le_var(dbm, left, r),
        (CmpOp::UGt, Operand::Reg(r)) => assume_gt_var(dbm, left, r),
        (CmpOp::ULt, Operand::Reg(r)) => assume_le_var_plus_const(dbm, left, r, -1),
        (CmpOp::Eq, _) => {},
        (CmpOp::Ne, _) => {},
    }
}

fn assume_passed(dbm: &mut Dbm, left: Reg, op: CmpOp, right: Operand, zero: Reg)
    requires
        small(old(dbm)),
    ensures
        small(final(dbm)),
        final(dbm)@ == passed(old(dbm)@, left, op, right, zero),
{
    match (op, right) {
        (CmpOp::UGe, Operand::Imm(c)) => assume_less_than(dbm, left, zero, c),
        (CmpOp::ULe, Operand::Imm(c)) => assume_ge_const(dbm, left, zero, wadd(c, 1)),
        (CmpOp::UGt, Operand::Imm(c)) => assume_le_const(dbm, left, zero, c),
        (CmpOp::ULt, Operand::Imm(c)) => assume_ge_const(dbm, left, zero, c),
        (CmpOp::Ne, Operand::Imm(c)) => assume_eq_const(dbm, left, zero, c),
        (CmpOp::UGe, Operand::Reg(r)) => assume_le_var_plus_const(dbm, left, r, -1),
        (CmpOp::ULe, Operand::Reg(r)) => assume_gt_var(dbm, left, r),
        (CmpOp::UGt, Operand::Reg(r)) => assume_le_var(dbm, left, r),
        (CmpOp::ULt, Operand::Reg(r)) => assume_ge_var(dbm, left, r),
        (CmpOp::Eq, _) => {},
        (CmpOp::Ne, _) => {},
    }
}

fn learn_ranges(dbm: &Dbm, types: &mut RegTypeState, left: Reg, op: CmpOp, right: Operand)
    requires
        small(dbm),
        old(types).wf(),
    ensures
        final(types).wf(),
        final(types)@ == taken_types(dbm@, old(types)@, left, op, right),
{
    if let Operand::Reg(r) = right {
        let l: RegType = types.get(left);
        let e: RegType = types.get(r);
        match op {
            CmpOp::ULe | CmpOp::ULt => {
                if matches!(l, RegType::PtrToPacket { .. }) && matches!(e, RegType::PtrToPacketEnd) {
                    update_packet_ranges(dbm, types, left, r);
                }
            },
            CmpOp::UGt => {
                if matches!(l, RegType::PtrToPacketEnd) && matches!(e, RegType::PtrToPacket { .. }) {
                    update_packet_ranges(dbm, types, r, left);
                }
            },
            _ => {},
        }
    }
}

/// The states a conditional jump leads to.
pub fn transfer_if(
    ctx: &ExecContext,
    dbm_in: &Dbm,
    pc: usize,
    width: Width,
    left: Reg,
    op: CmpOp,
    right: Operand,
    target: usize,
    reg_types_in: &RegTypeState,
) -> (r: Vec<Successor>)
    requires
        small(dbm_in),
        reg_types_in.wf(),
        pc < usize::MAX,
    ensures
        all_wf(r@),
        nexts(r@) == branched(ctx, dbm_in@, pc, width, left, op, right, target, reg_types_in@),
{
    let mut out: Vec<Successor> = Vec::new();
    let informed: bool = match (width, right) {
        (Width::W64, _) => true,
        (_, Operand::Imm(_)) => proven_u32_range(dbm_in, left, ctx.zero),
        _ => false,
    };
    if !informed {
        out.push(Successor { pc: pc + 1, dbm: dbm_in.clone(), types: reg_types_in.clone() });
        out.push(Successor { pc: target, dbm: dbm_in.clone(), types: reg_types_in.clone() });
        assert(nexts(out@) =~= branched(
            ctx,
            dbm_in@,
            pc,
            width,
            left,
            op,
            right,
            target,
            reg_types_in@,
        ));
        return out;
    }
    let mut dbm_then: Dbm = dbm_in.clone();
    let mut types_then: RegTypeState = reg_types_in.clone();
    assume_taken(&mut dbm_then, left, op, right, ctx.zero);
    learn_ranges(&dbm_then, &mut types_then, left, op, right);
    let mut dbm_else: Dbm = dbm_in.clone();
    assume_passed(&mut dbm_else, left, op, right, ctx.zero);
    if !dbm_then.is_inconsistent() {
        out.push(Successor { pc: target, dbm: dbm_then, types: types_then });
    }
    if !dbm_else.is_inconsistent() {
        out.push(Successor { pc: pc + 1, dbm: dbm_else, types: reg_types_in.clone() });
    }
    assert(nexts(out@) =~= branched(
        ctx,
        dbm_in@,
        pc,
        width,
        left,
        op,
        right,
        target,
        reg_types_in@,
    ));
    out
}

} // verus!
