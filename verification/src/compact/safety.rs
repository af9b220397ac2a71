//! What it means for the analysis to let a load, a store or a call through, and
//! what the types of registers promise.
use crate::ast::{MemSize, Width};
use crate::compact::analyze::{
    accounted, entry_types, law_finished_analyses_find_everything, run, start,
};
use crate::compact::alu::flow_type;
use crate::compact::ast::{AluOp, Instr, Operand};
use crate::compact::branch::branch_types;
use crate::compact::context::{AnalysisStats, ExecContext};
use crate::compact::domain::{
    all_regs, join_reg_type, type_of, with_type, Reg, RegType, NUM_REGS,
};
use crate::compact::exec::{flowed, step};
use crate::compact::isa::{bytes, condition, full, number};
use crate::compact::memory::{end_reg, holds_end};
use crate::compact::soundness::{at, good, law_stack_accesses_are_in_bounds, values};
use crate::domains::zone::dbm::{Zone, INF};
use crate::machine::find::law_first_where;
use crate::machine::ids::IdCounter;
use vstd::prelude::*;

verus! {

/// The type of a register is the one at its number; replacing it leaves the
/// others.
pub proof fn law_types_are_by_register(t: Seq<RegType>, r: Reg, q: Reg, ty: RegType)
    requires
        t.len() == NUM_REGS,
    ensures
        NUM_REGS == 11,
        !(r is Zero) ==> type_of(t, r) == t[number(r)],
        with_type(t, r, ty).len() == t.len(),
        !(r is Zero) ==> type_of(with_type(t, r, ty), r) == ty,
        q != r ==> type_of(with_type(t, r, ty), q) == type_of(t, q),
{
}

/// Nothing was found, and the analysis goes on at the next instruction.
pub open spec fn let_through(
    ctx: &ExecContext,
    z: Zone,
    pc: usize,
    instr: Instr,
    types: Seq<RegType>,
    ids: IdCounter,
) -> bool {
    let s = step(ctx, z, pc, instr, AnalysisStats::clean(), types, ids);
    &&& !s.stats.abort
    &&& !s.stats.dangerous
    &&& !s.stats.unsafe_stack_load
    &&& !s.stats.unsafe_stack_store
    &&& s.nexts.len() == 1
    &&& s.nexts[0].pc == pc + 1
}

/// A refused store is marked, stops the analysis, and leads nowhere.
pub open spec fn store_refused(
    ctx: &ExecContext,
    z: Zone,
    pc: usize,
    instr: Instr,
    types: Seq<RegType>,
    ids: IdCounter,
) -> bool {
    let s = step(ctx, z, pc, instr, AnalysisStats::clean(), types, ids);
    s.stats.abort && s.stats.dangerous && s.stats.unsafe_stack_store && s.nexts.len() == 0
}

/// A refused load is marked; the analysis goes on.
pub open spec fn load_refused(
    ctx: &ExecContext,
    z: Zone,
    pc: usize,
    instr: Instr,
    types: Seq<RegType>,
    ids: IdCounter,
) -> bool {
    let s = step(ctx, z, pc, instr, AnalysisStats::clean(), types, ids);
    s.stats.dangerous && s.stats.unsafe_stack_load && !s.stats.abort && s.nexts.len() == 1
        && s.nexts[0].pc == pc + 1
}

/// A store through a pointer to the value of a map that is defined is let
/// through exactly if all its bytes lie in the value; else it is refused.
/// (Left out are offsets whose sum with the access overflows.)
pub proof fn law_map_stores_lie_in_the_value(
    ctx: &ExecContext,
    z: Zone,
    pc: usize,
    types: Seq<RegType>,
    ids: IdCounter,
    size: MemSize,
    base: Reg,
    off: i16,
    src: Reg,
)
    requires
        pc < usize::MAX,
        type_of(types, base) matches RegType::PtrToMapValue { offset, map_idx } && map_idx
            < ctx.map_defs@.len() && i64::MIN <= offset + off && offset + off + bytes(size)
            <= i64::MAX,
    ensures
        ({
            let i = Instr::Store { size, base, off, src };
            let offset = type_of(types, base)->PtrToMapValue_offset;
            let map_idx = type_of(types, base)->PtrToMapValue_map_idx;
            let inside = 0 <= offset + off && offset + off + bytes(size)
                <= ctx.map_defs@[map_idx as int].value_size;
            &&& inside ==> let_through(ctx, z, pc, i, types, ids)
            &&& !inside ==> store_refused(ctx, z, pc, i, types, ids)
        }),
{
}

/// Types through which nothing can be stored.
pub open spec fn no_target(t: RegType) -> bool {
    t is NotInit || t is ScalarValue || t is Unknown || t is PtrToMapObject
        || t is PtrToMapValueOrNull || t is PtrToPacketEnd || t is PtrToPacketMeta || t is PtrToMapKey
}

/// A store through what is no pointer, or may be null, is refused, and a load
/// is marked. Loads from map values are not known to be safe either.
pub proof fn law_accesses_need_pointers(
    ctx: &ExecContext,
    z: Zone,
    pc: usize,
    types: Seq<RegType>,
    ids: IdCounter,
    size: MemSize,
    base: Reg,
    off: i16,
    r: Reg,
)
    requires
        pc < usize::MAX,
    ensures
        no_target(type_of(types, base)) ==> store_refused(
            ctx,
            z,
            pc,
            Instr::Store { size, base, off, src: r },
            types,
            ids,
        ),
        no_target(type_of(types, base)) || type_of(types, base) is PtrToMapValue ==> load_refused(
            ctx,
            z,
            pc,
            Instr::Load { size, dst: r, base, off },
            types,
            ids,
        ),
        type_of(types, base) is PtrToCtx || type_of(types, base) is PtrToMem ==> let_through(
            ctx,
            z,
            pc,
            Instr::Load { size, dst: r, base, off },
            types,
            ids,
        ) && let_through(ctx, z, pc, Instr::Store { size, base, off, src: r }, types, ids),
{
}

/// An access through a pointer to the stack that is let through touches only
/// bytes of the stack, whatever values the state allows.
pub proof fn law_stack_accesses_lie_in_the_stack(
    ctx: &ExecContext,
    z: Zone,
    pc: usize,
    types: Seq<RegType>,
    ids: IdCounter,
    size: MemSize,
    base: Reg,
    off: i16,
    r: Reg,
    v: spec_fn(int) -> int,
)
    requires
        ctx.zero is Zero,
        ctx.stack_min >= -0x4000_0000_0000_0000,
        type_of(types, base) is PtrToStack,
        good(z, v),
        values(ctx, v),
        let_through(ctx, z, pc, Instr::Load { size, dst: r, base, off }, types, ids) || let_through(
            ctx,
            z,
            pc,
            Instr::Store { size, base, off, src: r },
            types,
            ids,
        ),
    ensures
        ctx.stack_min <= at(v, base) + off,
        at(v, base) + off + bytes(size) - 1 <= ctx.stack_max,
{
    law_stack_accesses_are_in_bounds(ctx, z, base, off, size, v);
}

/// An access at a known place of the stack is let through exactly if it lies
/// in the stack.
pub proof fn law_known_stack_accesses_are_decided(
    ctx: &ExecContext,
    z: Zone,
    pc: usize,
    types: Seq<RegType>,
    ids: IdCounter,
    size: MemSize,
    base: Reg,
    off: i16,
    r: Reg,
    c: i64,
)
    requires
        pc < usize::MAX,
        ctx.zero is Zero,
        -0x1_0000_0000 <= c <= 0x1_0000_0000,
        type_of(types, base) is PtrToStack,
        z.m[base.idx() as int][0] == c,
        z.m[0][base.idx() as int] == -c,
    ensures
        ({
            let inside = ctx.stack_min <= c + off && c + off + bytes(size) - 1 <= ctx.stack_max;
            let load = Instr::Load { size, dst: r, base, off };
            let store = Instr::Store { size, base, off, src: r };
            &&& inside ==> let_through(ctx, z, pc, load, types, ids) && let_through(
                ctx,
                z,
                pc,
                store,
                types,
                ids,
            )
            &&& !inside ==> load_refused(ctx, z, pc, load, types, ids) && store_refused(
                ctx,
                z,
                pc,
                store,
                types,
                ids,
            )
        }),
{
}

proof fn lemma_end_reg(types: Seq<RegType>)
    ensures
        end_reg(types) matches Some(e) ==> type_of(types, e) is PtrToPacketEnd,
        end_reg(types) is None ==> forall|r: Reg| !(#[trigger] type_of(types, r) is PtrToPacketEnd),
{
    law_first_where(all_regs(), holds_end(types));
    if end_reg(types) is None {
        assert forall|r: Reg| !(#[trigger] type_of(types, r) is PtrToPacketEnd) by {
            assert(all_regs()[number(r) + 1] == r);
            assert(!holds_end(types)(r));
        }
    }
}

/// An access through a pointer to the packet that is let through ends in the
/// packet, if the pointer is as far from the end as its type says. If its type
/// says nothing, some register holds the packet's end.
pub proof fn law_packet_accesses_lie_in_the_packet(
    ctx: &ExecContext,
    z: Zone,
    pc: usize,
    types: Seq<RegType>,
    ids: IdCounter,
    size: MemSize,
    base: Reg,
    off: i16,
    r: Reg,
    v: spec_fn(int) -> int,
    end: int,
)
    requires
        type_of(types, base) matches RegType::PtrToPacket { range, .. } && at(v, base) + range
            <= end,
        forall|e: Reg| #[trigger] type_of(types, e) is PtrToPacketEnd ==> at(v, e) == end,
        good(z, v),
        let_through(ctx, z, pc, Instr::Load { size, dst: r, base, off }, types, ids) || let_through(
            ctx,
            z,
            pc,
            Instr::Store { size, base, off, src: r },
            types,
            ids,
        ),
    ensures
        at(v, base) + off + bytes(size) <= end,
        (forall|e: Reg| !(#[trigger] type_of(types, e) is PtrToPacketEnd)) ==> 0 <= off && off
            + bytes(size) <= type_of(types, base)->PtrToPacket_range,
{
    lemma_end_reg(types);
    if let Some(e) = end_reg(types) {
        assert(at(v, e) == end);
        assert(z.m[base.idx() as int][e.idx() as int] < INF ==> v(base.idx() as int) - v(
            e.idx() as int,
        ) <= z.m[base.idx() as int][e.idx() as int]);
    }
}

/// An access within the range of a packet pointer is let through; so is one
/// that a register with the packet's end shows to be in the packet, if it is
/// the only one.
pub proof fn law_checked_packet_accesses_are_let_through(
    ctx: &ExecContext,
    z: Zone,
    pc: usize,
    types: Seq<RegType>,
    ids: IdCounter,
    size: MemSize,
    base: Reg,
    off: i16,
    r: Reg,
    end: Reg,
)
    requires
        pc < usize::MAX,
        type_of(types, base) matches RegType::PtrToPacket { range, .. } && (0 <= off && off + bytes(
            size,
        ) <= range || type_of(types, end) is PtrToPacketEnd && z.m[base.idx() as int][end.idx() as int]
            <= -(off + bytes(size)) && z.m[base.idx() as int][end.idx() as int] < INF && forall|
            e: Reg,
        |
            #[trigger] type_of(types, e) is PtrToPacketEnd ==> e == end),
    ensures
        let_through(ctx, z, pc, Instr::Load { size, dst: r, base, off }, types, ids),
        let_through(ctx, z, pc, Instr::Store { size, base, off, src: r }, types, ids),
{
    lemma_end_reg(types);
}

/// A load yields a number, unless it reads the metadata field of the context:
/// no other load makes a pointer.
pub proof fn law_loads_yield_numbers(
    ctx: &ExecContext,
    z: Zone,
    pc: usize,
    types: Seq<RegType>,
    ids: IdCounter,
    size: MemSize,
    dst: Reg,
    base: Reg,
    off: i16,
)
    requires
        types.len() == NUM_REGS,
        !(dst is Zero),
        pc < usize::MAX,
    ensures
        ({
            let i = Instr::Load { size, dst, base, off };
            let after = flowed(ctx, i, types, pc, ids);
            let s = step(ctx, z, pc, i, AnalysisStats::clean(), types, ids);
            &&& s.nexts[0].types == after
            &&& if type_of(types, base) is PtrToCtx && off == 140 && bytes(size) == 4 {
                type_of(after, dst) is PtrToMem
            } else {
                type_of(after, dst) is ScalarValue
            }
            &&& forall|q: Reg| q != dst ==> #[trigger] type_of(after, q) == type_of(types, q)
        }),
{
}

/// A call uses up its arguments and keeps the other registers. A lookup yields
/// a value that may be missing, under an identity that was not used before;
/// any other call yields a number.
pub proof fn law_calls_are_typed(
    ctx: &ExecContext,
    z: Zone,
    pc: usize,
    types: Seq<RegType>,
    ids: IdCounter,
    helper: u32,
    q: Reg,
)
    requires
        types.len() == NUM_REGS,
        pc < usize::MAX,
    ensures
        ({
            let s = step(
                ctx,
                z,
                pc,
                Instr::Call { helper },
                AnalysisStats::clean(),
                types,
                ids,
            );
            let after = s.nexts[0].types;
            let flow = flowed(ctx, Instr::Call { helper }, types, pc, ids);
            &&& s.nexts.len() == 1 && s.nexts[0].pc == pc + 1
            &&& s.stats == AnalysisStats::clean()
            &&& 1 <= number(q) <= 5 ==> type_of(after, q) is ScalarValue && type_of(
                flow,
                q,
            ) is ScalarValue
            &&& 6 <= number(q) ==> type_of(after, q) == type_of(types, q) && type_of(flow, q)
                == type_of(types, q)
            &&& helper != 1 ==> type_of(after, Reg::R0) is ScalarValue && type_of(
                flow,
                Reg::R0,
            ) is ScalarValue
            &&& helper == 1 ==> {
                &&& type_of(after, Reg::R0) matches RegType::PtrToMapValueOrNull { id, map_idx }
                    && id == ids.next && (type_of(types, Reg::R1) matches RegType::PtrToMapObject {
                    map_idx: m,
                } ==> map_idx == m)
                &&& type_of(flow, Reg::R0) matches RegType::PtrToMapValueOrNull { id, .. } && id
                    == ids.next
                &&& ids.next < u32::MAX ==> s.ids.next != ids.next
            }
        }),
{
}

/// Where a lookup's result counts as found on one side of a jump, it is not
/// null there: the comparison holds, or fails, only of numbers other than zero.
pub proof fn law_found_values_are_not_null(
    instr: Instr,
    succ: usize,
    types: Seq<RegType>,
    q: Reg,
    x: int,
)
    requires
        types.len() == NUM_REGS,
        type_of(types, q) is PtrToMapValueOrNull,
        type_of(branch_types(instr, succ, types), q) is PtrToMapValue,
        0 <= x < full(),
        instr matches Instr::If { width, op, right: Operand::Imm(c), target, .. } && condition(
            width,
            op,
            x,
            c as int % full(),
        ) == (succ == target),
    ensures
        x != 0,
        instr matches Instr::If { left, .. } && same_lookup(type_of(types, left), type_of(types, q)),
        type_of(branch_types(instr, succ, types), q) == (RegType::PtrToMapValue {
            offset: 0,
            map_idx: type_of(types, q)->PtrToMapValueOrNull_map_idx,
        }),
{
}

/// Both are results of the same lookup.
pub open spec fn same_lookup(a: RegType, b: RegType) -> bool {
    match (a, b) {
        (RegType::PtrToMapValueOrNull { id: i, .. }, RegType::PtrToMapValueOrNull { id: j, .. }) => {
            i == j
        },
        _ => false,
    }
}

/// A check for null is understood: after `!= 0` or `> 0` was found to hold, or
/// `== 0` was found not to, the result and all its copies are values from their
/// start on; nothing else changes type.
pub proof fn law_null_checks_are_understood(
    instr: Instr,
    succ: usize,
    types: Seq<RegType>,
    q: Reg,
)
    requires
        types.len() == NUM_REGS,
    ensures
        ({
            let after = branch_types(instr, succ, types);
            &&& after.len() == types.len()
            &&& type_of(after, q) == type_of(types, q) || type_of(types, q) is PtrToMapValueOrNull
                && type_of(after, q) is PtrToMapValue
            &&& match instr {
                Instr::If { op, left, right: Operand::Imm(c), target, .. } => {
                    &&& c == 0
                    &&& (op is Ne || op is UGt) && succ == target || op is Eq && succ != target
                    &&& same_lookup(type_of(types, left), type_of(types, q))
                },
                _ => false,
            } ==> type_of(after, q) is PtrToMapValue
        }),
{
}

/// A pointer type that stands where paths meet was there on each path that has
/// one, and promises no more than either: a packet pointer has no longer a
/// range.
pub proof fn law_joined_types_promise_no_more(a: RegType, b: RegType)
    ensures
        ({
            let j = join_reg_type(a, b);
            &&& j is Unknown || (a is NotInit || a == j || (a matches RegType::PtrToPacket {
                id: i,
                range: r,
            } && j matches RegType::PtrToPacket { id: k, range: m } && i == k && m <= r))
            &&& j is Unknown || (b is NotInit || b == j || (b matches RegType::PtrToPacket {
                id: i,
                range: r,
            } && j matches RegType::PtrToPacket { id: k, range: m } && i == k && m <= r))
            &&& j is NotInit ==> a is NotInit && b is NotInit
            &&& j is Unknown ==> a != b || a is Unknown
        }),
{
}

/// Pointers move with the constants that are added: a pointer to a map value
/// stays that many bytes from the value's start, a packet pointer that many
/// bytes nearer to the packet's end. A move copies the type; all other
/// arithmetic, and all that is done to low halves, makes numbers.
pub proof fn law_pointers_move_with_constants(
    ctx: &ExecContext,
    pc: usize,
    types: Seq<RegType>,
    width: Width,
    op: AluOp,
    dst: Reg,
    src: Operand,
)
    ensures
        ({
            let t = type_of(types, dst);
            let u = flow_type(ctx, pc, types, width, op, dst, src);
            let step = match (op, src) {
                (AluOp::Add, Operand::Imm(k)) => Some(k as int),
                (AluOp::Sub, Operand::Imm(k)) => Some(-k),
                _ => None,
            };
            &&& width is W32 ==> u is ScalarValue
            &&& width is W64 && op is Mov ==> match src {
                Operand::Reg(r) => u == type_of(types, r),
                Operand::Imm(_) => if ctx.pc_to_map_idx@.contains_key(pc) {
                    u == (RegType::PtrToMapObject { map_idx: ctx.pc_to_map_idx@[pc] })
                } else {
                    u is ScalarValue
                },
            }
            &&& !(op is Mov) && step is None ==> u is ScalarValue
            &&& width is W64 && step is Some ==> match t {
                RegType::PtrToMapValue { offset, map_idx } => u matches RegType::PtrToMapValue {
                    offset: o,
                    map_idx: m,
                } && m == map_idx && (i64::MIN <= offset + step->0 <= i64::MAX && i64::MIN
                    < step->0 ==> o == offset + step->0),
                RegType::PtrToPacket { id, range } => u matches RegType::PtrToPacket {
                    id: i,
                    range: r,
                } && i == id && (0 <= range - step->0 <= u64::MAX ==> r == range - step->0) && (
                range - step->0 < 0 ==> r == 0),
                RegType::PtrToStack => u == t,
                RegType::PtrToCtx => u == t,
                RegType::ScalarValue => u is ScalarValue,
                RegType::NotInit => u is ScalarValue,
                RegType::Unknown => u is ScalarValue,
                RegType::PtrToMapValueOrNull { .. } => u is ScalarValue,
                RegType::PtrToMapObject { .. } => u is ScalarValue,
                _ => true,
            }
        }),
{
}

/// At the start a program has its context in R1, a pointer to its stack in
/// R10, and a number in R0; the other registers are not initialized.
pub proof fn law_programs_start_with_their_context(ctx: &ExecContext, q: Reg)
    requires
        ctx.r10 == Reg::R10,
    ensures
        entry_types(ctx).len() == NUM_REGS,
        type_of(entry_types(ctx), Reg::R1) is PtrToCtx,
        type_of(entry_types(ctx), Reg::R10) is PtrToStack,
        type_of(entry_types(ctx), Reg::R0) is ScalarValue,
        2 <= number(q) <= 9 ==> type_of(entry_types(ctx), q) is NotInit,
{
}

/// Where an analysis ends without stopping early, every store through a
/// pointer to the value of a defined map lies in the value, and none goes
/// through what is no pointer. If no unsafe load was found either, no load goes
/// through what is no pointer.
pub proof fn law_accepted_programs_store_where_they_may(
    ctx: &ExecContext,
    instrs: Seq<Instr>,
    entry: Zone,
    k: nat,
    pc: int,
)
    requires
        0 < instrs.len() <= usize::MAX,
        run(
            ctx,
            instrs,
            start(ctx, instrs.len(), entry, AnalysisStats::clean()),
            k,
        ).finished(),
        !run(
            ctx,
            instrs,
            start(ctx, instrs.len(), entry, AnalysisStats::clean()),
            k,
        ).stats.abort,
        0 <= pc < run(
            ctx,
            instrs,
            start(ctx, instrs.len(), entry, AnalysisStats::clean()),
            k,
        ).states.len(),
        run(
            ctx,
            instrs,
            start(ctx, instrs.len(), entry, AnalysisStats::clean()),
            k,
        ).states[pc] is Some,
    ensures
        ({
            let p = run(ctx, instrs, start(ctx, instrs.len(), entry, AnalysisStats::clean()), k);
            let types = p.types[pc]->0;
            match instrs[pc] {
                Instr::Store { size, base, off, .. } => {
                    &&& !no_target(type_of(types, base))
                    &&& type_of(types, base) matches RegType::PtrToMapValue { offset, map_idx } ==> (
                    map_idx < ctx.map_defs@.len() && i64::MIN <= offset + off && offset + off + bytes(
                        size,
                    ) <= i64::MAX ==> 0 <= offset + off && offset + off + bytes(size)
                        <= ctx.map_defs@[map_idx as int].value_size)
                },
                Instr::Load { base, .. } => !p.stats.unsafe_stack_load ==> !no_target(
                    type_of(types, base),
                ),
                _ => true,
            }
        }),
{
    law_finished_analyses_find_everything(ctx, instrs, entry, AnalysisStats::clean(), k);
    let p = run(ctx, instrs, start(ctx, instrs.len(), entry, AnalysisStats::clean()), k);
    assert(accounted(ctx, instrs, p, pc));
}

} // verus!
