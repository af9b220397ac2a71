//! Loads and stores, and calls of helpers.
use crate::ast::MemSize;
use crate::compact::context::{all_wf, nexts, only, AnalysisStats, ExecContext, Next, Successor};
use crate::compact::ctx_model::{classify_tc_ctx_field, tc_field, CtxFieldKind};
use crate::compact::domain::{
    all_regs, bounds_of, forget, forgotten, get_bounds, new_packet_id, small, type_of, with_type,
    Reg, RegEnv, RegType, RegTypeState, NUM_VARS,
};
use crate::domains::zone::dbm::{Dbm, Zone};
use crate::machine::find::{first_where, lemma_first_where_at, lemma_first_where_none};
use crate::machine::ids::IdCounter;
use crate::machine::layout::BpfMapDef;
use crate::num::wadd;
use vstd::prelude::*;

verus! {

pub open spec fn spec_access_size(size: MemSize) -> i64 {
    match size {
        MemSize::U8 => 1,
        MemSize::U16 => 2,
        MemSize::U32 => 4,
        MemSize::U64 => 8,
    }
}

/// Bytes of an access.
#[verifier::when_used_as_spec(spec_access_size)]
pub fn access_size(size: MemSize) -> (r: i64)
    ensures
        r == spec_access_size(size),
        1 <= r <= 8,
{
    match size {
        MemSize::U8 => 1,
        MemSize::U16 => 2,
        MemSize::U32 => 4,
        MemSize::U64 => 8,
    }
}

/// The access is known to be in the stack.
pub open spec fn in_stack(ctx: &ExecContext, z: Zone, base: Reg, off: i16, size: MemSize) -> bool {
    match bounds_of(z, base, ctx.zero) {
        (Some(lo), Some(hi)) => wadd(lo, off as i64) >= ctx.stack_min && wadd(
            wadd(hi, off as i64),
            (access_size(size) - 1) as i64,
        ) <= ctx.stack_max,
        _ => false,
    }
}

fn is_in_stack(ctx: &ExecContext, dbm: &Dbm, base: Reg, off: i16, size: MemSize) -> (r: bool)
    requires
        small(dbm),
    ensures
        r == in_stack(ctx, dbm@, base, off, size),
{
    match get_bounds(dbm, base, ctx.zero) {
        (Some(lo), Some(hi)) => {
            wadd(lo, off as i64) >= ctx.stack_min && wadd(wadd(hi, off as i64), access_size(size) - 1)
                <= ctx.stack_max
        },
        _ => false,
    }
}

/// Variables that hold the packet's end.
pub open spec fn holds_end(types: Seq<RegType>) -> spec_fn(Reg) -> bool {
    |r: Reg| type_of(types, r) is PtrToPacketEnd
}

/// The first variable that holds the packet's end.
pub open spec fn end_reg(types: Seq<RegType>) -> Option<Reg> {
    first_where(all_regs(), holds_end(types))
}

fn find_end(types: &RegTypeState) -> (r: Option<Reg>)
    requires
        types.wf(),
    ensures
        r == end_reg(types@),
{
    let all: Vec<Reg> = RegEnv.all();
    let ghost p = holds_end(types@);
    let mut i: usize = 0;
    while i < NUM_VARS
        invariant
            i <= NUM_VARS,
            types.wf(),
            all@ == all_regs(),
            p == holds_end(types@),
            forall|k: int| 0 <= k < i ==> !p(#[trigger] all_regs()[k]),
        decreases NUM_VARS - i,
    {
        let r: Reg = all[i];
        if matches!(types.get(r), RegType::PtrToPacketEnd) {
            proof {
                assert(p(all_regs()[i as int]));
                lemma_first_where_at(all_regs(), p, i as int);
            }
            return Some(r);
        }
        i = i + 1;
    }
    proof {
        lemma_first_where_none(all_regs(), p);
    }
    None
}

/// The access is known to be in the packet, by the pointer's range or by its
/// distance from the packet's end.
pub open spec fn in_packet(
    z: Zone,
    types: Seq<RegType>,
    base: Reg,
    range: u64,
    off: i16,
    size: MemSize,
) -> bool {
    let end = off + access_size(size);
    if off >= 0 && end <= range {
        true
    } else {
        match end_reg(types) {
            Some(e) => match bounds_of(z, base, e).1 {
                Some(upper) => upper <= -end,
                None => false,
            },
            None => false,
        }
    }
}

fn is_in_packet(dbm: &Dbm, types: &RegTypeState, base: Reg, range: u64, off: i16, size: MemSize) -> (r:
    bool)
    requires
        small(dbm),
        types.wf(),
    ensures
        r == in_packet(dbm@, types@, base, range, off, size),
{
    let end: i64 = off as i64 + access_size(size);
    if off >= 0 && end as u64 <= range {
        return true;
    }
    match find_end(types) {
        Some(e) => {
            let (_, ub) = get_bounds(dbm, base, e);
            match ub {
                Some(upper) => upper <= -end,
                None => false,
            }
        },
        None => false,
    }
}

/// A load from a base of this type is known to be safe.
pub open spec fn load_is_safe(
    ctx: &ExecContext,
    z: Zone,
    types: Seq<RegType>,
    base: Reg,
    base_type: RegType,
    off: i16,
    size: MemSize,
) -> bool {
    match base_type {
        RegType::PtrToStack => in_stack(ctx, z, base, off, size),
        RegType::PtrToPacket { range, .. } => in_packet(z, types, base, range, off, size),
        RegType::PtrToCtx => true,
        RegType::PtrToMem { .. } => true,
        _ => false,
    }
}

/// The type of what a load yields.
pub open spec fn loaded_type(base_type: RegType, off: i16, size: MemSize, id: u32) -> RegType {
    if base_type is PtrToCtx {
        match tc_field(off, size) {
            CtxFieldKind::PacketStart => RegType::PtrToPacket { id, range: 0 },
            CtxFieldKind::PacketEnd => RegType::PtrToPacketEnd,
            CtxFieldKind::PtrToMem { region } => RegType::PtrToMem { region },
            _ => RegType::ScalarValue,
        }
    } else {
        RegType::ScalarValue
    }
}

/// Identities in use after a load.
pub open spec fn ids_after_load(base_type: RegType, off: i16, size: MemSize, ids: IdCounter) -> IdCounter {
    if base_type is PtrToCtx && tc_field(off, size) is PacketStart {
        ids.after()
    } else {
        ids
    }
}

fn type_of_load(base_type: RegType, off: i16, size: MemSize, ids: &mut IdCounter) -> (r: RegType)
    ensures
        r == loaded_type(base_type, off, size, old(ids).next),
        *final(ids) == ids_after_load(base_type, off, size, *old(ids)),
{
    match base_type {
        RegType::PtrToCtx => match classify_tc_ctx_field(off, size) {
            Some(CtxFieldKind::PacketStart) => RegType::PtrToPacket {
                id: new_packet_id(ids),
                range: 0,
            },
            Some(CtxFieldKind::PacketEnd) => RegType::PtrToPacketEnd,
            Some(CtxFieldKind::PtrToMem { region }) => RegType::PtrToMem { region },
            _ => RegType::ScalarValue,
        },
        _ => RegType::ScalarValue,
    }
}

/// The next instruction after a load. An unsafe load is marked, and the
/// analysis goes on.
pub fn transfer_load(
    ctx: &ExecContext,
    dbm_in: &Dbm,
    pc: usize,
    size: MemSize,
    dst: Reg,
    base: Reg,
    base_type: RegType,
    off: i16,
    stats: &mut AnalysisStats,
    reg_types: &RegTypeState,
    ids: &mut IdCounter,
) -> (r: Vec<Successor>)
    requires
        small(dbm_in),
        reg_types.wf(),
        pc < usize::MAX,
    ensures
        all_wf(r@),
        nexts(r@) == seq![
            (Next {
                pc: (pc + 1) as usize,
                zone: forgotten(dbm_in@, dst),
                types: with_type(
                    reg_types@,
                    dst,
                    loaded_type(base_type, off, size, old(ids).next),
                ),
            }),
        ],
        *final(ids) == ids_after_load(base_type, off, size, *old(ids)),
        *final(stats) == if load_is_safe(ctx, dbm_in@, reg_types@, base, base_type, off, size) {
            *old(stats)
        } else {
            old(stats).with_unsafe_load()
        },
{
    let mut dbm: Dbm = dbm_in.clone();
    let mut next_types: RegTypeState = reg_types.clone();
    let safe: bool = match base_type {
        RegType::PtrToStack => is_in_stack(ctx, dbm_in, base, off, size),
        RegType::PtrToPacket { range, .. } => is_in_packet(
            dbm_in,
            reg_types,
            base,
            range,
            off,
            size,
        ),
        RegType::PtrToCtx => true,
        RegType::PtrToMem { .. } => true,
        _ => false,
    };
    if !safe {
        stats.mark_unsafe_load();
    }
    let t: RegType = type_of_load(base_type, off, size, ids);
    next_types.set(dst, t);
    forget(&mut dbm, dst);
    only(pc + 1, dbm, next_types)
}

/// Bytes of a map's value; of an unknown map, a page.
pub open spec fn value_limit(defs: Seq<BpfMapDef>, map_idx: usize) -> i64 {
    if map_idx < defs.len() { defs[map_idx as int].value_size as i64 } else { 4096 }
}

/// A store to a base of this type is known to be safe.
pub open spec fn store_is_safe(
    ctx: &ExecContext,
    z: Zone,
    types: Seq<RegType>,
    base: Reg,
    off: i16,
    size: MemSize,
) -> bool {
    match type_of(types, base) {
        RegType::PtrToMapValue { offset, map_idx } => {
            let at = wadd(offset, off as i64);
            at >= 0 && wadd(at, access_size(size)) <= value_limit(ctx.map_defs@, map_idx)
        },
        RegType::PtrToStack => in_stack(ctx, z, base, off, size),
        RegType::PtrToPacket { range, .. } => in_packet(z, types, base, range, off, size),
        RegType::PtrToCtx => true,
        RegType::PtrToMem { .. } => true,
        _ => false,
    }
}

/// The next instruction after a store. An unsafe store is marked and stops
/// the analysis.
pub fn transfer_store(
    ctx: &ExecContext,
    dbm_in: &Dbm,
    pc: usize,
    size: MemSize,
    base: Reg,
    off: i16,
    stats: &mut AnalysisStats,
    reg_types: &RegTypeState,
) -> (r: Vec<Successor>)
    requires
        small(dbm_in),
        reg_types.wf(),
        pc < usize::MAX,
    ensures
        all_wf(r@),
        store_is_safe(ctx, dbm_in@, reg_types@, base, off, size) ==> {
            &&& nexts(r@) == seq![
                (Next { pc: (pc + 1) as usize, zone: dbm_in@, types: reg_types@ }),
            ]
            &&& *final(stats) == *old(stats)
        },
        !store_is_safe(ctx, dbm_in@, reg_types@, base, off, size) ==> {
            &&& r@.len() == 0
            &&& *final(stats) == old(stats).with_unsafe_store().stopped()
        },
{
    let safe: bool = match reg_types.get(base) {
        RegType::PtrToMapValue { offset, map_idx } => {
            let at: i64 = wadd(offset, off as i64);
            let limit: i64 = if map_idx < ctx.map_defs.len() {
                ctx.map_defs[map_idx].value_size as i64
            } else {
                4096
            };
            at >= 0 && wadd(at, access_size(size)) <= limit
        },
        RegType::PtrToStack => is_in_stack(ctx, dbm_in, base, off, size),
        RegType::PtrToPacket { range, .. } => is_in_packet(
            dbm_in,
            reg_types,
            base,
            range,
            off,
            size,
        ),
        RegType::PtrToCtx => true,
        RegType::PtrToMem { .. } => true,
        _ => false,
    };
    if safe {
        only(pc + 1, dbm_in.clone(), reg_types.clone())
    } else {
        stats.mark_unsafe_store();
        stats.abort = true;
        Vec::new()
    }
}

/// The values after a call: nothing is known of the result and of the
/// argument registers.
pub open spec fn after_call(z: Zone) -> Zone {
    forgotten(
        forgotten(
            forgotten(
                forgotten(forgotten(forgotten(z, Reg::R1), Reg::R2), Reg::R3),
                Reg::R4,
            ),
            Reg::R5,
        ),
        Reg::R0,
    )
}

/// The types after a call: the argument registers are numbers, and the result
/// is given.
pub open spec fn call_types(types: Seq<RegType>, result: RegType) -> Seq<RegType> {
    let t = with_type(types, Reg::R1, RegType::ScalarValue);
    let t = with_type(t, Reg::R2, RegType::ScalarValue);
    let t = with_type(t, Reg::R3, RegType::ScalarValue);
    let t = with_type(t, Reg::R4, RegType::ScalarValue);
    let t = with_type(t, Reg::R5, RegType::ScalarValue);
    with_type(t, Reg::R0, result)
}

/// The type of a call's result: a lookup (helper 1) yields a value or null.
pub open spec fn call_result(helper: u32, map_idx: usize, id: u32) -> RegType {
    if helper == 1 {
        RegType::PtrToMapValueOrNull { id, map_idx }
    } else {
        RegType::ScalarValue
    }
}

/// Identities in use after a call.
pub open spec fn ids_after_call(helper: u32, ids: IdCounter) -> IdCounter {
    if helper == 1 { ids.after() } else { ids }
}

fn set_call_types(types: &mut RegTypeState, helper: u32, map_idx: usize, ids: &mut IdCounter)
    requires
        old(types).wf(),
    ensures
        final(types).wf(),
        final(types)@ == call_types(old(types)@, call_result(helper, map_idx, old(ids).next)),
        *final(ids) == ids_after_call(helper, *old(ids)),
{
    types.set(Reg::R1, RegType::ScalarValue);
    types.set(Reg::R2, RegType::ScalarValue);
    types.set(Reg::R3, RegType::ScalarValue);
    types.set(Reg::R4, RegType::ScalarValue);
    types.set(Reg::R5, RegType::ScalarValue);
    if helper == 1 {
        let id: u32 = new_packet_id(ids);
        types.set(Reg::R0, RegType::PtrToMapValueOrNull { id, map_idx });
    } else {
        types.set(Reg::R0, RegType::ScalarValue);
    }
}

/// The map that the first argument refers to.
pub open spec fn looked_up(types: Seq<RegType>) -> usize {
    match type_of(types, Reg::R1) {
        RegType::PtrToMapObject { map_idx } => map_idx,
        _ => usize::MAX,
    }
}

/// The next instruction after a call of a helper.
pub fn transfer_call(
    dbm_in: &Dbm,
    pc: usize,
    helper: u32,
    reg_types: &RegTypeState,
    ids: &mut IdCounter,
) -> (r: Vec<Successor>)
    requires
        small(dbm_in),
        reg_types.wf(),
        pc < usize::MAX,
    ensures
        all_wf(r@),
        nexts(r@) == seq![
            (Next {
                pc: (pc + 1) as usize,
                zone: after_call(dbm_in@),
                types: call_types(
                    reg_types@,
                    call_result(helper, looked_up(reg_types@), old(ids).next),
                ),
            }),
        ],
        *final(ids) == ids_after_call(helper, *old(ids)),
{
    let mut dbm: Dbm = dbm_in.clone();
    let mut next_types: RegTypeState = reg_types.clone();
    let map_idx: usize = match reg_types.get(Reg::R1) {
        RegType::PtrToMapObject { map_idx } => map_idx,
        _ => usize::MAX,
    };
    forget(&mut dbm, Reg::R1);
    forget(&mut dbm, Reg::R2);
    forget(&mut dbm, Reg::R3);
    forget(&mut dbm, Reg::R4);
    forget(&mut dbm, Reg::R5);
    forget(&mut dbm, Reg::R0);
    set_call_types(&mut next_types, helper, map_idx, ids);
    only(pc + 1, dbm, next_types)
}

/// Updates the types for a load.
pub fn update_load_types(
    types: &mut RegTypeState,
    size: MemSize,
    dst: Reg,
    base: Reg,
    off: i16,
    ids: &mut IdCounter,
)
    requires
        old(types).wf(),
    ensures
        final(types).wf(),
        final(types)@ == with_type(
            old(types)@,
            dst,
            loaded_type(type_of(old(types)@, base), off, size, old(ids).next),
        ),
        *final(ids) == ids_after_load(type_of(old(types)@, base), off, size, *old(ids)),
{
    let base_type: RegType = types.get(base);
    let t: RegType = type_of_load(base_type, off, size, ids);
    types.set(dst, t);
}

/// Updates the types for a call. A lookup is taken to be in the first map.
pub fn update_call_types(types: &mut RegTypeState, helper: u32, ids: &mut IdCounter)
    requires
        old(types).wf(),
    ensures
        final(types).wf(),
        final(types)@ == call_types(old(types)@, call_result(helper, 0, old(ids).next)),
        *final(ids) == ids_after_call(helper, *old(ids)),
{
    set_call_types(types, helper, 0, ids);
}

} // verus!
