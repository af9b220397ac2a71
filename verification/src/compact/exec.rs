//! One step of a program: the states an instruction leads to, and the types
//! that flow along each edge.
use crate::compact::alu::{
    computed, flow_type, result_type, swapped, transfer_alu, transfer_endian, transfer_mov_arg0,
    update_alu_types,
};
use crate::compact::ast::Instr;
use crate::compact::branch::{branched, transfer_if};
use crate::compact::context::{all_wf, nexts, only, AnalysisStats, ExecContext, Next, Successor};
use crate::compact::domain::{
    forgotten, no_types, small, type_of, with_type, RegType, RegTypeState,
};
use crate::compact::memory::{
    after_call, call_result, call_types, ids_after_call, ids_after_load, load_is_safe, loaded_type,
    looked_up, store_is_safe, transfer_call, transfer_load, transfer_store, update_call_types,
    update_load_types,
};
use crate::domains::zone::dbm::{Dbm, Zone};
use crate::machine::ids::IdCounter;
use vstd::prelude::*;

verus! {

/// What a step leads to.
pub ghost struct Step {
    pub nexts: Seq<Next>,
    pub stats: AnalysisStats,
    pub ids: IdCounter,
}

/// What a step from a state leads to.
pub open spec fn step(
    ctx: &ExecContext,
    z: Zone,
    pc: usize,
    instr: Instr,
    stats: AnalysisStats,
    types: Seq<RegType>,
    ids: IdCounter,
) -> Step {
    let next = (pc + 1) as usize;
    match instr {
        Instr::MovArg0 { dst } => Step {
            nexts: seq![Next { pc: next, zone: forgotten(z, dst), types: no_types() }],
            stats,
            ids,
        },
        Instr::Alu { width, op, dst, src } => {
            let after = computed(ctx, z, width, op, dst, src);
            if after.inconsistent() {
                Step { nexts: Seq::empty(), stats: stats.with_dbm_inconsistent(), ids }
            } else {
                Step {
                    nexts: seq![
                        Next {
                            pc: next,
                            zone: after,
                            types: with_type(types, dst, result_type(types, width, op, dst, src)),
                        },
                    ],
                    stats,
                    ids,
                }
            }
        },
        Instr::Endian { dst, kind } => Step {
            nexts: seq![
                Next { pc: next, zone: swapped(z, dst, ctx.zero, kind), types: no_types() },
            ],
            stats,
            ids,
        },
        Instr::If { width, left, op, right, target } => Step {
            nexts: branched(ctx, z, pc, width, left, op, right, target, types),
            stats,
            ids,
        },
        Instr::Load { size, dst, base, off } => {
            let t = type_of(types, base);
            Step {
                nexts: seq![
                    Next {
                        pc: next,
                        zone: forgotten(z, dst),
                        types: with_type(types, dst, loaded_type(t, off, size, ids.next)),
                    },
                ],
                stats: if load_is_safe(ctx, z, types, base, t, off, size) {
                    stats
                } else {
                    stats.with_unsafe_load()
                },
                ids: ids_after_load(t, off, size, ids),
            }
        },
        Instr::Store { size, base, off, .. } => if store_is_safe(ctx, z, types, base, off, size) {
            Step { nexts: seq![Next { pc: next, zone: z, types }], stats, ids }
        } else {
            Step { nexts: Seq::empty(), stats: stats.with_unsafe_store().stopped(), ids }
        },
        Instr::Call { helper } => Step {
            nexts: seq![
                Next {
                    pc: next,
                    zone: after_call(z),
                    types: call_types(types, call_result(helper, looked_up(types), ids.next)),
                },
            ],
            stats,
            ids: ids_after_call(helper, ids),
        },
        Instr::Jmp { target } => Step { nexts: seq![Next { pc: target, zone: z, types }], stats, ids },
        Instr::Exit => Step { nexts: Seq::empty(), stats, ids },
    }
}

/// The states that one instruction leads to from a state.
pub fn transfer_instr(
    ctx: &ExecContext,
    dbm_in: &Dbm,
    pc: usize,
    instr: &Instr,
    stats: &mut AnalysisStats,
    reg_types: &RegTypeState,
    ids: &mut IdCounter,
) -> (r: Vec<Successor>)
    requires
        small(dbm_in),
        reg_types.wf(),
        pc < usize::MAX,
    ensures
        all_wf(r@),
        nexts(r@) == step(ctx, dbm_in@, pc, *instr, *old(stats), reg_types@, *old(ids)).nexts,
        *final(stats) == step(
            ctx,
            dbm_in@,
            pc,
            *instr,
            *old(stats),
            reg_types@,
            *old(ids),
        ).stats,
        *final(ids) == step(ctx, dbm_in@, pc, *instr, *old(stats), reg_types@, *old(ids)).ids,
{
    let r: Vec<Successor> = match *instr {
        Instr::MovArg0 { dst } => transfer_mov_arg0(dbm_in, pc, dst),
        Instr::Alu { width, op, dst, src } => {
            transfer_alu(ctx, dbm_in, pc, width, op, dst, src, stats, reg_types)
        },
        Instr::Endian { dst, kind } => transfer_endian(ctx, dbm_in, pc, dst, kind),
        Instr::If { width, left, op, right, target } => {
            transfer_if(ctx, dbm_in, pc, width, left, op, right, target, reg_types)
        },
        Instr::Load { size, dst, base, off } => {
            let base_type: RegType = reg_types.get(base);
            transfer_load(
                ctx,
                dbm_in,
                pc,
                size,
                dst,
                base,
                base_type,
                off,
                stats,
                reg_types,
                ids,
            )
        },
        Instr::Store { size, base, off, .. } => {
            transfer_store(ctx, dbm_in, pc, size, base, off, stats, reg_types)
        },
        Instr::Call { helper } => transfer_call(dbm_in, pc, helper, reg_types, ids),
        Instr::Jmp { target } => only(target, dbm_in.clone(), reg_types.clone()),
        Instr::Exit => Vec::new(),
    };
    assert(r@.len() == 0 ==> nexts(r@) =~= Seq::empty());
    r
}

/// The types that flow along an edge to `pc`.
pub open spec fn flowed(
    ctx: &ExecContext,
    instr: Instr,
    types: Seq<RegType>,
    pc: usize,
    ids: IdCounter,
) -> Seq<RegType> {
    match instr {
        Instr::MovArg0 { dst } => with_type(types, dst, RegType::PtrToCtx),
        Instr::Alu { width, op, dst, src } => with_type(
            types,
            dst,
            flow_type(ctx, pc, types, width, op, dst, src),
        ),
        Instr::Load { size, dst, base, off } => with_type(
            types,
            dst,
            loaded_type(type_of(types, base), off, size, ids.next),
        ),
        Instr::Call { helper } => call_types(types, call_result(helper, 0, ids.next)),
        _ => types,
    }
}

/// Identities in use after types flowed along an edge.
pub open spec fn ids_after_flow(instr: Instr, types: Seq<RegType>, ids: IdCounter) -> IdCounter {
    match instr {
        Instr::Load { size, base, off, .. } => ids_after_load(
            type_of(types, base),
            off,
            size,
            ids,
        ),
        Instr::Call { helper } => ids_after_call(helper, ids),
        _ => ids,
    }
}

/// Updates the types for one instruction.
pub fn update_reg_types_for_instr(
    ctx: &ExecContext,
    instr: &Instr,
    types: &mut RegTypeState,
    pc: usize,
    ids: &mut IdCounter,
)
    requires
        old(types).wf(),
    ensures
        final(types).wf(),
        final(types)@ == flowed(ctx, *instr, old(types)@, pc, *old(ids)),
        *final(ids) == ids_after_flow(*instr, old(types)@, *old(ids)),
{
    match *instr {
        Instr::MovArg0 { dst } => types.set(dst, RegType::PtrToCtx),
        Instr::Alu { width, op, dst, src } => {
            update_alu_types(ctx, pc, types, width, op, dst, src);
        },
        Instr::Load { size, dst, base, off } => {
            update_load_types(types, size, dst, base, off, ids);
        },
        Instr::Call { helper } => update_call_types(types, helper, ids),
        _ => {},
    }
}

/// Where an instruction leads from a state, and with which values, if the
/// analysis does not stop at it.
pub open spec fn edges(ctx: &ExecContext, z: Zone, pc: usize, instr: Instr) -> Seq<(usize, Zone)> {
    let next = (pc + 1) as usize;
    match instr {
        Instr::MovArg0 { dst } => seq![(next, forgotten(z, dst))],
        Instr::Alu { width, op, dst, src } => if computed(
            ctx,
            z,
            width,
            op,
            dst,
            src,
        ).inconsistent() {
            Seq::empty()
        } else {
            seq![(next, computed(ctx, z, width, op, dst, src))]
        },
        Instr::Endian { dst, kind } => seq![(next, swapped(z, dst, ctx.zero, kind))],
        Instr::If { width, left, op, right, target } => {
            let b = branched(ctx, z, pc, width, left, op, right, target, no_types());
            Seq::new(b.len(), |i: int| (b[i].pc, b[i].zone))
        },
        Instr::Load { dst, .. } => seq![(next, forgotten(z, dst))],
        Instr::Store { .. } => seq![(next, z)],
        Instr::Call { .. } => seq![(next, after_call(z))],
        Instr::Jmp { target } => seq![(target, z)],
        Instr::Exit => Seq::empty(),
    }
}

/// A step that does not stop the analysis leads along the instruction's edges,
/// whatever the types.
pub proof fn law_values_do_not_depend_on_types(
    ctx: &ExecContext,
    z: Zone,
    pc: usize,
    instr: Instr,
    stats: AnalysisStats,
    types: Seq<RegType>,
    ids: IdCounter,
)
    requires
        !step(ctx, z, pc, instr, stats, types, ids).stats.abort,
    ensures
        ({
            let s = step(ctx, z, pc, instr, stats, types, ids).nexts;
            Seq::new(s.len(), |i: int| (s[i].pc, s[i].zone)) == edges(ctx, z, pc, instr)
        }),
{
    let s = step(ctx, z, pc, instr, stats, types, ids).nexts;
    assert(Seq::new(s.len(), |i: int| (s[i].pc, s[i].zone)) =~= edges(ctx, z, pc, instr));
}

/// A store that is not known to be safe stops the analysis.
pub proof fn law_unsafe_stores_stop(
    ctx: &ExecContext,
    z: Zone,
    pc: usize,
    instr: Instr,
    stats: AnalysisStats,
    types: Seq<RegType>,
    ids: IdCounter,
)
    requires
        !stats.abort,
    ensures
        step(ctx, z, pc, instr, stats, types, ids).stats.abort == match instr {
            Instr::Store { size, base, off, .. } => !store_is_safe(ctx, z, types, base, off, size),
            _ => false,
        },
{
}

} // verus!
