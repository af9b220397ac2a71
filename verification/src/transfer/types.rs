//! How instructions change the types of registers and stack slots.
use crate::ast::{AluOp, MapLoadKind, MemSize, Operand, Width};
use crate::common::constants;
use crate::common::ctx_model::{ctx_access, validate_ctx_access};
use crate::common::ctx_tables::CtxFieldKind;
use crate::domains::numeric::{Numeric, NumericDomain};
use crate::domains::zone::ops::wrapped_neg;
use crate::machine::env::{EnvConfig, EnvView, VerifierEnv};
use crate::machine::find::first_where;
use crate::machine::layout::{
    at_pc, find_reloc, BpfMapDef, Btf, BtfFieldKind, KptrFieldKind, RelocInfo,
};
use crate::machine::reg::{Reg, DBM_DIM};
use crate::machine::reg_types::{PtrFlags, RegType, TypeState};
use crate::machine::stack_state::{DynptrKind, StackState, StackView};
use crate::machine::state::{all_packet_ids, by_rule, FrameView, Machine, State, TypeRule};
use crate::num::{clip32, sat_add_i32, wadd};
use crate::text::{starts_with, text_eq};
use crate::transfer::fields::{
    implied_btf_struct_name, percpu_or_user_field, rcu_field, rcu_field_load, trusted_field,
    trusted_field_load,
};
use crate::transfer::map_access::{const_map_off, kptr_field_at, kptr_hit, resolve_const_map_off};
use vstd::prelude::*;

verus! {

/// The key in the stack slot that R2 points to is a constant within the map.
pub open spec fn const_key(s: Machine, d: BpfMapDef) -> bool {
    match (s.ty(Reg::R2), s.domain.fixed_distance(Reg::R2, Reg::R10)) {
        (RegType::PtrToStack { frame_level }, Some(off)) => s.stack_at(frame_level).slot_at(
            off as i16,
        ) matches Some(slot) && slot.size.bytes() == d.key_size && slot.tnum.is_const()
            && slot.tnum.value < d.max_entries,
        _ => false,
    }
}

fn const_key_in_bounds(state: &State, map_def: &BpfMapDef) -> (r: bool)
    requires
        state.wf(),
        state@.has_frame(Reg::R2),
    ensures
        r == const_key(state@, *map_def),
{
    let level = match state.types.get(Reg::R2) {
        RegType::PtrToStack { frame_level } => frame_level,
        _ => {
            return false;
        },
    };
    let off: i64 = match state.domain.get_distance_fixed(Reg::R2, Reg::R10) {
        Some(o) => o,
        None => {
            return false;
        },
    };
    match state.stack_at(level).get_slot(off as i16) {
        Some(slot) => slot.size.bytes() as u32 == map_def.key_size && slot.tnum.is_const()
            && slot.tnum.value < map_def.max_entries as u64,
        None => false,
    }
}

/// The one value an operand can have, if there is only one.
pub open spec fn operand_value(d: Numeric, src: Operand) -> Option<i64> {
    match src {
        Operand::Imm(k) => Some(k),
        Operand::Reg(r) => d.fixed(r),
    }
}

fn get_operand_fixed_value(domain: &NumericDomain, src: Operand) -> (r: Option<i64>)
    requires
        domain.wf(),
    ensures
        r == operand_value(domain@, src),
{
    match src {
        Operand::Imm(k) => Some(k),
        Operand::Reg(r) => domain.get_fixed_value(r),
    }
}

pub open spec fn spec_adjust_map_value_offset(ty: RegType, delta: Option<i64>) -> RegType {
    match ty {
        RegType::PtrToMapValue { id, offset, map_idx, map_uid } => RegType::PtrToMapValue {
            id,
            offset: match (offset, delta) {
                (Some(o), Some(d)) => Some(wadd(o, d)),
                _ => None,
            },
            map_idx,
            map_uid,
        },
        _ => ty,
    }
}

/// The type of a map value pointer after a number was added to it.
#[verifier::when_used_as_spec(spec_adjust_map_value_offset)]
pub fn adjust_map_value_offset(ty: RegType, delta: Option<i64>) -> (r: RegType)
    ensures
        r == spec_adjust_map_value_offset(ty, delta),
{
    match ty {
        RegType::PtrToMapValue { id, offset, map_idx, map_uid } => {
            let offset: Option<i64> = match (offset, delta) {
                (Some(o), Some(d)) => Some(wadd(o, d)),
                _ => None,
            };
            RegType::PtrToMapValue { id, offset, map_idx, map_uid }
        },
        _ => ty,
    }
}

/// The struct that lies at an offset inside another, or the outer one.
pub open spec fn embedded_struct(btf: Btf, name: &'static str, delta: Option<i64>) -> &'static str {
    match delta {
        Some(d) => if 0 < d < i32::MAX {
            match btf.spec_find_struct_by_name(name@) {
                Some(id) => match btf.field_at_offset(id, d as u32) {
                    Some(f) => match f.kind {
                        BtfFieldKind::Embedded { struct_name: Some(inner) } => inner,
                        _ => name,
                    },
                    None => name,
                },
                None => name,
            }
        } else {
            name
        },
        None => name,
    }
}

fn find_embedded_struct(btf: &Btf, name: &'static str, delta: Option<i64>) -> (r: &'static str)
    ensures
        r == embedded_struct(*btf, name, delta),
{
    if let Some(d) = delta {
        if d > 0 && d < i32::MAX as i64 {
            if let Some(id) = btf.find_struct_by_name(name) {
                if let Some(f) = btf.field_at_offset(id, d as u32) {
                    if let BtfFieldKind::Embedded { struct_name: Some(inner) } = f.kind {
                        return inner;
                    }
                }
            }
        }
    }
    name
}

/// The type of a pointer after a number was added to or taken from it. `cur` is
/// what the register is typed so far.
pub open spec fn ptr_arithmetic_type(
    btf: Btf,
    cur: RegType,
    d: Numeric,
    dst: Reg,
    dst_ty: RegType,
    src: Operand,
    is_add: bool,
) -> RegType {
    let delta = operand_value(d, src);
    let signed = match delta {
        Some(x) => Some(if is_add { x } else { wrapped_neg(x) }),
        None => None,
    };
    match dst_ty {
        RegType::PtrToMapValue { .. } => adjust_map_value_offset(dst_ty, signed),
        RegType::PtrToMapObject { .. } => if signed == Some(0i64) {
            cur
        } else {
            RegType::ScalarValue
        },
        RegType::PtrToStack { .. } => dst_ty,
        RegType::PtrToMapKptr { pointee_btf_id, ref_id, flags, offset } => match signed {
            Some(x) => RegType::PtrToMapKptr {
                pointee_btf_id,
                ref_id,
                flags,
                offset: clip32(offset + clip32(x as int)),
            },
            None => RegType::ScalarValue,
        },
        RegType::PtrToOwnedKptr { ref_id, offset, non_owning, pointee_btf_id } => match signed {
            Some(x) => RegType::PtrToOwnedKptr {
                ref_id,
                offset: clip32(offset + clip32(x as int)),
                non_owning,
                pointee_btf_id,
            },
            None => dst_ty,
        },
        RegType::PtrToAllocMem { id, mem_size, dynptr_id, .. } => match signed {
            Some(x) => if 0 <= x <= mem_size {
                RegType::PtrToAllocMem {
                    id,
                    mem_size: (mem_size - x) as u64,
                    ref_id: None,
                    dynptr_id,
                }
            } else {
                RegType::ScalarValue
            },
            None => RegType::ScalarValue,
        },
        RegType::PtrToArena { .. } => dst_ty,
        RegType::PtrToCtx => if signed == Some(0i64) {
            RegType::PtrToCtx
        } else {
            RegType::ScalarValue
        },
        RegType::PtrToPacket => if is_add {
            if delta matches Some(x) && x >= constants::MAX_PACKET_OFF {
                RegType::ScalarValue
            } else {
                cur
            }
        } else if d.distance(dst, Reg::AnchorData).1 <= constants::MAX_PACKET_OFF {
            RegType::PtrToPacket
        } else {
            RegType::ScalarValue
        },
        RegType::PtrToPacketMeta => if d.distance(dst, Reg::AnchorDataMeta).1
            <= constants::MAX_PACKET_OFF {
            RegType::PtrToPacketMeta
        } else {
            RegType::ScalarValue
        },
        RegType::PtrToBtfId { struct_name, flags, .. } => RegType::PtrToBtfId {
            struct_name: embedded_struct(btf, struct_name, signed),
            flags,
            ref_id: None,
        },
        _ => RegType::ScalarValue,
    }
}

fn update_packet_ptr_type_after_alu(domain: &NumericDomain, dst: Reg) -> (r: RegType)
    requires
        domain.wf(),
    ensures
        r == if domain@.distance(dst, Reg::AnchorData).1 <= constants::MAX_PACKET_OFF {
            RegType::PtrToPacket
        } else {
            RegType::ScalarValue
        },
{
    let (_, max_offset) = domain.get_distance_interval(dst, Reg::AnchorData);
    if max_offset <= constants::MAX_PACKET_OFF {
        RegType::PtrToPacket
    } else {
        RegType::ScalarValue
    }
}

fn update_ptr_arithmetic_type(
    btf: &Btf,
    cur: RegType,
    domain: &NumericDomain,
    dst: Reg,
    dst_ty: RegType,
    src: Operand,
    is_add: bool,
) -> (r: RegType)
    requires
        domain.wf(),
    ensures
        r == ptr_arithmetic_type(*btf, cur, domain@, dst, dst_ty, src, is_add),
{
    let delta: Option<i64> = get_operand_fixed_value(domain, src);
    let signed: Option<i64> = match delta {
        Some(x) => {
            let y: i64 = if is_add || x == i64::MIN { x } else { -x };
            Some(y)
        },
        None => None,
    };
    match dst_ty {
        RegType::PtrToMapValue { .. } => adjust_map_value_offset(dst_ty, signed),
        RegType::PtrToMapObject { .. } => match signed {
            Some(0) => cur,
            _ => RegType::ScalarValue,
        },
        RegType::PtrToStack { .. } => dst_ty,
        RegType::PtrToMapKptr { pointee_btf_id, ref_id, flags, offset } => match signed {
            Some(x) => RegType::PtrToMapKptr {
                pointee_btf_id,
                ref_id,
                flags,
                offset: sat_add_i32(offset, x),
            },
            None => RegType::ScalarValue,
        },
        RegType::PtrToOwnedKptr { ref_id, offset, non_owning, pointee_btf_id } => match signed {
            Some(x) => RegType::PtrToOwnedKptr {
                ref_id,
                offset: sat_add_i32(offset, x),
                non_owning,
                pointee_btf_id,
            },
            None => dst_ty,
        },
        RegType::PtrToAllocMem { id, mem_size, dynptr_id, .. } => match signed {
            Some(x) => if x >= 0 && x as u64 <= mem_size {
                RegType::PtrToAllocMem { id, mem_size: mem_size - x as u64, ref_id: None, dynptr_id }
            } else {
                RegType::ScalarValue
            },
            None => RegType::ScalarValue,
        },
        RegType::PtrToArena { .. } => dst_ty,
        RegType::PtrToCtx => match signed {
            Some(0) => RegType::PtrToCtx,
            _ => RegType::ScalarValue,
        },
        RegType::PtrToPacket => if is_add {
            match delta {
                Some(x) => if x >= constants::MAX_PACKET_OFF {
                    RegType::ScalarValue
                } else {
                    cur
                },
                None => cur,
            }
        } else {
            update_packet_ptr_type_after_alu(domain, dst)
        },
        RegType::PtrToPacketMeta => {
            let (_, max_offset) = domain.get_distance_interval(dst, Reg::AnchorDataMeta);
            if max_offset <= constants::MAX_PACKET_OFF {
                RegType::PtrToPacketMeta
            } else {
                RegType::ScalarValue
            }
        },
        RegType::PtrToBtfId { struct_name, flags, .. } => RegType::PtrToBtfId {
            struct_name: find_embedded_struct(btf, struct_name, signed),
            flags,
            ref_id: None,
        },
        _ => RegType::ScalarValue,
    }
}

/// The type of a number after an operand was added or subtracted. A number plus
/// a pointer is that pointer; a number minus anything is a number.
pub open spec fn scalar_arithmetic_type(
    in_types: Seq<RegType>,
    src: Operand,
    is_add: bool,
) -> RegType {
    match src {
        Operand::Imm(_) => RegType::ScalarValue,
        Operand::Reg(r) => if is_add { in_types[r.idx() as int] } else { RegType::ScalarValue },
    }
}

fn handle_scalar_arithmetic_type(in_types: &TypeState, src: Operand, is_add: bool) -> (r: RegType)
    requires
        in_types.wf(),
    ensures
        r == scalar_arithmetic_type(in_types@, src, is_add),
{
    match src {
        Operand::Imm(_) => RegType::ScalarValue,
        Operand::Reg(r) => if is_add { in_types.get(r) } else { RegType::ScalarValue },
    }
}

/// Maps that hold the program's own data.
pub open spec fn is_data_map(name: Seq<char>) -> bool {
    ".rodata"@.is_prefix_of(name) || ".data"@.is_prefix_of(name) || name == ".bss"@
}

/// The static data a constant is relocated against, if any.
pub open spec fn static_data(cfg: EnvConfig, pc: usize) -> Option<RelocInfo> {
    match first_where(cfg.ctx.relocs@, at_pc(pc)) {
        Some(r) => if r.map_idx < cfg.ctx.map_defs@.len() && is_data_map(
            cfg.ctx.map_defs@[r.map_idx as int].name@,
        ) {
            Some(r)
        } else {
            None
        },
        None => None,
    }
}

fn find_static_data(cfg: &EnvConfig, pc: usize) -> (r: Option<RelocInfo>)
    ensures
        r == static_data(*cfg, pc),
{
    match find_reloc(&cfg.ctx.relocs, pc) {
        Some(r) => {
            if r.map_idx < cfg.ctx.map_defs.len() {
                let name: &str = cfg.ctx.map_defs[r.map_idx].name.as_str();
                if starts_with(name, ".rodata") || starts_with(name, ".data") || text_eq(
                    name,
                    ".bss",
                ) {
                    return Some(r);
                }
            }
            None
        },
        None => None,
    }
}

/// The type of the destination of an arithmetic instruction. `id` is the
/// identity a new pointer takes.
pub open spec fn alu_type(
    cfg: EnvConfig,
    id: u32,
    in_types: Seq<RegType>,
    cur: RegType,
    d: Numeric,
    width: Width,
    op: AluOp,
    dst: Reg,
    src: Operand,
    pc: usize,
) -> RegType {
    let dst_ty = in_types[dst.idx() as int];
    if width is W32 {
        RegType::ScalarValue
    } else if op is Mov {
        match src {
            Operand::Reg(r) => if cfg.arena_cast_pcs@.contains(pc) {
                RegType::PtrToArena { ref_id: None, mem_size: 0x1_0000_0000 }
            } else {
                in_types[r.idx() as int]
            },
            Operand::Imm(_) => match static_data(cfg, pc) {
                Some(r) => RegType::PtrToMapValue {
                    id,
                    offset: Some(r.offset),
                    map_idx: r.map_idx,
                    map_uid: None,
                },
                None => RegType::ScalarValue,
            },
        }
    } else if op is Add || op is Sub {
        if dst_ty.is_pointer() {
            ptr_arithmetic_type(cfg.ctx.btf, cur, d, dst, dst_ty, src, op is Add)
        } else {
            scalar_arithmetic_type(in_types, src, op is Add)
        }
    } else if dst_ty is PtrToArena {
        dst_ty
    } else {
        RegType::ScalarValue
    }
}

/// Whether an arithmetic instruction makes a new pointer.
pub open spec fn alu_takes_id(cfg: EnvConfig, width: Width, op: AluOp, src: Operand, pc: usize) -> bool {
    width is W64 && op is Mov && src is Imm && static_data(cfg, pc) is Some
}

/// Whether a list holds a number.
fn contains_pc(v: &Vec<usize>, pc: usize) -> (r: bool)
    ensures
        r == v@.contains(pc),
{
    let mut i: usize = 0;
    while i < v.len()
        invariant
            i <= v@.len(),
            forall|k: int| 0 <= k < i ==> v@[k] != pc,
        decreases v@.len() - i,
    {
        if v[i] == pc {
            return true;
        }
        i = i + 1;
    }
    false
}

/// Retypes the destination of an arithmetic instruction.
pub fn update_alu_types(
    env: &mut VerifierEnv,
    in_types: &TypeState,
    types: &mut TypeState,
    domain: &NumericDomain,
    width: Width,
    op: AluOp,
    dst: Reg,
    src: Operand,
    pc: usize,
)
    requires
        in_types.wf(),
        old(types).wf(),
        domain.wf(),
    ensures
        final(types).wf(),
        final(types)@ == old(types)@.update(
            dst.idx() as int,
            alu_type(
                old(env).cfg,
                old(env)@.ids.next,
                in_types@,
                old(types)@[dst.idx() as int],
                domain@,
                width,
                op,
                dst,
                src,
                pc,
            ),
        ),
        final(env).cfg == old(env).cfg,
        final(env)@ == if alu_takes_id(old(env).cfg, width, op, src, pc) {
            old(env)@.took_id()
        } else {
            old(env)@
        },
{
    if width == Width::W32 {
        types.set(dst, RegType::ScalarValue);
        return;
    }
    let t: RegType = match op {
        AluOp::Mov => match src {
            Operand::Reg(r) => if contains_pc(&env.cfg.arena_cast_pcs, pc) {
                RegType::PtrToArena { ref_id: None, mem_size: 0x1_0000_0000 }
            } else {
                in_types.get(r)
            },
            Operand::Imm(_) => match find_static_data(&env.cfg, pc) {
                Some(r) => {
                    let id: u32 = env.new_ptr_id();
                    RegType::PtrToMapValue {
                        id,
                        offset: Some(r.offset),
                        map_idx: r.map_idx,
                        map_uid: None,
                    }
                },
                None => RegType::ScalarValue,
            },
        },
        AluOp::Add | AluOp::Sub => {
            let dst_ty: RegType = in_types.get(dst);
            if dst_ty.is_pointer() {
                update_ptr_arithmetic_type(
                    &env.cfg.ctx.btf,
                    types.get(dst),
                    domain,
                    dst,
                    dst_ty,
                    src,
                    op == AluOp::Add,
                )
            } else {
                handle_scalar_arithmetic_type(in_types, src, op == AluOp::Add)
            }
        },
        _ => {
            let in_ty: RegType = in_types.get(dst);
            if matches!(in_ty, RegType::PtrToArena { .. }) {
                in_ty
            } else {
                RegType::ScalarValue
            }
        },
    };
    types.set(dst, t);
}

/// The domain after a register took some number in `[lo, hi]`.
#[verifier::opaque]
pub open spec fn bounded_number(d: Numeric, dst: Reg, lo: i64, hi: i64) -> Numeric {
    let d = d.forget(dst).assume_ge_imm(dst, lo).assume_le_imm(dst, hi);
    if lo >= i32::MIN && hi <= i32::MAX {
        d.set_s32(dst, lo as i32, hi as i32)
    } else {
        d
    }
}

fn bound_number(domain: &mut NumericDomain, dst: Reg, lo: i64, hi: i64)
    requires
        old(domain).wf(),
        !dst.is_anchor(),
    ensures
        final(domain).wf(),
        final(domain)@ is Zone <==> old(domain)@ is Zone,
        final(domain)@ == bounded_number(old(domain)@, dst, lo, hi),
{
    proof {
        reveal(bounded_number);
    }
    domain.forget(dst);
    domain.assume_ge_imm(dst, lo);
    domain.assume_le_imm(dst, hi);
    if lo >= i32::MIN as i64 && hi <= i32::MAX as i64 {
        domain.set_s32_bounds(dst, lo as i32, hi as i32);
    }
}

/// What a load of a context field of some kind makes of the destination, and
/// whether it also bounds it.
pub open spec fn ctx_kind_typed(kind: CtxFieldKind, v: EnvView, s: Machine, dst: Reg) -> (
    EnvView,
    Machine,
    bool,
) {
    match kind {
        CtxFieldKind::PacketMeta => (v, s.set_type(dst, RegType::PtrToPacketMeta), false),
        CtxFieldKind::PacketStart => (v, s.set_type(dst, RegType::PtrToPacket), false),
        CtxFieldKind::PacketEnd => (v, s.set_type(dst, RegType::PtrToPacketEnd), false),
        CtxFieldKind::SockCommon => (
            v,
            s.set_type(dst, RegType::PtrToSockCommonOrNull { ref_id: None }),
            false,
        ),
        CtxFieldKind::Socket => (
            v,
            s.set_type(dst, RegType::PtrToSocket { ref_id: None }),
            false,
        ),
        CtxFieldKind::SocketOrNull => (
            v,
            s.set_type(dst, RegType::PtrToSocketOrNull { ref_id: None }),
            false,
        ),
        CtxFieldKind::AllocMem { mem_size } => (
            v.took_id(),
            s.set_type(
                dst,
                RegType::PtrToAllocMem {
                    id: v.ids.next,
                    mem_size,
                    ref_id: None,
                    dynptr_id: None,
                },
            ),
            false,
        ),
        CtxFieldKind::TrustedPtr { struct_name, nullable, tag_flags } => {
            let flags = PtrFlags::with_trusted().union(tag_flags);
            if nullable {
                (
                    v.took_id(),
                    s.set_type(
                        dst,
                        RegType::PtrToBtfIdOrNull {
                            id: v.ids.next,
                            struct_name,
                            flags,
                            ref_id: None,
                        },
                    ),
                    false,
                )
            } else {
                (
                    v,
                    s.set_type(dst, RegType::PtrToBtfId { struct_name, flags, ref_id: None }),
                    false,
                )
            }
        },
        CtxFieldKind::RefcountedTask { ref_id } => (
            v,
            s.set_type(dst, RegType::PtrToTask { ref_id: Some(ref_id) }).forget(dst),
            false,
        ),
        CtxFieldKind::BoundedScalar { lo, hi } => (
            v,
            s.set_type(dst, RegType::ScalarValue).with_domain(
                bounded_number(s.domain, dst, lo, hi),
            ),
            true,
        ),
        CtxFieldKind::Scalar => (v, s.set_type(dst, RegType::ScalarValue), false),
    }
}

/// What a load from the context makes of the destination, and whether it also
/// bounds it.
pub open spec fn ctx_load_typed(
    cfg: EnvConfig,
    v: EnvView,
    s: Machine,
    size: i64,
    dst: Reg,
    off: i16,
) -> (EnvView, Machine, bool) {
    ctx_kind_typed(
        match ctx_access(cfg.ctx, off, size) {
            Some(info) => info.kind,
            None => CtxFieldKind::Scalar,
        },
        v,
        s,
        dst,
    )
}

fn update_ctx_kind_types(
    env: &mut VerifierEnv,
    state: &mut State,
    kind: CtxFieldKind,
    dst: Reg,
) -> (r: bool)
    requires
        old(state).wf(),
        !dst.is_anchor(),
    ensures
        final(state).wf(),
        final(env).cfg == old(env).cfg,
        (final(env)@, final(state)@, r) == ctx_kind_typed(kind, old(env)@, old(state)@, dst),
{
    let t: RegType = match kind {
        CtxFieldKind::PacketMeta => RegType::PtrToPacketMeta,
        CtxFieldKind::PacketStart => RegType::PtrToPacket,
        CtxFieldKind::PacketEnd => RegType::PtrToPacketEnd,
        CtxFieldKind::SockCommon => RegType::PtrToSockCommonOrNull { ref_id: None },
        CtxFieldKind::Socket => RegType::PtrToSocket { ref_id: None },
        CtxFieldKind::SocketOrNull => RegType::PtrToSocketOrNull { ref_id: None },
        CtxFieldKind::AllocMem { mem_size } => {
            let id: u32 = env.new_ptr_id();
            RegType::PtrToAllocMem { id, mem_size, ref_id: None, dynptr_id: None }
        },
        CtxFieldKind::TrustedPtr { struct_name, nullable, tag_flags } => {
            let flags: PtrFlags = PtrFlags::with_trusted().union(tag_flags);
            if nullable {
                let id: u32 = env.new_ptr_id();
                RegType::PtrToBtfIdOrNull { id, struct_name, flags, ref_id: None }
            } else {
                RegType::PtrToBtfId { struct_name, flags, ref_id: None }
            }
        },
        CtxFieldKind::RefcountedTask { ref_id } => RegType::PtrToTask { ref_id: Some(ref_id) },
        CtxFieldKind::BoundedScalar { .. } => RegType::ScalarValue,
        CtxFieldKind::Scalar => RegType::ScalarValue,
    };
    state.set_type(dst, t);
    match kind {
        CtxFieldKind::RefcountedTask { .. } => {
            state.forget(dst);
            false
        },
        CtxFieldKind::BoundedScalar { lo, hi } => {
            bound_number(&mut state.domain, dst, lo, hi);
            true
        },
        _ => false,
    }
}

/// What a load from a map value makes of the destination. `id` is the identity
/// a new pointer takes; the second part says whether it was taken.
pub open spec fn map_load_type(cfg: EnvConfig, s: Machine, id: u32, size: i64, base: Reg, off: i16) -> (
    RegType,
    bool,
) {
    match s.ty(base) {
        RegType::PtrToMapValue { offset, map_idx, .. } => {
            let at = const_map_off(s, base, offset, off);
            let field = if at is Some && map_idx < cfg.ctx.map_defs@.len() {
                kptr_hit(cfg.ctx.map_defs@[map_idx as int], at->Some_0, size)
            } else {
                None
            };
            match field {
                Some(f) => {
                    let none = PtrFlags::empty();
                    let kptr = |flags: PtrFlags|
                        RegType::PtrToMapKptrOrNull {
                            pointee_btf_id: f.pointee_btf_id,
                            ref_id: None,
                            flags,
                            offset: 0,
                        };
                    match f.kind {
                        KptrFieldKind::Unref => (
                            kptr(PtrFlags { untrusted: true, ..none }),
                            false,
                        ),
                        KptrFieldKind::Ref => (kptr(PtrFlags { mem_alloc: true, ..none }), false),
                        KptrFieldKind::Rcu => (kptr(PtrFlags { rcu: true, ..none }), false),
                        KptrFieldKind::Percpu => (kptr(PtrFlags { percpu: true, ..none }), false),
                        KptrFieldKind::Uptr => (
                            RegType::PtrToAllocMemOrNull {
                                id,
                                mem_size: cfg.ctx.btf.type_size_bytes(f.pointee_btf_id) as u64,
                                ref_id: None,
                                dynptr_id: None,
                            },
                            true,
                        ),
                    }
                },
                None => (RegType::ScalarValue, false),
            }
        },
        _ => (RegType::ScalarValue, false),
    }
}

fn find_map_load_type(
    env: &mut VerifierEnv,
    state: &State,
    size: i64,
    base: Reg,
    off: i16,
) -> (r: RegType)
    requires
        state.wf(),
    ensures
        final(env).cfg == old(env).cfg,
        r == map_load_type(old(env).cfg, state@, old(env)@.ids.next, size, base, off).0,
        final(env)@ == if map_load_type(
            old(env).cfg,
            state@,
            old(env)@.ids.next,
            size,
            base,
            off,
        ).1 {
            old(env)@.took_id()
        } else {
            old(env)@
        },
{
    if let RegType::PtrToMapValue { offset, map_idx, .. } = state.types.get(base) {
        if let Some(at) = resolve_const_map_off(state, base, offset, off) {
            if map_idx < env.cfg.ctx.map_defs.len() {
                if let Some(f) = kptr_field_at(&env.cfg.ctx.map_defs[map_idx], at, size) {
                    let mut flags: PtrFlags = PtrFlags::empty();
                    match f.kind {
                        KptrFieldKind::Unref => {
                            flags.untrusted = true;
                        },
                        KptrFieldKind::Ref => {
                            flags.mem_alloc = true;
                        },
                        KptrFieldKind::Rcu => {
                            flags.rcu = true;
                        },
                        KptrFieldKind::Percpu => {
                            flags.percpu = true;
                        },
                        KptrFieldKind::Uptr => {
                            let mem_size: u64 = env.cfg.ctx.btf.type_size_bytes(
                                f.pointee_btf_id,
                            ) as u64;
                            let id: u32 = env.new_ptr_id();
                            return RegType::PtrToAllocMemOrNull {
                                id,
                                mem_size,
                                ref_id: None,
                                dynptr_id: None,
                            };
                        },
                    }
                    return RegType::PtrToMapKptrOrNull {
                        pointee_btf_id: f.pointee_btf_id,
                        ref_id: None,
                        flags,
                        offset: 0,
                    };
                }
            }
        }
    }
    RegType::ScalarValue
}

/// The flags that say in which address space a pointer lives.
pub open spec fn tag_flags(tag: Option<&str>) -> PtrFlags {
    match tag {
        Some(t) => if t@ == "percpu"@ {
            PtrFlags { percpu: true, ..PtrFlags::empty() }
        } else if t@ == "user"@ {
            PtrFlags { user: true, ..PtrFlags::empty() }
        } else {
            PtrFlags::empty()
        },
        None => PtrFlags::empty(),
    }
}

fn get_tag_flags(tag: Option<&str>) -> (r: PtrFlags)
    ensures
        r == tag_flags(tag),
{
    let mut flags: PtrFlags = PtrFlags::empty();
    if let Some(t) = tag {
        if text_eq(t, "percpu") {
            flags.percpu = true;
        } else if text_eq(t, "user") {
            flags.user = true;
        }
    }
    flags
}

/// How far a pointer loaded from a field can be relied on.
pub open spec fn field_trust(struct_name: &str, field_name: &str, in_rcu: bool) -> PtrFlags {
    if trusted_field(struct_name@, field_name@) {
        PtrFlags::with_trusted()
    } else if rcu_field(struct_name@, field_name@) && in_rcu {
        PtrFlags { rcu: true, ..PtrFlags::empty() }
    } else {
        PtrFlags { untrusted: true, ..PtrFlags::empty() }
    }
}

/// What a load of a whole word from a kernel object yields: a pointer if the
/// field is one.
pub open spec fn object_load_type(btf: Btf, struct_name: &'static str, off: i16, in_rcu: bool) -> RegType {
    let f = match btf.spec_find_struct_by_name(struct_name@) {
        Some(id) => btf.field_at_offset_descend(id, off as u32),
        None => None,
    };
    match f {
        Some(f) => match f.kind {
            BtfFieldKind::Pointer { pointee: Some(p), tag } => RegType::PtrToBtfId {
                struct_name: p,
                flags: field_trust(struct_name, f.name, in_rcu).union(
                    tag_flags(
                        match tag {
                            Some(t) => Some(t),
                            None => percpu_or_user_field(struct_name, f.name),
                        },
                    ),
                ),
                ref_id: None,
            },
            _ => RegType::ScalarValue,
        },
        None => RegType::ScalarValue,
    }
}

fn find_object_load_type(btf: &Btf, struct_name: &'static str, off: i16, in_rcu: bool) -> (r: RegType)
    requires
        off >= 0,
    ensures
        r == object_load_type(*btf, struct_name, off, in_rcu),
{
    if let Some(id) = btf.find_struct_by_name(struct_name) {
        if let Some(f) = btf.field_at_offset_descend(id, off as u32) {
            if let BtfFieldKind::Pointer { pointee: Some(p), tag } = f.kind {
                let mut flags: PtrFlags = PtrFlags::empty();
                if trusted_field_load(struct_name, f.name) {
                    flags = PtrFlags::with_trusted();
                } else if rcu_field_load(struct_name, f.name) && in_rcu {
                    flags.rcu = true;
                } else {
                    flags.untrusted = true;
                }
                let space: Option<&str> = match tag {
                    Some(t) => Some(t),
                    None => percpu_or_user_field(struct_name, f.name),
                };
                return RegType::PtrToBtfId {
                    struct_name: p,
                    flags: flags.union(get_tag_flags(space)),
                    ref_id: None,
                };
            }
        }
    }
    RegType::ScalarValue
}

/// What a load makes of the destination's type, and whether it also bounds it.
pub open spec fn load_typed(
    cfg: EnvConfig,
    v: EnvView,
    s: Machine,
    size: usize,
    dst: Reg,
    base: Reg,
    off: i16,
) -> (EnvView, Machine, bool) {
    let ty = s.ty(base);
    match ty {
        RegType::PtrToCtx => ctx_load_typed(cfg, v, s, size as i64, dst, off),
        RegType::PtrToStack { .. } => (
            v,
            s.set_type(
                dst,
                match s.domain.fixed_distance(base, Reg::R10) {
                    Some(at) => if size == 8 {
                        s.current().stack.type_at(wadd(at, off as i64) as i16)
                    } else {
                        RegType::ScalarValue
                    },
                    None => RegType::ScalarValue,
                },
            ),
            false,
        ),
        RegType::PtrToMapValue { .. } => {
            let (t, taken) = map_load_type(cfg, s, v.ids.next, size as i64, base, off);
            (if taken { v.took_id() } else { v }, s.set_type(dst, t), false)
        },
        _ => match implied_btf_struct_name(ty) {
            Some(name) => (
                v,
                s.set_type(
                    dst,
                    if size == 8 && off >= 0 {
                        object_load_type(cfg.ctx.btf, name, off, s.in_rcu())
                    } else {
                        RegType::ScalarValue
                    },
                ),
                false,
            ),
            None => (v, s.set_type(dst, RegType::ScalarValue), false),
        },
    }
}

/// Retypes the destination of a load. Returns whether it also bounded it.
pub fn update_load_types(
    env: &mut VerifierEnv,
    state: &mut State,
    size: usize,
    dst: Reg,
    base: Reg,
    off: i16,
) -> (r: bool)
    requires
        old(state).wf(),
        0 < size <= 0x7FFF,
        !dst.is_anchor(),
    ensures
        final(state).wf(),
        final(env).cfg == old(env).cfg,
        (final(env)@, final(state)@, r) == load_typed(
            old(env).cfg,
            old(env)@,
            old(state)@,
            size,
            dst,
            base,
            off,
        ),
{
    let ty: RegType = state.types.get(base);
    match ty {
        RegType::PtrToCtx => {
            let kind: CtxFieldKind = match validate_ctx_access(
                &env.cfg.ctx,
                off,
                size as i64,
            ) {
                Some(info) => info.kind,
                None => CtxFieldKind::Scalar,
            };
            return update_ctx_kind_types(env, state, kind, dst);
        },
        RegType::PtrToStack { .. } => {
            let mut t: RegType = RegType::ScalarValue;
            if let Some(at) = state.domain.get_distance_fixed(base, Reg::R10) {
                if size == 8 {
                    let n: usize = state.frames.len() - 1;
                    t = state.frames[n].stack.get_slot_type(wadd(at, off as i64) as i16);
                }
            }
            state.set_type(dst, t);
        },
        RegType::PtrToMapValue { .. } => {
            let t: RegType = find_map_load_type(env, state, size as i64, base, off);
            state.set_type(dst, t);
        },
        _ => {
            let mut t: RegType = RegType::ScalarValue;
            if let Some(name) = implied_btf_struct_name(ty) {
                if size == 8 && off >= 0 {
                    t = find_object_load_type(
                        &env.cfg.ctx.btf,
                        name,
                        off,
                        state.in_rcu_read_section(),
                    );
                }
            }
            state.set_type(dst, t);
        },
    }
    false
}

/// The stack after a store: a whole word keeps the type of its source in its
/// first byte, all else is numbers.
pub open spec fn stored(s: StackView, src_type: RegType, size: MemSize, at: Option<i64>) -> StackView {
    match at {
        Some(at) => {
            let off = at as i16;
            if size is U64 {
                s.retype(off, src_type).retype_run(off, 1, 8)
            } else {
                s.retype_run(off, 0, size.bytes() as int)
            }
        },
        None => s,
    }
}

fn retype_bytes(stack: &mut StackState, off: i16, from: i16, to: i16)
    requires
        old(stack).wf(),
        0 <= from <= to <= 8,
    ensures
        final(stack).wf(),
        final(stack)@ == old(stack)@.retype_run(off, from as int, to as int),
{
    let ghost before = stack@;
    let mut i: i16 = from;
    while i < to
        invariant
            stack.wf(),
            0 <= from <= i <= to <= 8,
            stack@ == before.retype_run(off, from as int, i as int),
        decreases to - i,
    {
        stack.set_slot_type((off as i32 + i as i32) as i16, RegType::ScalarValue);
        i = i + 1;
    }
}

/// Retypes the stack bytes that a store writes.
pub fn update_store_types(
    stack: &mut StackState,
    src_type: RegType,
    size: MemSize,
    resolved_stack_offset: Option<i64>,
)
    requires
        old(stack).wf(),
    ensures
        final(stack).wf(),
        final(stack)@ == stored(old(stack)@, src_type, size, resolved_stack_offset),
{
    if let Some(at) = resolved_stack_offset {
        let off: i16 = at as i16;
        if size == MemSize::U64 {
            stack.set_slot_type(off, src_type);
            retype_bytes(stack, off, 1, 8);
        } else {
            retype_bytes(stack, off, 0, size.bytes() as i16);
        }
    }
}

pub open spec fn spec_helper_invalidates_packets(helper: u32) -> bool {
    helper == constants::BPF_XDP_ADJUST_HEAD || helper == constants::BPF_XDP_ADJUST_TAIL || helper
        == constants::BPF_XDP_ADJUST_META || helper == constants::BPF_SKB_PULL_DATA || helper
        == constants::BPF_SKB_CHANGE_HEAD || helper == constants::BPF_SKB_CHANGE_TAIL || helper
        == constants::BPF_SKB_CHANGE_PROTO || helper == constants::BPF_SKB_ADJUST_ROOM || helper
        == constants::BPF_SKB_STORE_BYTES || helper == constants::BPF_SKB_VLAN_PUSH || helper
        == constants::BPF_SKB_VLAN_POP
}

/// Whether a helper may move the packet.
#[verifier::when_used_as_spec(spec_helper_invalidates_packets)]
pub fn helper_invalidates_packets(helper: u32) -> (r: bool)
    ensures
        r == spec_helper_invalidates_packets(helper),
{
    helper == constants::BPF_XDP_ADJUST_HEAD || helper == constants::BPF_XDP_ADJUST_TAIL || helper
        == constants::BPF_XDP_ADJUST_META || helper == constants::BPF_SKB_PULL_DATA || helper
        == constants::BPF_SKB_CHANGE_HEAD || helper == constants::BPF_SKB_CHANGE_TAIL || helper
        == constants::BPF_SKB_CHANGE_PROTO || helper == constants::BPF_SKB_ADJUST_ROOM || helper
        == constants::BPF_SKB_STORE_BYTES || helper == constants::BPF_SKB_VLAN_PUSH || helper
        == constants::BPF_SKB_VLAN_POP
}

/// The object behind the per-CPU pointer in R1: its name, its flags, and
/// whether it was allocated by the program.
pub open spec fn percpu_object(btf: Btf, r1: RegType) -> Option<(&'static str, PtrFlags, bool)> {
    match r1 {
        RegType::PtrToBtfId { struct_name, flags, .. } => Some((struct_name, flags, false)),
        RegType::PtrToMapKptr { pointee_btf_id, flags, .. } => match btf.struct_name(
            pointee_btf_id,
        ) {
            Some(n) => Some((n, flags, true)),
            None => None,
        },
        RegType::PtrToMapKptrOrNull { pointee_btf_id, flags, .. } => match btf.struct_name(
            pointee_btf_id,
        ) {
            Some(n) => Some((n, flags, true)),
            None => None,
        },
        _ => None,
    }
}

fn find_percpu_object(btf: &Btf, r1: RegType) -> (r: Option<(&'static str, PtrFlags, bool)>)
    ensures
        r == percpu_object(*btf, r1),
{
    match r1 {
        RegType::PtrToBtfId { struct_name, flags, .. } => Some((struct_name, flags, false)),
        RegType::PtrToMapKptr { pointee_btf_id, flags, .. } => match btf.struct_name(
            pointee_btf_id,
        ) {
            Some(n) => Some((n, flags, true)),
            None => None,
        },
        RegType::PtrToMapKptrOrNull { pointee_btf_id, flags, .. } => match btf.struct_name(
            pointee_btf_id,
        ) {
            Some(n) => Some((n, flags, true)),
            None => None,
        },
        _ => None,
    }
}

pub open spec fn spec_percpu_flags(flags: PtrFlags, allocated: bool) -> PtrFlags {
    PtrFlags {
        percpu: false,
        rdonly: false,
        trusted: true,
        mem_alloc: flags.mem_alloc || allocated,
        ..flags
    }
}

/// The flags of the pointer to one CPU's copy of an object.
#[verifier::when_used_as_spec(spec_percpu_flags)]
pub fn percpu_flags(flags: PtrFlags, allocated: bool) -> (r: PtrFlags)
    ensures
        r == spec_percpu_flags(flags, allocated),
{
    let mut f: PtrFlags = flags;
    f.percpu = false;
    f.rdonly = false;
    f.trusted = true;
    if allocated {
        f.mem_alloc = true;
    }
    f
}

/// Whether a map holds maps.
pub open spec fn holds_maps(d: BpfMapDef) -> bool {
    d.type_ == constants::BPF_MAP_TYPE_ARRAY_OF_MAPS || d.type_
        == constants::BPF_MAP_TYPE_HASH_OF_MAPS
}

/// The map that a lookup goes to: the inner one if R1 came out of a map of
/// maps.
pub open spec fn lookup_map(cfg: EnvConfig, r1: RegType) -> usize {
    match r1 {
        RegType::PtrToMapObject { map_idx } => map_idx,
        RegType::PtrToMapValue { map_idx, .. } => if map_idx < cfg.ctx.map_defs@.len()
            && holds_maps(cfg.ctx.map_defs@[map_idx as int])
            && cfg.ctx.map_defs@[map_idx as int].inner_map_idx is Some {
            cfg.ctx.map_defs@[map_idx as int].inner_map_idx->Some_0
        } else {
            map_idx
        },
        _ => 0,
    }
}

fn find_lookup_map(cfg: &EnvConfig, r1: RegType) -> (r: usize)
    ensures
        r == lookup_map(*cfg, r1),
{
    match r1 {
        RegType::PtrToMapObject { map_idx } => map_idx,
        RegType::PtrToMapValue { map_idx, .. } => {
            if map_idx < cfg.ctx.map_defs.len() {
                let d: &BpfMapDef = &cfg.ctx.map_defs[map_idx];
                if d.type_ == constants::BPF_MAP_TYPE_ARRAY_OF_MAPS || d.type_
                    == constants::BPF_MAP_TYPE_HASH_OF_MAPS {
                    if let Some(inner) = d.inner_map_idx {
                        return inner;
                    }
                }
            }
            map_idx
        },
        _ => 0,
    }
}

/// Whether a lookup yields a map of its own, which takes an identity.
pub open spec fn yields_map(cfg: EnvConfig, r1: RegType) -> bool {
    r1 matches RegType::PtrToMapObject { map_idx } && map_idx < cfg.ctx.map_defs@.len()
        && holds_maps(cfg.ctx.map_defs@[map_idx as int])
}

/// The identity of the map that a looked-up value belongs to.
pub open spec fn lookup_uid(cfg: EnvConfig, v: EnvView, r1: RegType) -> Option<u32> {
    match r1 {
        RegType::PtrToMapObject { .. } => if yields_map(cfg, r1) {
            Some(v.map_uids.next)
        } else {
            None
        },
        RegType::PtrToMapValue { map_uid, .. } => map_uid,
        _ => None,
    }
}

fn take_lookup_uid(env: &mut VerifierEnv, r1: RegType) -> (r: Option<u32>)
    ensures
        final(env).cfg == old(env).cfg,
        r == lookup_uid(old(env).cfg, old(env)@, r1),
        final(env)@ == if yields_map(old(env).cfg, r1) {
            EnvView { map_uids: old(env)@.map_uids.after(), ..old(env)@ }
        } else {
            old(env)@
        },
{
    match r1 {
        RegType::PtrToMapObject { map_idx } => {
            let mut outer: bool = false;
            if map_idx < env.cfg.ctx.map_defs.len() {
                let t: u32 = env.cfg.ctx.map_defs[map_idx].type_;
                outer = t == constants::BPF_MAP_TYPE_ARRAY_OF_MAPS || t
                    == constants::BPF_MAP_TYPE_HASH_OF_MAPS;
            }
            if outer {
                Some(env.new_map_uid())
            } else {
                None
            }
        },
        RegType::PtrToMapValue { map_uid, .. } => map_uid,
        _ => None,
    }
}

/// Whether a lookup cannot fail: local storage always exists, and so does an
/// array element whose index is a constant within bounds.
pub open spec fn lookup_succeeds(s: Machine, helper: u32, d: BpfMapDef) -> bool {
    helper == constants::BPF_GET_LOCAL_STORAGE || (helper == constants::BPF_MAP_LOOKUP_ELEM && (
    d.type_ == constants::BPF_MAP_TYPE_ARRAY || d.type_ == constants::BPF_MAP_TYPE_PERCPU_ARRAY)
        && const_key(s, d))
}

/// What a map lookup makes of R0.
pub open spec fn lookup_typed(
    cfg: EnvConfig,
    v: EnvView,
    r1: RegType,
    s: Machine,
    helper: u32,
) -> (EnvView, Machine) {
    let map_idx = lookup_map(cfg, r1);
    if map_idx >= cfg.ctx.map_defs@.len() {
        (v, s.set_type(Reg::R0, RegType::ScalarValue))
    } else {
        let d = cfg.ctx.map_defs@[map_idx as int];
        if d.type_ == constants::BPF_MAP_TYPE_SOCKMAP || d.type_
            == constants::BPF_MAP_TYPE_SOCKHASH {
            acquired_socket(v, s)
        } else {
            let map_uid = lookup_uid(cfg, v, r1);
            let v = if yields_map(cfg, r1) {
                EnvView { map_uids: v.map_uids.after(), ..v }
            } else {
                v
            };
            let id = v.ids.next;
            if lookup_succeeds(s, helper, d) {
                (
                    v.took_id(),
                    s.set_type(
                        Reg::R0,
                        RegType::PtrToMapValue { id, offset: Some(0), map_idx, map_uid },
                    ).with_domain(s.domain.init_map_value(Reg::R0)),
                )
            } else {
                (
                    v.took_id(),
                    s.set_type(Reg::R0, RegType::PtrToMapValueOrNull { id, map_idx, map_uid }),
                )
            }
        }
    }
}

/// R0 holds a socket, if there is one, and with it a new reference.
pub open spec fn acquired_socket(v: EnvView, s: Machine) -> (EnvView, Machine) {
    (
        v.took_id(),
        Machine { refs: s.refs.push(v.ids.next), ..s }.set_type(
            Reg::R0,
            RegType::PtrToSocketOrNull { ref_id: Some(v.ids.next) },
        ),
    )
}

fn acquire_socket(env: &mut VerifierEnv, state: &mut State)
    requires
        old(state).wf(),
    ensures
        final(state).wf(),
        final(env).cfg == old(env).cfg,
        (final(env)@, final(state)@) == acquired_socket(old(env)@, old(state)@),
{
    let id: u32 = env.new_ptr_id();
    state.acquire_ref(id);
    state.set_type(Reg::R0, RegType::PtrToSocketOrNull { ref_id: Some(id) });
}

fn update_lookup_types(env: &mut VerifierEnv, r1: RegType, state: &mut State, helper: u32)
    requires
        old(state).wf(),
        old(state)@.has_frame(Reg::R2),
    ensures
        final(state).wf(),
        final(env).cfg == old(env).cfg,
        (final(env)@, final(state)@) == lookup_typed(
            old(env).cfg,
            old(env)@,
            r1,
            old(state)@,
            helper,
        ),
{
    let map_idx: usize = find_lookup_map(&env.cfg, r1);
    if map_idx >= env.cfg.ctx.map_defs.len() {
        state.set_type(Reg::R0, RegType::ScalarValue);
        return;
    }
    let t: u32 = env.cfg.ctx.map_defs[map_idx].type_;
    if t == constants::BPF_MAP_TYPE_SOCKMAP || t == constants::BPF_MAP_TYPE_SOCKHASH {
        acquire_socket(env, state);
        return;
    }
    let sure: bool = helper == constants::BPF_GET_LOCAL_STORAGE || (helper
        == constants::BPF_MAP_LOOKUP_ELEM && (t == constants::BPF_MAP_TYPE_ARRAY || t
        == constants::BPF_MAP_TYPE_PERCPU_ARRAY) && const_key_in_bounds(
        state,
        &env.cfg.ctx.map_defs[map_idx],
    ));
    let map_uid: Option<u32> = take_lookup_uid(env, r1);
    let id: u32 = env.new_ptr_id();
    if sure {
        state.set_type(Reg::R0, RegType::PtrToMapValue { id, offset: Some(0), map_idx, map_uid });
        state.domain.init_map_value_ptr(Reg::R0);
    } else {
        state.set_type(Reg::R0, RegType::PtrToMapValueOrNull { id, map_idx, map_uid });
    }
}

/// The struct that a helper casts a socket to.
pub open spec fn spec_cast_target(helper: u32) -> Option<&'static str> {
    if helper == constants::BPF_SKC_TO_TCP_SOCK {
        Some("tcp_sock")
    } else if helper == constants::BPF_SKC_TO_TCP6_SOCK {
        Some("tcp6_sock")
    } else if helper == constants::BPF_SKC_TO_TCP_TIMEWAIT_SOCK {
        Some("tcp_timewait_sock")
    } else if helper == constants::BPF_SKC_TO_TCP_REQUEST_SOCK {
        Some("tcp_request_sock")
    } else if helper == constants::BPF_SKC_TO_UDP6_SOCK {
        Some("udp6_sock")
    } else if helper == constants::BPF_SKC_TO_UNIX_SOCK {
        Some("unix_sock")
    } else if helper == constants::BPF_SKC_TO_MPTCP_SOCK {
        Some("mptcp_sock")
    } else {
        None
    }
}

/// The struct that a helper casts a socket to.
#[verifier::when_used_as_spec(spec_cast_target)]
pub fn cast_target(helper: u32) -> (r: Option<&'static str>)
    ensures
        r == spec_cast_target(helper),
{
    if helper == constants::BPF_SKC_TO_TCP_SOCK {
        Some("tcp_sock")
    } else if helper == constants::BPF_SKC_TO_TCP6_SOCK {
        Some("tcp6_sock")
    } else if helper == constants::BPF_SKC_TO_TCP_TIMEWAIT_SOCK {
        Some("tcp_timewait_sock")
    } else if helper == constants::BPF_SKC_TO_TCP_REQUEST_SOCK {
        Some("tcp_request_sock")
    } else if helper == constants::BPF_SKC_TO_UDP6_SOCK {
        Some("udp6_sock")
    } else if helper == constants::BPF_SKC_TO_UNIX_SOCK {
        Some("unix_sock")
    } else if helper == constants::BPF_SKC_TO_MPTCP_SOCK {
        Some("mptcp_sock")
    } else {
        None
    }
}

/// A socket that may be cast: a reference is held to it, it is trusted, or the
/// kernel guarantees it.
pub open spec fn spec_castable(r1: RegType) -> bool {
    r1.get_ref_id() is Some || r1.is_trusted() || r1 is PtrToSockCommon || r1 is PtrToSocket
        || r1 is PtrToTcpSock
}

/// Whether a socket may be cast.
#[verifier::when_used_as_spec(spec_castable)]
pub fn castable(r1: RegType) -> (r: bool)
    ensures
        r == spec_castable(r1),
{
    r1.get_ref_id().is_some() || r1.is_trusted() || matches!(
        r1,
        RegType::PtrToSockCommon { .. } | RegType::PtrToSocket { .. } | RegType::PtrToTcpSock { .. }
    )
}

/// R0 holds a trusted kernel object, if there is one.
pub open spec fn maybe_object(
    v: EnvView,
    s: Machine,
    struct_name: &'static str,
    ref_id: Option<u32>,
) -> (EnvView, Machine) {
    (
        v.took_id(),
        s.set_type(
            Reg::R0,
            RegType::PtrToBtfIdOrNull {
                id: v.ids.next,
                struct_name,
                flags: PtrFlags::with_trusted(),
                ref_id,
            },
        ),
    )
}

fn return_maybe_object(
    env: &mut VerifierEnv,
    state: &mut State,
    struct_name: &'static str,
    ref_id: Option<u32>,
)
    requires
        old(state).wf(),
    ensures
        final(state).wf(),
        final(env).cfg == old(env).cfg,
        (final(env)@, final(state)@) == maybe_object(old(env)@, old(state)@, struct_name, ref_id),
{
    let id: u32 = env.new_ptr_id();
    state.set_type(
        Reg::R0,
        RegType::PtrToBtfIdOrNull { id, struct_name, flags: PtrFlags::with_trusted(), ref_id },
    );
}

/// The state after bytes were copied to the stack buffer R3 points to, of at
/// most as many bytes as R4 says.
pub open spec fn bytes_loaded(s: Machine, r3: RegType) -> Machine {
    match (r3, s.domain.fixed_distance(Reg::R3, Reg::R10)) {
        (RegType::PtrToStack { frame_level }, Some(off)) => {
            let hi = s.domain.range(Reg::R4).1;
            let n = if hi <= 0xFFFF { hi as i16 } else { 0 };
            if n > 0 {
                s.with_stack(frame_level, s.stack_at(frame_level).scalar_run(off, n as int))
            } else {
                s
            }
        },
        _ => s,
    }
}

fn update_loaded_bytes(state: &mut State, r3: RegType)
    requires
        old(state).wf(),
        r3 matches RegType::PtrToStack { frame_level } ==> frame_level.index
            < old(state)@.frames.len(),
    ensures
        final(state).wf(),
        final(state)@ == bytes_loaded(old(state)@, r3),
{
    if let RegType::PtrToStack { frame_level } = r3 {
        if let Some(off) = state.domain.get_distance_fixed(Reg::R3, Reg::R10) {
            let (_, hi) = state.domain.get_interval(Reg::R4);
            let n: i16 = if hi <= 0xFFFF { hi as i16 } else { 0 };
            if n > 0 {
                let mut stack: StackState = state.take_stack(frame_level);
                stack.write_scalars(off, n);
                state.set_stack(frame_level, stack);
                assert(state@ =~= bytes_loaded(old(state)@, r3));
            }
        }
    }
}

/// Helpers that look up an element of a map.
pub open spec fn is_lookup(helper: u32) -> bool {
    helper == constants::BPF_MAP_LOOKUP_ELEM || helper == constants::BPF_MAP_LOOKUP_PERCPU_ELEM
        || helper == constants::BPF_GET_LOCAL_STORAGE
}

/// Helpers that get the storage attached to an object.
pub open spec fn is_storage_get(helper: u32) -> bool {
    helper == constants::BPF_SK_STORAGE_GET || helper == constants::BPF_TASK_STORAGE_GET || helper
        == constants::BPF_INODE_STORAGE_GET || helper == constants::BPF_CGRP_STORAGE_GET
}

/// What a helper makes of R0 and of the references held, if its prototype does
/// not say.
pub open spec fn helper_typed(
    cfg: EnvConfig,
    v: EnvView,
    in_types: Seq<RegType>,
    s: Machine,
    helper: u32,
) -> (EnvView, Machine) {
    let r1 = s.ty(Reg::R1);
    let in_r1 = in_types[Reg::R1.idx() as int];
    if is_lookup(helper) {
        lookup_typed(cfg, v, in_r1, s, helper)
    } else if helper == constants::BPF_SK_LOOKUP_TCP || helper == constants::BPF_SK_LOOKUP_UDP {
        acquired_socket(v, s)
    } else if helper == constants::BPF_GET_LISTENER_SOCK {
        (v, s.set_type(Reg::R0, RegType::PtrToSocketOrNull { ref_id: None }))
    } else if helper == constants::BPF_SK_FULLSOCK {
        (v, s.set_type(Reg::R0, RegType::PtrToSocketOrNull { ref_id: r1.get_ref_id() }))
    } else if helper == constants::BPF_TCP_SOCK {
        (v, s.set_type(Reg::R0, RegType::PtrToTcpSockOrNull { id: r1.get_ref_id() }))
    } else if helper == constants::BPF_SOCK_FROM_FILE {
        maybe_object(v, s, "socket", None)
    } else if helper == constants::BPF_TASK_PT_REGS {
        maybe_object(v, s, "pt_regs", None)
    } else if helper == constants::BPF_SKC_LOOKUP_TCP {
        (
            v.took_id(),
            Machine { refs: s.refs.push(v.ids.next), ..s }.set_type(
                Reg::R0,
                RegType::PtrToSockCommonOrNull { ref_id: Some(v.ids.next) },
            ),
        )
    } else if helper == constants::BPF_SK_RELEASE {
        match r1.get_ref_id() {
            Some(id) => (
                v,
                Machine { refs: crate::machine::state::ids_without(s.refs, id), ..s }.apply_rule(
                    TypeRule::Ref { id },
                ),
            ),
            None => (v, s),
        }
    } else if cast_target(helper) is Some {
        if castable(r1) {
            maybe_object(v, s, cast_target(helper)->Some_0, r1.get_ref_id())
        } else {
            (v, s)
        }
    } else if is_storage_get(helper) {
        (
            v.took_id(),
            s.set_type(
                Reg::R0,
                RegType::PtrToMapValueOrNull {
                    id: v.ids.next,
                    map_idx: storage_map(in_r1),
                    map_uid: None,
                },
            ),
        )
    } else if helper == constants::BPF_SKB_LOAD_BYTES {
        (v, bytes_loaded(s, in_types[Reg::R3.idx() as int]))
    } else if helper == constants::BPF_RINGBUF_RESERVE {
        (
            v.took_id(),
            s.set_type(
                Reg::R0,
                RegType::PtrToAllocMemOrNull {
                    id: v.ids.next,
                    mem_size: s.domain.range(Reg::R2).1 as u64,
                    ref_id: None,
                    dynptr_id: None,
                },
            ),
        )
    } else {
        (v, s.set_type(Reg::R0, RegType::ScalarValue))
    }
}

pub open spec fn spec_storage_map(r1: RegType) -> usize {
    match r1 {
        RegType::PtrToMapObject { map_idx } => map_idx,
        RegType::PtrToMapValue { map_idx, .. } => map_idx,
        _ => 0,
    }
}

/// The map whose storage a helper gets.
#[verifier::when_used_as_spec(spec_storage_map)]
pub fn storage_map(r1: RegType) -> (r: usize)
    ensures
        r == spec_storage_map(r1),
{
    match r1 {
        RegType::PtrToMapObject { map_idx } => map_idx,
        RegType::PtrToMapValue { map_idx, .. } => map_idx,
        _ => 0,
    }
}

/// Stack pointers in the first three argument registers point into frames that
/// exist.
pub open spec fn args_have_frames(in_types: Seq<RegType>, s: Machine) -> bool {
    &&& s.has_frame(Reg::R2)
    &&& forall|r: Reg|
        (r == Reg::R1 || r == Reg::R3) ==> ((#[trigger] in_types[r.idx() as int]) matches RegType::PtrToStack {
            frame_level,
        } ==> frame_level.index < s.frames.len())
}

fn update_helper_types(env: &mut VerifierEnv, in_types: &TypeState, state: &mut State, helper: u32)
    requires
        in_types.wf(),
        old(state).wf(),
        args_have_frames(in_types@, old(state)@),
    ensures
        final(state).wf(),
        final(env).cfg == old(env).cfg,
        (final(env)@, final(state)@) == helper_typed(
            old(env).cfg,
            old(env)@,
            in_types@,
            old(state)@,
            helper,
        ),
        final(state)@.frames.len() == old(state)@.frames.len(),
{
    let r1: RegType = state.types.get(Reg::R1);
    let in_r1: RegType = in_types.get(Reg::R1);
    if helper == constants::BPF_MAP_LOOKUP_ELEM || helper == constants::BPF_MAP_LOOKUP_PERCPU_ELEM
        || helper == constants::BPF_GET_LOCAL_STORAGE {
        update_lookup_types(env, in_r1, state, helper);
    } else if helper == constants::BPF_SK_LOOKUP_TCP || helper == constants::BPF_SK_LOOKUP_UDP {
        acquire_socket(env, state);
    } else if helper == constants::BPF_GET_LISTENER_SOCK {
        state.set_type(Reg::R0, RegType::PtrToSocketOrNull { ref_id: None });
    } else if helper == constants::BPF_SK_FULLSOCK {
        state.set_type(Reg::R0, RegType::PtrToSocketOrNull { ref_id: r1.get_ref_id() });
    } else if helper == constants::BPF_TCP_SOCK {
        state.set_type(Reg::R0, RegType::PtrToTcpSockOrNull { id: r1.get_ref_id() });
    } else if helper == constants::BPF_SOCK_FROM_FILE {
        return_maybe_object(env, state, "socket", None);
    } else if helper == constants::BPF_TASK_PT_REGS {
        return_maybe_object(env, state, "pt_regs", None);
    } else if helper == constants::BPF_SKC_LOOKUP_TCP {
        let id: u32 = env.new_ptr_id();
        state.acquire_ref(id);
        state.set_type(Reg::R0, RegType::PtrToSockCommonOrNull { ref_id: Some(id) });
    } else if helper == constants::BPF_SK_RELEASE {
        if let Some(id) = r1.get_ref_id() {
            state.release_ref(id);
            state.invalidate_ref(id);
        }
    } else if let Some(name) = cast_target(helper) {
        if castable(r1) {
            return_maybe_object(env, state, name, r1.get_ref_id());
        }
    } else if helper == constants::BPF_SK_STORAGE_GET || helper == constants::BPF_TASK_STORAGE_GET
        || helper == constants::BPF_INODE_STORAGE_GET || helper
        == constants::BPF_CGRP_STORAGE_GET {
        let id: u32 = env.new_ptr_id();
        state.set_type(
            Reg::R0,
            RegType::PtrToMapValueOrNull { id, map_idx: storage_map(in_r1), map_uid: None },
        );
    } else if helper == constants::BPF_SKB_LOAD_BYTES {
        let r3: RegType = in_types.get(Reg::R3);
        assert(in_types@[Reg::R3.idx() as int] == r3);
        update_loaded_bytes(state, r3);
    } else if helper == constants::BPF_RINGBUF_RESERVE {
        let (_, hi) = state.domain.get_interval(Reg::R2);
        let id: u32 = env.new_ptr_id();
        state.set_type(
            Reg::R0,
            RegType::PtrToAllocMemOrNull {
                id,
                mem_size: hi as u64,
                ref_id: None,
                dynptr_id: None,
            },
        );
    } else {
        state.set_type(Reg::R0, RegType::ScalarValue);
    }
}

/// The dynamic pointer to a packet that R1 points to.
pub open spec fn written_dynptr(s: Machine, r1: RegType) -> Option<u32> {
    match (r1, s.domain.fixed_distance(Reg::R1, Reg::R10)) {
        (RegType::PtrToStack { frame_level }, Some(off)) => if i16::MIN <= off <= i16::MAX {
            match s.stack_at(frame_level).dynptr_at(off as i16) {
                Some(w) => if w.kind is Skb {
                    Some(w.dynptr_id)
                } else {
                    None
                },
                None => None,
            }
        } else {
            None
        },
        _ => None,
    }
}

fn find_written_dynptr(state: &State, r1: RegType) -> (r: Option<u32>)
    requires
        state.wf(),
        r1 matches RegType::PtrToStack { frame_level } ==> frame_level.index < state@.frames.len(),
    ensures
        r == written_dynptr(state@, r1),
{
    if let RegType::PtrToStack { frame_level } = r1 {
        if let Some(off) = state.domain.get_distance_fixed(Reg::R1, Reg::R10) {
            if i16::MIN as i64 <= off && off <= i16::MAX as i64 {
                if let Some(w) = state.stack_at(frame_level).stack_get_dynptr(off as i16) {
                    if matches!(w.kind, DynptrKind::Skb) {
                        return Some(w.dynptr_id);
                    }
                }
            }
        }
    }
    None
}

/// The state after the effects that a call has besides its result.
pub open spec fn call_aftermath(
    in_types: Seq<RegType>,
    s: Machine,
    helper: u32,
    fastcall: bool,
) -> Machine {
    let s = if fastcall { s } else { s.clobber_args() };
    let s = if helper_invalidates_packets(helper) { s.packet_moved() } else { s };
    match written_dynptr(s, in_types[Reg::R1.idx() as int]) {
        Some(id) => if helper == constants::BPF_DYNPTR_WRITE {
            s.apply_rule(TypeRule::Slice { dynptr: id })
        } else {
            s
        },
        None => s,
    }
}

/// The registers that carry arguments cannot be read.
pub open spec fn arguments_gone(s: Machine) -> bool {
    &&& s.ty(Reg::R1) is NotInit
    &&& s.ty(Reg::R2) is NotInit
    &&& s.ty(Reg::R3) is NotInit
    &&& s.ty(Reg::R4) is NotInit
    &&& s.ty(Reg::R5) is NotInit
}

proof fn lemma_slices_keep_arguments_gone(s: Machine, ids: Seq<u32>)
    requires
        s.types.len() == DBM_DIM,
        arguments_gone(s),
    ensures
        s.drop_slices(ids).types.len() == DBM_DIM,
        arguments_gone(s.drop_slices(ids)),
    decreases ids.len(),
{
    if ids.len() > 0 {
        lemma_slices_keep_arguments_gone(s, ids.drop_last());
    }
}

/// After a call that is not a fast one, the registers that carried arguments
/// cannot be read.
pub proof fn law_calls_use_up_arguments(in_types: Seq<RegType>, s: Machine, helper: u32)
    requires
        s.types.len() == DBM_DIM,
    ensures
        arguments_gone(call_aftermath(in_types, s, helper, false)),
{
    let a = s.clobber_args();
    assert(arguments_gone(a));
    let b = Machine { types: a.types.map_values(by_rule(TypeRule::PacketData)), ..a };
    let c = b.with_stack(b.level(), b.current().stack.without_packet_pointers());
    let d = Machine {
        frames: Seq::new(
            c.frames.len(),
            |i: int|
                FrameView {
                    caller_types: c.frames[i].caller_types.map_values(by_rule(TypeRule::Packet)),
                    ..c.frames[i]
                },
        ),
        ..c
    };
    assert(arguments_gone(d));
    lemma_slices_keep_arguments_gone(d, all_packet_ids(d.frames));
}

/// The types after a call of a helper. `routed` is the type of R0 if the
/// helper's prototype gives it; a fast call keeps the argument registers.
pub open spec fn call_typed(
    cfg: EnvConfig,
    v: EnvView,
    in_types: Seq<RegType>,
    s: Machine,
    helper: u32,
    routed: Option<RegType>,
    fastcall: bool,
) -> (EnvView, Machine) {
    let r1 = in_types[Reg::R1.idx() as int];
    match routed {
        Some(t) => (
            v,
            call_aftermath(in_types, s.set_type(Reg::R0, t), helper, fastcall),
        ),
        None => {
            let s = s.set_type(Reg::R0, RegType::ScalarValue);
            let object = if helper == constants::BPF_PER_CPU_PTR || helper
                == constants::BPF_THIS_CPU_PTR {
                percpu_object(cfg.ctx.btf, r1)
            } else {
                None
            };
            match object {
                Some((struct_name, flags, allocated)) => {
                    let flags = percpu_flags(flags, allocated);
                    let (v, t) = if helper == constants::BPF_PER_CPU_PTR {
                        (
                            v.took_id(),
                            RegType::PtrToBtfIdOrNull {
                                id: v.ids.next,
                                struct_name,
                                flags,
                                ref_id: None,
                            },
                        )
                    } else {
                        (v, RegType::PtrToBtfId { struct_name, flags, ref_id: None })
                    };
                    (v, call_aftermath(in_types, s.set_type(Reg::R0, t), helper, fastcall))
                },
                None => {
                    let (v, s) = helper_typed(cfg, v, in_types, s, helper);
                    (v, call_aftermath(in_types, s, helper, fastcall))
                },
            }
        },
    }
}

fn finish_call(in_types: &TypeState, state: &mut State, helper: u32, fastcall: bool)
    requires
        in_types.wf(),
        old(state).wf(),
        in_types@[Reg::R1.idx() as int] matches RegType::PtrToStack { frame_level }
            ==> frame_level.index < old(state)@.frames.len(),
    ensures
        final(state).wf(),
        final(state)@ == call_aftermath(in_types@, old(state)@, helper, fastcall),
        !fastcall ==> arguments_gone(final(state)@),
{
    proof {
        law_calls_use_up_arguments(in_types@, state@, helper);
    }
    if !fastcall {
        state.clobber_args();
    }
    if helper_invalidates_packets(helper) {
        state.move_packet();
    }
    if helper == constants::BPF_DYNPTR_WRITE {
        if let Some(id) = find_written_dynptr(state, in_types.get(Reg::R1)) {
            state.invalidate_dynptr_slices(id);
        }
    }
}

/// Retypes registers and stacks after a call of a helper.
pub fn update_call_types(
    env: &mut VerifierEnv,
    in_types: &TypeState,
    state: &mut State,
    helper: u32,
    routed: Option<RegType>,
    fastcall: bool,
)
    requires
        in_types.wf(),
        old(state).wf(),
        args_have_frames(in_types@, old(state)@),
    ensures
        final(state).wf(),
        final(env).cfg == old(env).cfg,
        (final(env)@, final(state)@) == call_typed(
            old(env).cfg,
            old(env)@,
            in_types@,
            old(state)@,
            helper,
            routed,
            fastcall,
        ),
        !fastcall ==> arguments_gone(final(state)@),
{
    let r1: RegType = in_types.get(Reg::R1);
    assert(in_types@[Reg::R1.idx() as int] == r1);
    if let Some(t) = routed {
        state.set_type(Reg::R0, t);
        finish_call(in_types, state, helper, fastcall);
        return;
    }
    state.set_type(Reg::R0, RegType::ScalarValue);
    if helper == constants::BPF_PER_CPU_PTR || helper == constants::BPF_THIS_CPU_PTR {
        if let Some((struct_name, flags, allocated)) = find_percpu_object(&env.cfg.ctx.btf, r1) {
            let flags: PtrFlags = percpu_flags(flags, allocated);
            if helper == constants::BPF_PER_CPU_PTR {
                let id: u32 = env.new_ptr_id();
                state.set_type(
                    Reg::R0,
                    RegType::PtrToBtfIdOrNull { id, struct_name, flags, ref_id: None },
                );
            } else {
                state.set_type(Reg::R0, RegType::PtrToBtfId { struct_name, flags, ref_id: None });
            }
            finish_call(in_types, state, helper, fastcall);
            return;
        }
    }
    update_helper_types(env, in_types, state, helper);
    finish_call(in_types, state, helper, fastcall);
}

/// Retypes R0 and R10 on entry to a function of the program.
pub fn update_call_rel_types(state: &mut State)
    requires
        old(state).wf(),
    ensures
        final(state).wf(),
        final(state)@ == old(state)@.set_type(Reg::R0, RegType::NotInit).set_type(
            Reg::R10,
            RegType::PtrToStack { frame_level: old(state)@.level() },
        ),
{
    let frame_level = state.current_frame_level();
    state.set_type(Reg::R0, RegType::NotInit);
    state.set_type(Reg::R10, RegType::PtrToStack { frame_level });
}

/// Retypes registers after a load from the packet.
pub fn update_packet_load_types(types: &mut TypeState)
    requires
        old(types).wf(),
    ensures
        final(types).wf(),
        final(types)@ == crate::machine::reg_types::clobbered(
            old(types)@,
            RegType::NotInit,
        ).update(Reg::R0.idx() as int, RegType::ScalarValue),
{
    types.set(Reg::R1, RegType::NotInit);
    types.set(Reg::R2, RegType::NotInit);
    types.set(Reg::R3, RegType::NotInit);
    types.set(Reg::R4, RegType::NotInit);
    types.set(Reg::R5, RegType::NotInit);
    types.set(Reg::R0, RegType::ScalarValue);
}

/// The type that a wide load of a map or of its value yields. Pointers into
/// static data share the identity 0.
pub open spec fn map_pointer(
    kind: MapLoadKind,
    map_idx: usize,
    offset: i64,
    is_static: bool,
    id: u32,
) -> RegType {
    if kind is MapPtr {
        RegType::PtrToMapObject { map_idx }
    } else {
        RegType::PtrToMapValue {
            id: if is_static { 0 } else { id },
            offset: Some(offset),
            map_idx,
            map_uid: None,
        }
    }
}

/// Retypes the destination of a wide load of a map or of its value.
pub fn update_map_load_types(
    env: &mut VerifierEnv,
    types: &mut TypeState,
    kind: MapLoadKind,
    map_idx: usize,
    dst: Reg,
    offset: i64,
    is_static_data_section: bool,
)
    requires
        old(types).wf(),
        kind is MapPtr || kind is MapValue,
    ensures
        final(types).wf(),
        final(env).cfg == old(env).cfg,
        final(types)@ == old(types)@.update(
            dst.idx() as int,
            map_pointer(kind, map_idx, offset, is_static_data_section, old(env)@.ids.next),
        ),
        final(env)@ == if kind is MapValue && !is_static_data_section {
            old(env)@.took_id()
        } else {
            old(env)@
        },
{
    let t: RegType = match kind {
        MapLoadKind::MapPtr => RegType::PtrToMapObject { map_idx },
        _ => {
            let id: u32 = if is_static_data_section { 0 } else { env.new_ptr_id() };
            RegType::PtrToMapValue { id, offset: Some(offset), map_idx, map_uid: None }
        },
    };
    types.set(dst, t);
}

} // verus!
