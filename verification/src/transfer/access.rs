//! Whether loads and stores are safe.
use crate::common::constants;
use crate::common::ctx_model::{
    ctx_readable, ctx_writable, is_valid_ctx_read, is_valid_ctx_write,
};
use crate::common::mem_region_model::{is_valid_mem_region_read, region_readable};
use crate::machine::env::{EnvConfig, EnvView, VerifierEnv};
use crate::machine::error::VerificationError;
use crate::machine::reg::Reg;
use crate::machine::reg_types::RegType;
use crate::machine::state::{Machine, State};
use crate::text::text_eq;
use crate::transfer::map_access::{
    check_kptr_field_access, check_map_access, kptr_fault, map_checked, with_fault,
};
use crate::transfer::packet::{
    check_packet_access, check_packet_meta_access, packet_checked, packet_meta_checked,
};
use crate::transfer::stack::{check_stack_access, stack_checked};
use vstd::prelude::*;

verus! {

/// How memory is accessed.
#[derive(Debug, Clone, Copy, PartialEq, Eq, Structural)]
pub enum AccessKind {
    Read,
    Write,
    /// A helper reads a buffer.
    HelperBuffer,
    /// A helper reads one value.
    HelperPrimitive,
}

/// What an access to a map value reports, with what the map forbids and with
/// its kernel pointers.
pub open spec fn map_value_checked(
    cfg: EnvConfig,
    v: EnvView,
    s: Machine,
    map_off: Option<i64>,
    map_idx: usize,
    base: Reg,
    off: i16,
    size: i64,
    is_store: bool,
) -> EnvView {
    let pc = s.pc;
    if map_idx < cfg.ctx.map_defs@.len() {
        let d = cfg.ctx.map_defs@[map_idx as int];
        let v = if is_store {
            v.fail_if(
                d.map_flags & constants::BPF_F_RDONLY_PROG != 0,
                VerificationError::MapStoreForbidden { pc, map_idx },
            )
        } else {
            v.fail_if(
                d.map_flags & constants::BPF_F_WRONLY_PROG != 0,
                VerificationError::MapLoadForbidden { pc, map_idx },
            )
        };
        let v = with_fault(
            v,
            kptr_fault(d, s, map_idx, base, map_off, off, size, pc, is_store),
        );
        map_checked(cfg, v, s, map_off, map_idx, base, off, size, pc)
    } else {
        v.fail(VerificationError::MapNotFound { pc, map_idx })
    }
}

fn check_map_value(
    env: &mut VerifierEnv,
    state: &State,
    map_off: Option<i64>,
    map_idx: usize,
    base: Reg,
    off: i16,
    size: i64,
    is_store: bool,
)
    requires
        state.wf(),
    ensures
        final(env).cfg == old(env).cfg,
        final(env)@ == map_value_checked(
            old(env).cfg,
            old(env)@,
            state@,
            map_off,
            map_idx,
            base,
            off,
            size,
            is_store,
        ),
{
    let pc: usize = state.pc;
    if map_idx < env.cfg.ctx.map_defs.len() {
        let flags: u32 = env.cfg.ctx.map_defs[map_idx].map_flags;
        if is_store {
            if flags & constants::BPF_F_RDONLY_PROG != 0 {
                env.fail(VerificationError::MapStoreForbidden { pc, map_idx });
            }
        } else {
            if flags & constants::BPF_F_WRONLY_PROG != 0 {
                env.fail(VerificationError::MapLoadForbidden { pc, map_idx });
            }
        }
        check_kptr_field_access(env, state, map_idx, base, map_off, off, size, pc, is_store);
        check_map_access(env, state, map_off, map_idx, base, off, size, pc);
    } else {
        env.fail(VerificationError::MapNotFound { pc, map_idx });
    }
}

/// The register whose exact value decides whether a load is safe.
pub open spec fn load_sink(s: Machine, base: Reg) -> Reg {
    match s.note(base).contributor {
        Some(r) => r,
        None => base,
    }
}

/// The reports of the registers whose exact values a load depends on.
pub open spec fn load_marked(v: EnvView, s: Machine, base: Reg) -> EnvView {
    match s.history_idx {
        Some(h) => if base != Reg::R10 {
            v.sink(h, s.parent_cache_id, load_sink(s, base))
        } else {
            v
        },
        None => v,
    }
}

/// Objects of which only listed fields can be read through a typed pointer.
pub open spec fn has_field_table(t: RegType) -> bool {
    t is PtrToMapObject || (t matches RegType::PtrToBtfId { struct_name, .. } && struct_name@
        == "bpf_iter_meta"@)
}

/// The fault of a load through a pointer to a kernel object, to memory the
/// program owns, or to nothing.
pub open spec fn object_load_fault(
    cfg: EnvConfig,
    t: RegType,
    pc: usize,
    base: Reg,
    off: i16,
    size: i64,
) -> Option<VerificationError> {
    let generic = VerificationError::UnsafeGenericLoad { pc, base, off, base_type: t };
    match t {
        RegType::PtrToBtfId { .. } => if t.ptr_flags().user || t.ptr_flags().percpu {
            Some(generic)
        } else if has_field_table(t) && !region_readable(t, off, size) {
            Some(VerificationError::UnsafeSocketAccess { pc, off, size })
        } else {
            None
        },
        RegType::PtrToMapObject { .. } => if !region_readable(t, off, size) {
            Some(VerificationError::UnsafeSocketAccess { pc, off, size })
        } else {
            None
        },
        RegType::PtrToAllocMem { mem_size, .. } => if off < 0 || off + size > mem_size as i64 {
            Some(VerificationError::UnsafeMemoryLoad { pc, base, off, size })
        } else {
            None
        },
        RegType::PtrToArena { .. } => None,
        RegType::PtrToTask { .. } => None,
        RegType::PtrToCgroup { .. } => None,
        RegType::PtrToOwnedKptr { .. } => None,
        RegType::PtrToMapKptr { pointee_btf_id, offset, .. } => {
            let known = cfg.ctx.btf.type_size_bytes(pointee_btf_id);
            if known > 0 && (off + offset < 0 || off + offset + size > known) {
                Some(generic)
            } else {
                None
            }
        },
        _ => Some(generic),
    }
}

fn find_object_load_fault(
    cfg: &EnvConfig,
    t: RegType,
    pc: usize,
    base: Reg,
    off: i16,
    size: i64,
) -> (r: Option<VerificationError>)
    requires
        0 < size <= 0x7FFF,
    ensures
        r == object_load_fault(*cfg, t, pc, base, off, size),
{
    let generic: VerificationError = VerificationError::UnsafeGenericLoad {
        pc,
        base,
        off,
        base_type: t,
    };
    match t {
        RegType::PtrToBtfId { struct_name, .. } => {
            let flags = t.ptr_flags();
            if flags.user || flags.percpu {
                Some(generic)
            } else if text_eq(struct_name, "bpf_iter_meta") && !is_valid_mem_region_read(
                t,
                off,
                size,
            ) {
                Some(VerificationError::UnsafeSocketAccess { pc, off, size })
            } else {
                None
            }
        },
        RegType::PtrToMapObject { .. } => if !is_valid_mem_region_read(t, off, size) {
            Some(VerificationError::UnsafeSocketAccess { pc, off, size })
        } else {
            None
        },
        RegType::PtrToAllocMem { mem_size, .. } => if off < 0 || off as i64 + size
            > mem_size as i64 {
            Some(VerificationError::UnsafeMemoryLoad { pc, base, off, size })
        } else {
            None
        },
        RegType::PtrToArena { .. } | RegType::PtrToTask { .. } | RegType::PtrToCgroup { .. }
        | RegType::PtrToOwnedKptr { .. } => None,
        RegType::PtrToMapKptr { pointee_btf_id, offset, .. } => {
            let known: i64 = cfg.ctx.btf.type_size_bytes(pointee_btf_id) as i64;
            let at: i64 = off as i64 + offset as i64;
            if known > 0 && (at < 0 || at + size > known) {
                Some(generic)
            } else {
                None
            }
        },
        _ => Some(generic),
    }
}

/// What a load reports.
pub open spec fn load_checked(
    cfg: EnvConfig,
    v: EnvView,
    s: Machine,
    base: Reg,
    size: i64,
    off: i16,
) -> EnvView {
    let t = s.ty(base);
    let pc = s.pc;
    let v = load_marked(v, s, base);
    match t {
        RegType::PtrToStack { frame_level } => stack_checked(
            cfg,
            v,
            s,
            base,
            s.domain.fixed_distance(base, Reg::R10),
            off as i64,
            size,
            pc,
            AccessKind::Read,
            None,
            frame_level,
        ),
        RegType::PtrToPacket => packet_checked(cfg, v, s, base, off, size, pc, AccessKind::Read),
        RegType::PtrToPacketMeta => packet_meta_checked(v, s, base, off, size, pc),
        RegType::PtrToCtx => v.fail_if(
            !ctx_readable(cfg.ctx, off, size),
            VerificationError::UnsafeCtxAccess { pc, off, size },
        ),
        RegType::PtrToMapValue { offset, map_idx, .. } => map_value_checked(
            cfg,
            v,
            s,
            offset,
            map_idx,
            base,
            off,
            size,
            false,
        ),
        RegType::PtrToMapValueOrNull { .. } => v.fail(
            VerificationError::UnsafeMapLoad { pc, off: off as i64, size, limit: 0 },
        ),
        RegType::PtrToTcpSock { .. } => v.fail_if(
            !region_readable(t, off, size),
            VerificationError::UnsafeSocketAccess { pc, off, size },
        ),
        RegType::PtrToSockCommon { .. } => v.fail_if(
            !region_readable(t, off, size),
            VerificationError::UnsafeSocketAccess { pc, off, size },
        ),
        RegType::PtrToSocket { .. } => v.fail_if(
            !region_readable(t, off, size),
            VerificationError::UnsafeSocketAccess { pc, off, size },
        ),
        _ => with_fault(v, object_load_fault(cfg, t, pc, base, off, size)),
    }
}

/// Checks a load.
pub fn check_load(env: &mut VerifierEnv, state: &State, base: Reg, size: i64, off: i16)
    requires
        state.wf(),
        state@.has_frame(base),
        0 < size <= 0x7FFF,
    ensures
        final(env).cfg == old(env).cfg,
        final(env)@ == load_checked(old(env).cfg, old(env)@, state@, base, size, off),
{
    let t: RegType = state.types.get(base);
    let pc: usize = state.pc;
    if let Some(h) = state.history_idx {
        if base != Reg::R10 {
            let sink: Reg = match state.notes[base.idx()].contributor {
                Some(r) => r,
                None => base,
            };
            env.mark_chain_precision_backward(h, state.parent_cache_id, sink);
        }
    }
    match t {
        RegType::PtrToStack { frame_level } => {
            let at: Option<i64> = state.domain.get_distance_fixed(base, Reg::R10);
            check_stack_access(
                env,
                state,
                base,
                at,
                off as i64,
                size,
                pc,
                AccessKind::Read,
                None,
                frame_level,
            );
        },
        RegType::PtrToPacket => check_packet_access(
            env,
            state,
            base,
            off,
            size,
            pc,
            AccessKind::Read,
        ),
        RegType::PtrToPacketMeta => check_packet_meta_access(env, state, base, off, size, pc),
        RegType::PtrToCtx => {
            if !is_valid_ctx_read(&env.cfg.ctx, off, size) {
                env.fail(VerificationError::UnsafeCtxAccess { pc, off, size });
            }
        },
        RegType::PtrToMapValue { offset, map_idx, .. } => check_map_value(
            env,
            state,
            offset,
            map_idx,
            base,
            off,
            size,
            false,
        ),
        RegType::PtrToMapValueOrNull { .. } => env.fail(
            VerificationError::UnsafeMapLoad { pc, off: off as i64, size, limit: 0 },
        ),
        RegType::PtrToTcpSock { .. } | RegType::PtrToSockCommon { .. }
        | RegType::PtrToSocket { .. } => {
            if !is_valid_mem_region_read(t, off, size) {
                env.fail(VerificationError::UnsafeSocketAccess { pc, off, size });
            }
        },
        _ => {
            let fault: Option<VerificationError> = find_object_load_fault(
                &env.cfg,
                t,
                pc,
                base,
                off,
                size,
            );
            if let Some(e) = fault {
                env.fail(e);
            }
        },
    }
}

/// The reports of the registers whose exact values a store depends on.
pub open spec fn store_marked(v: EnvView, s: Machine, base: Reg) -> EnvView {
    match (s.history_idx, s.note(base).contributor) {
        (Some(h), Some(r)) => v.sink(h, s.parent_cache_id, r),
        _ => v,
    }
}

/// Kernel objects that stores are not checked for.
pub open spec fn stores_unchecked(name: Seq<char>) -> bool {
    name == "unknown"@ || name == "nf_conn___init"@ || name == "nf_conn"@
}

/// The fault of a store through a pointer to a kernel object, to memory the
/// program owns, or to nothing.
pub open spec fn object_store_fault(
    t: RegType,
    pc: usize,
    base: Reg,
    off: i16,
    size: i64,
) -> Option<VerificationError> {
    let generic = VerificationError::UnsafeGenericStore { pc, base, off, base_type: t };
    match t {
        RegType::PtrToAllocMem { mem_size, .. } => if off < 0 || off + size > mem_size as i64 {
            Some(VerificationError::UnsafeMemoryStore { pc, base, off, size })
        } else {
            None
        },
        RegType::PtrToOwnedKptr { .. } => None,
        RegType::PtrToArena { .. } => None,
        RegType::PtrToBtfId { struct_name, .. } => if stores_unchecked(struct_name@)
            || region_readable(t, off, size) {
            None
        } else {
            Some(generic)
        },
        _ => Some(generic),
    }
}

fn find_object_store_fault(t: RegType, pc: usize, base: Reg, off: i16, size: i64) -> (r: Option<
    VerificationError,
>)
    requires
        0 < size <= 0x7FFF,
    ensures
        r == object_store_fault(t, pc, base, off, size),
{
    let generic: VerificationError = VerificationError::UnsafeGenericStore {
        pc,
        base,
        off,
        base_type: t,
    };
    match t {
        RegType::PtrToAllocMem { mem_size, .. } => if off < 0 || off as i64 + size > mem_size as i64 {
            Some(VerificationError::UnsafeMemoryStore { pc, base, off, size })
        } else {
            None
        },
        RegType::PtrToOwnedKptr { .. } | RegType::PtrToArena { .. } => None,
        RegType::PtrToBtfId { struct_name, .. } => if text_eq(struct_name, "unknown") || text_eq(
            struct_name,
            "nf_conn___init",
        ) || text_eq(struct_name, "nf_conn") || is_valid_mem_region_read(t, off, size) {
            None
        } else {
            Some(generic)
        },
        _ => Some(generic),
    }
}

/// The size of a map's values, or 0 if there is no such map.
pub open spec fn value_limit(cfg: EnvConfig, map_idx: usize) -> i64 {
    if map_idx < cfg.ctx.map_defs@.len() {
        cfg.ctx.map_defs@[map_idx as int].value_size as i64
    } else {
        0
    }
}

/// What a store reports.
pub open spec fn store_checked(
    cfg: EnvConfig,
    v: EnvView,
    s: Machine,
    base: Reg,
    size: i64,
    off: i16,
    src_type: RegType,
) -> EnvView {
    let t = s.ty(base);
    let pc = s.pc;
    let v = store_marked(v, s, base);
    match t {
        RegType::PtrToMapValue { offset, map_idx, .. } => map_value_checked(
            cfg,
            v,
            s,
            offset,
            map_idx,
            base,
            off,
            size,
            true,
        ),
        RegType::PtrToStack { frame_level } => stack_checked(
            cfg,
            v,
            s,
            base,
            s.domain.fixed_distance(base, Reg::R10),
            off as i64,
            size,
            pc,
            AccessKind::Write,
            Some(src_type),
            frame_level,
        ),
        RegType::PtrToPacket => packet_checked(cfg, v, s, base, off, size, pc, AccessKind::Write),
        RegType::PtrToPacketMeta => packet_meta_checked(v, s, base, off, size, pc),
        RegType::PtrToMapValueOrNull { map_idx, .. } => v.fail(
            VerificationError::UnsafeMapStore {
                pc,
                off: off as i64,
                size,
                limit: value_limit(cfg, map_idx),
            },
        ),
        RegType::PtrToCtx => v.fail_if(
            !ctx_writable(cfg.ctx, off, size),
            VerificationError::UnsafeCtxAccess { pc, off, size },
        ),
        _ => with_fault(v, object_store_fault(t, pc, base, off, size)),
    }
}

/// Checks a store.
pub fn check_store(
    env: &mut VerifierEnv,
    state: &State,
    base: Reg,
    size: i64,
    off: i16,
    src_type: RegType,
)
    requires
        state.wf(),
        state@.has_frame(base),
        0 < size <= 0x7FFF,
    ensures
        final(env).cfg == old(env).cfg,
        final(env)@ == store_checked(old(env).cfg, old(env)@, state@, base, size, off, src_type),
{
    let t: RegType = state.types.get(base);
    let pc: usize = state.pc;
    if let Some(h) = state.history_idx {
        if let Some(r) = state.notes[base.idx()].contributor {
            env.mark_chain_precision_backward(h, state.parent_cache_id, r);
        }
    }
    match t {
        RegType::PtrToMapValue { offset, map_idx, .. } => check_map_value(
            env,
            state,
            offset,
            map_idx,
            base,
            off,
            size,
            true,
        ),
        RegType::PtrToStack { frame_level } => {
            let at: Option<i64> = state.domain.get_distance_fixed(base, Reg::R10);
            check_stack_access(
                env,
                state,
                base,
                at,
                off as i64,
                size,
                pc,
                AccessKind::Write,
                Some(src_type),
                frame_level,
            );
        },
        RegType::PtrToPacket => check_packet_access(
            env,
            state,
            base,
            off,
            size,
            pc,
            AccessKind::Write,
        ),
        RegType::PtrToPacketMeta => check_packet_meta_access(env, state, base, off, size, pc),
        RegType::PtrToMapValueOrNull { map_idx, .. } => {
            let limit: i64 = if map_idx < env.cfg.ctx.map_defs.len() {
                env.cfg.ctx.map_defs[map_idx].value_size as i64
            } else {
                0
            };
            env.fail(VerificationError::UnsafeMapStore { pc, off: off as i64, size, limit });
        },
        RegType::PtrToCtx => {
            if !is_valid_ctx_write(&env.cfg.ctx, off, size) {
                env.fail(VerificationError::UnsafeCtxAccess { pc, off, size });
            }
        },
        _ => {
            let fault: Option<VerificationError> = find_object_store_fault(
                t,
                pc,
                base,
                off,
                size,
            );
            if let Some(e) = fault {
                env.fail(e);
            }
        },
    }
}

/// A load through a number, an uninitialized register or a pointer that may be
/// null is always reported.
pub proof fn law_loads_need_a_pointer(
    cfg: EnvConfig,
    v: EnvView,
    s: Machine,
    base: Reg,
    size: i64,
    off: i16,
)
    requires
        s.ty(base) is ScalarValue || s.ty(base) is NotInit || s.ty(base) is PtrToSocketOrNull || s.ty(
            base,
        ) is PtrToSockCommonOrNull || s.ty(base) is PtrToTcpSockOrNull || s.ty(
            base,
        ) is PtrToMapValueOrNull || s.ty(base) is PtrToBtfIdOrNull || s.ty(
            base,
        ) is PtrToAllocMemOrNull || s.ty(base) is PtrToMapKptrOrNull,
    ensures
        load_checked(cfg, v, s, base, size, off).failures.len() == v.failures.len() + 1,
{
}

/// Sockets are never written, not even if they may be null.
pub proof fn law_sockets_are_read_only(
    cfg: EnvConfig,
    v: EnvView,
    s: Machine,
    base: Reg,
    size: i64,
    off: i16,
    src_type: RegType,
)
    requires
        s.ty(base) is PtrToSocket || s.ty(base) is PtrToSockCommon || s.ty(base) is PtrToTcpSock
            || s.ty(base) is PtrToSocketOrNull || s.ty(base) is PtrToSockCommonOrNull || s.ty(
            base,
        ) is PtrToTcpSockOrNull,
    ensures
        store_checked(cfg, v, s, base, size, off, src_type).failures.len() == v.failures.len() + 1,
{
}

} // verus!
