//! Which accesses to the context a program may make, and what they yield.
use crate::ast::prog::{ContextKind, ProgramKind};
use crate::common::ctx_tables::{
    flow_dissector_extended_fields, flow_dissector_extended_table, flow_dissector_fields,
    flow_dissector_table, iter_task_fields, iter_task_table, object, pt_regs_fields, pt_regs_table,
    sk_buff_extended_fields, sk_buff_extended_table, sk_buff_fields, sk_buff_table, sk_lookup_fields, sk_lookup_table,
    sk_msg_md_fields, sk_msg_md_table, sock_addr_fields, sock_addr_table, sock_fields,
    sock_ops_fields, sock_ops_table, sock_table, sockopt_fields, sockopt_table,
    xdp_md_devmap_fields, xdp_md_devmap_table, xdp_md_fields, xdp_md_table, CtxField, CtxFieldKind,
};
use crate::common::mem_region_model::{is_within, within};
use crate::machine::env::{reads, text_is, AttachArg, EntryArg, ExecContext};
use crate::machine::find::{first_where, lemma_first_where_at, lemma_first_where_none};
use crate::machine::layout::BtfFieldKind;
use crate::machine::reg_types::PtrFlags;
use crate::num::divides;
use crate::text::text_eq;
use crate::transfer::fields::{trusted_field, trusted_field_load};
use vstd::prelude::*;

verus! {

/// A part of a context struct in which every aligned access is allowed.
#[derive(Clone, Copy, Debug, PartialEq, Eq, Structural)]
pub struct CtxRegion {
    pub start: i16,
    pub end: i16,
    pub readable: bool,
    pub writable: bool,
}

/// What an access to the context may do, and what a load yields.
#[derive(Clone, Copy, Debug, PartialEq, Eq)]
pub struct CtxAccessInfo {
    pub kind: CtxFieldKind,
    pub writable: bool,
    pub readable: bool,
}

pub const SK_BUFF_CB_START: i16 = 48;

pub const SK_BUFF_CB_END: i16 = 68;

pub const SOCK_ADDR_USER_IP6_START: i16 = 8;

pub const SOCK_ADDR_USER_IP6_END: i16 = 24;

pub const SOCK_ADDR_MSG_SRC_IP6_START: i16 = 44;

pub const SOCK_ADDR_MSG_SRC_IP6_END: i16 = 56;

/// Sizes of one machine access.
pub open spec fn is_access_size(size: i64) -> bool {
    size == 1 || size == 2 || size == 4 || size == 8
}

fn access_size_ok(size: i64) -> (r: bool)
    ensures
        r == is_access_size(size),
{
    size == 1 || size == 2 || size == 4 || size == 8
}

/// `size` divides `off`.
pub open spec fn aligned(off: i16, size: i64) -> bool {
    off as int % size as int == 0
}

pub open spec fn covers(off: i16, size: i64) -> spec_fn(CtxField) -> bool {
    |f: CtxField| within(f.offset, f.size.bytes(), f.narrow_access, off, size)
}

pub open spec fn info_of(f: CtxField) -> CtxAccessInfo {
    CtxAccessInfo { kind: f.kind, readable: f.readable, writable: f.writable }
}

/// What an aligned access to one of some fields may do.
pub open spec fn field_access(fields: Seq<CtxField>, off: i16, size: i64) -> Option<CtxAccessInfo> {
    if aligned(off, size) {
        match first_where(fields, covers(off, size)) {
            Some(f) => Some(info_of(f)),
            None => None,
        }
    } else {
        None
    }
}

fn lookup_field(fields: &Vec<CtxField>, off: i16, size: i64) -> (r: Option<CtxAccessInfo>)
    requires
        0 < size <= 0x7FFF,
    ensures
        r == field_access(fields@, off, size),
{
    if !divides(size, off as i64) {
        return None;
    }
    let mut i: usize = 0;
    while i < fields.len()
        invariant
            i <= fields@.len(),
            0 < size <= 0x7FFF,
            aligned(off, size),
            forall|k: int| 0 <= k < i ==> !covers(off, size)(#[trigger] fields@[k]),
        decreases fields@.len() - i,
    {
        let f: CtxField = fields[i];
        if is_within(f.offset, f.size.bytes(), f.narrow_access, off, size) {
            proof {
                lemma_first_where_at(fields@, covers(off, size), i as int);
            }
            return Some(CtxAccessInfo { kind: f.kind, readable: f.readable, writable: f.writable });
        }
        i = i + 1;
    }
    proof {
        lemma_first_where_none(fields@, covers(off, size));
    }
    None
}

/// The parts of a context in which every aligned access is allowed.
pub open spec fn region_table(ctx_kind: ContextKind) -> Seq<CtxRegion> {
    match ctx_kind {
        ContextKind::SkBuff => seq![
            CtxRegion {
                start: SK_BUFF_CB_START,
                end: SK_BUFF_CB_END,
                readable: true,
                writable: true,
            },
        ],
        ContextKind::BpfSockAddr => seq![
            CtxRegion {
                start: SOCK_ADDR_USER_IP6_START,
                end: SOCK_ADDR_USER_IP6_END,
                readable: true,
                writable: true,
            },
            CtxRegion {
                start: SOCK_ADDR_MSG_SRC_IP6_START,
                end: SOCK_ADDR_MSG_SRC_IP6_END,
                readable: true,
                writable: true,
            },
        ],
        _ => seq![],
    }
}

fn get_regions(ctx_kind: ContextKind) -> (r: Vec<CtxRegion>)
    ensures
        r@ == region_table(ctx_kind),
{
    match ctx_kind {
        ContextKind::SkBuff => vec![
            CtxRegion {
                start: SK_BUFF_CB_START,
                end: SK_BUFF_CB_END,
                readable: true,
                writable: true,
            },
        ],
        ContextKind::BpfSockAddr => vec![
            CtxRegion {
                start: SOCK_ADDR_USER_IP6_START,
                end: SOCK_ADDR_USER_IP6_END,
                readable: true,
                writable: true,
            },
            CtxRegion {
                start: SOCK_ADDR_MSG_SRC_IP6_START,
                end: SOCK_ADDR_MSG_SRC_IP6_END,
                readable: true,
                writable: true,
            },
        ],
        _ => Vec::new(),
    }
}

pub open spec fn region_holds(off: i16, size: i64) -> spec_fn(CtxRegion) -> bool {
    |r: CtxRegion| r.start <= off && off + size <= r.end
}

/// What an access to one of the free parts of a context may do.
pub open spec fn region_access(ctx_kind: ContextKind, off: i16, size: i64) -> Option<
    CtxAccessInfo,
> {
    if is_access_size(size) && aligned(off, size) {
        match first_where(region_table(ctx_kind), region_holds(off, size)) {
            Some(r) => Some(
                CtxAccessInfo {
                    kind: CtxFieldKind::Scalar,
                    readable: r.readable,
                    writable: r.writable,
                },
            ),
            None => None,
        }
    } else {
        None
    }
}

fn lookup_region(ctx_kind: ContextKind, off: i16, size: i64) -> (r: Option<CtxAccessInfo>)
    ensures
        r == region_access(ctx_kind, off, size),
{
    if !access_size_ok(size) || !divides(size, off as i64) {
        return None;
    }
    let regions: Vec<CtxRegion> = get_regions(ctx_kind);
    let mut i: usize = 0;
    while i < regions.len()
        invariant
            i <= regions@.len(),
            is_access_size(size),
            aligned(off, size),
            regions@ == region_table(ctx_kind),
            forall|k: int| 0 <= k < i ==> !region_holds(off, size)(#[trigger] regions@[k]),
        decreases regions@.len() - i,
    {
        let x: CtxRegion = regions[i];
        if x.start <= off && off as i64 + size <= x.end as i64 {
            proof {
                lemma_first_where_at(regions@, region_holds(off, size), i as int);
            }
            return Some(
                CtxAccessInfo {
                    kind: CtxFieldKind::Scalar,
                    readable: x.readable,
                    writable: x.writable,
                },
            );
        }
        i = i + 1;
    }
    proof {
        lemma_first_where_none(regions@, region_holds(off, size));
    }
    None
}

/// The fields of a context that every program sees, and those that only some
/// see. A flow dissector sees few of the former.
pub open spec fn field_tables(
    ctx_kind: ContextKind,
    prog_kind: ProgramKind,
    attach_subtype: Option<String>,
) -> Option<(Seq<CtxField>, Seq<CtxField>)> {
    match ctx_kind {
        ContextKind::SkBuff => Some(
            (
                if prog_kind is FlowDissector {
                    flow_dissector_table()
                } else {
                    sk_buff_table()
                },
                match prog_kind {
                    ProgramKind::CgroupSkb => sk_buff_extended_table(),
                    ProgramKind::SchedCls => sk_buff_extended_table(),
                    ProgramKind::SchedAct => sk_buff_extended_table(),
                    ProgramKind::FlowDissector => flow_dissector_extended_table(),
                    _ => seq![],
                },
            ),
        ),
        ContextKind::XdpMd => Some(
            (
                xdp_md_table(),
                if reads(attach_subtype, "devmap") {
                    xdp_md_devmap_table()
                } else {
                    seq![]
                },
            ),
        ),
        ContextKind::BpfSockAddr => Some((sock_addr_table(), seq![])),
        ContextKind::BpfSockopt => Some((sockopt_table(), seq![])),
        ContextKind::SkLookup => Some((sk_lookup_table(), seq![])),
        ContextKind::SockOps => Some((sock_ops_table(), seq![])),
        ContextKind::BpfSock => Some((sock_table(), seq![])),
        ContextKind::SkMsgMd => Some((sk_msg_md_table(), seq![])),
        ContextKind::PtRegs => Some((pt_regs_table(), seq![])),
        ContextKind::IterTask => Some((iter_task_table(), seq![])),
        _ => None,
    }
}

fn get_field_tables(
    ctx_kind: ContextKind,
    prog_kind: ProgramKind,
    attach_subtype: &Option<String>,
) -> (r: Option<(Vec<CtxField>, Vec<CtxField>)>)
    ensures
        match r {
            Some((a, b)) => field_tables(ctx_kind, prog_kind, *attach_subtype) == Some((a@, b@)),
            None => field_tables(ctx_kind, prog_kind, *attach_subtype) is None,
        },
{
    let none: Vec<CtxField> = Vec::new();
    match ctx_kind {
        ContextKind::SkBuff => {
            let extended: Vec<CtxField> = match prog_kind {
                ProgramKind::CgroupSkb | ProgramKind::SchedCls | ProgramKind::SchedAct => {
                    sk_buff_extended_fields()
                },
                ProgramKind::FlowDissector => flow_dissector_extended_fields(),
                _ => none,
            };
            let base: Vec<CtxField> = if matches!(prog_kind, ProgramKind::FlowDissector) {
                flow_dissector_fields()
            } else {
                sk_buff_fields()
            };
            Some((base, extended))
        },
        ContextKind::XdpMd => {
            let extended: Vec<CtxField> = if text_is(attach_subtype, "devmap") {
                xdp_md_devmap_fields()
            } else {
                none
            };
            Some((xdp_md_fields(), extended))
        },
        ContextKind::BpfSockAddr => Some((sock_addr_fields(), none)),
        ContextKind::BpfSockopt => Some((sockopt_fields(), none)),
        ContextKind::SkLookup => Some((sk_lookup_fields(), none)),
        ContextKind::SockOps => Some((sock_ops_fields(), none)),
        ContextKind::BpfSock => Some((sock_fields(), none)),
        ContextKind::SkMsgMd => Some((sk_msg_md_fields(), none)),
        ContextKind::PtRegs => Some((pt_regs_fields(), none)),
        ContextKind::IterTask => Some((iter_task_fields(), none)),
        _ => None,
    }
}

/// Programs that classify traffic of a device or a cgroup.
pub open spec fn classifies(k: ProgramKind) -> bool {
    k is CgroupSkb || k is SchedCls || k is SchedAct
}

/// Programs that see the packet itself through `struct __sk_buff`.
pub open spec fn sees_packet(k: ProgramKind) -> bool {
    k is SchedCls || k is SchedAct || k is SkSkb || k is LwtIn || k is LwtOut || k is LwtXmit
        || k is CgroupSkb || k is FlowDissector
}

/// What an access may do once the program's type is taken into account.
pub open spec fn overridden(k: ProgramKind, off: i16, info: CtxAccessInfo) -> CtxAccessInfo {
    if k.context_kind() != ContextKind::SkBuff {
        info
    } else if off == 8 {
        CtxAccessInfo { readable: !(k is SkSkb), writable: !(k is SkSkb), ..info }
    } else if off == 32 || off == 152 {
        CtxAccessInfo { writable: info.writable || classifies(k), ..info }
    } else if off == 72 {
        CtxAccessInfo {
            readable: false,
            writable: info.writable && (k is SchedCls || k is SchedAct),
            ..info
        }
    } else if 76 <= off <= 80 {
        CtxAccessInfo { readable: info.readable && sees_packet(k), ..info }
    } else if off == 88 || off == 92 || off == 96 || 100 <= off <= 128 || off == 132 || off
        == 136 {
        CtxAccessInfo {
            readable: info.readable && (k is CgroupSkb || k is SockOps || k is SkSkb),
            ..info
        }
    } else if off == 140 {
        CtxAccessInfo { readable: info.readable && !(k is CgroupSkb || k is SockOps), ..info }
    } else {
        info
    }
}

fn apply_prog_type_overrides(prog_kind: ProgramKind, off: i16, info: &mut CtxAccessInfo)
    ensures
        *final(info) == overridden(prog_kind, off, *old(info)),
{
    if prog_kind.context_kind() == ContextKind::SkBuff {
        match off {
            8 => match prog_kind {
                ProgramKind::SkSkb => {
                    info.readable = false;
                    info.writable = false;
                },
                _ => {
                    info.readable = true;
                    info.writable = true;
                },
            },
            32 | 152 => match prog_kind {
                ProgramKind::CgroupSkb | ProgramKind::SchedCls | ProgramKind::SchedAct => {
                    info.writable = true;
                },
                _ => {},
            },
            72 => match prog_kind {
                ProgramKind::SchedCls | ProgramKind::SchedAct => {
                    info.readable = false;
                },
                _ => {
                    info.readable = false;
                    info.writable = false;
                },
            },
            140 => {
                if matches!(prog_kind, ProgramKind::CgroupSkb | ProgramKind::SockOps) {
                    info.readable = false;
                }
            },
            _ => {
                if 76 <= off && off <= 80 {
                    if !matches!(
                        prog_kind,
                        ProgramKind::SchedCls | ProgramKind::SchedAct | ProgramKind::SkSkb
                            | ProgramKind::LwtIn | ProgramKind::LwtOut | ProgramKind::LwtXmit
                            | ProgramKind::CgroupSkb | ProgramKind::FlowDissector
                    ) {
                        info.readable = false;
                    }
                } else if off == 88 || off == 92 || off == 96 || (100 <= off && off <= 128) || off
                    == 132 || off == 136 {
                    if !matches!(
                        prog_kind,
                        ProgramKind::CgroupSkb | ProgramKind::SockOps | ProgramKind::SkSkb
                    ) {
                        info.readable = false;
                    }
                }
            },
        }
    }
}

/// Arguments of tracepoints that may be null.
pub open spec fn maybe_null(target: Seq<char>, idx: u8) -> bool {
    (target == "sched_pi_setprio"@ && idx == 1) || (target == "bpf_testmod_test_raw_tp_null"@ && idx
        == 0) || (target == "bpf_testmod_test_nullable_bare"@ && idx == 0)
}

fn tp_btf_arg_is_maybe_null(target: &str, idx: u8) -> (r: bool)
    ensures
        r == maybe_null(target@, idx),
{
    (text_eq(target, "sched_pi_setprio") && idx == 1) || (text_eq(
        target,
        "bpf_testmod_test_raw_tp_null",
    ) && idx == 0) || (text_eq(target, "bpf_testmod_test_nullable_bare") && idx == 0)
}

/// Programs whose context is an array of arguments.
pub open spec fn takes_arguments(k: ProgramKind) -> bool {
    k is StructOps || k is Lsm || k is Tracing || k is Tracepoint || k is RawTracepoint
        || k is RawTracepointWritable
}

/// Programs whose context is a struct that type information describes.
pub open spec fn has_typed_ctx(ctx: ExecContext) -> bool {
    ctx.prog_kind is SkReuseport || (ctx.prog_kind is Tracing && reads(ctx.attach_flavor, "iter"))
}

/// What a read of a context yields.
pub open spec fn read_only(kind: CtxFieldKind) -> CtxAccessInfo {
    CtxAccessInfo { kind, readable: true, writable: false }
}

/// What a read of a field of a typed context yields: a pointer that can be
/// trusted, a buffer for an untyped pointer, else a number.
pub open spec fn typed_ctx_access(
    ctx: ExecContext,
    struct_name: &'static str,
    off: i16,
    size: i64,
) -> CtxAccessInfo {
    let id = ctx.btf.spec_find_struct_by_name(struct_name@);
    let f = match id {
        Some(id) => ctx.btf.field_at_offset(id, off as u32),
        None => None,
    };
    match f {
        Some(f) => match f.kind {
            BtfFieldKind::Pointer { pointee, .. } => if size == 8 && trusted_field(
                struct_name@,
                f.name@,
            ) {
                match pointee {
                    Some(p) => read_only(object(p, false)),
                    None => read_only(CtxFieldKind::AllocMem { mem_size: 4096 }),
                }
            } else {
                read_only(CtxFieldKind::Scalar)
            },
            _ => read_only(CtxFieldKind::Scalar),
        },
        None => read_only(CtxFieldKind::Scalar),
    }
}

fn typed_ctx_load(ctx: &ExecContext, struct_name: &'static str, off: i16, size: i64) -> (r:
    CtxAccessInfo)
    requires
        off >= 0,
    ensures
        r == typed_ctx_access(*ctx, struct_name, off, size),
{
    let scalar: CtxAccessInfo = CtxAccessInfo {
        kind: CtxFieldKind::Scalar,
        readable: true,
        writable: false,
    };
    if size != 8 {
        return scalar;
    }
    let id: u32 = match ctx.btf.find_struct_by_name(struct_name) {
        Some(id) => id,
        None => {
            return scalar;
        },
    };
    match ctx.btf.field_at_offset(id, off as u32) {
        Some(f) => match f.kind {
            BtfFieldKind::Pointer { pointee, .. } => {
                if !trusted_field_load(struct_name, f.name) {
                    return scalar;
                }
                let kind: CtxFieldKind = match pointee {
                    Some(p) => object(p, false),
                    None => CtxFieldKind::AllocMem { mem_size: 4096 },
                };
                CtxAccessInfo { kind, readable: true, writable: false }
            },
            _ => scalar,
        },
        None => scalar,
    }
}

/// Whether the function a program attaches to may pass null for an argument.
pub open spec fn target_may_be_null(ctx: ExecContext, idx: u8) -> bool {
    (reads(ctx.attach_flavor, "tp_btf") || reads(ctx.attach_flavor, "raw_tp") || reads(
        ctx.attach_flavor,
        "raw_tp.w",
    )) && (ctx.attach_subtype matches Some(t) && maybe_null(t@, idx))
}

fn target_arg_nullable(ctx: &ExecContext, idx: u8) -> (r: bool)
    ensures
        r == target_may_be_null(*ctx, idx),
{
    if text_is(&ctx.attach_flavor, "tp_btf") || text_is(&ctx.attach_flavor, "raw_tp") || text_is(
        &ctx.attach_flavor,
        "raw_tp.w",
    ) {
        match &ctx.attach_subtype {
            Some(t) => tp_btf_arg_is_maybe_null(t.as_str(), idx),
            None => false,
        }
    } else {
        false
    }
}

/// What an argument yields, as the program declares it.
pub open spec fn declared_arg(ctx: ExecContext, arg: EntryArg, idx: u8) -> CtxFieldKind {
    match arg {
        EntryArg::Scalar => CtxFieldKind::Scalar,
        EntryArg::TrustedPtrBtfId { struct_name, nullable } => CtxFieldKind::TrustedPtr {
            struct_name,
            nullable: nullable || target_may_be_null(ctx, idx),
            tag_flags: PtrFlags::empty(),
        },
        EntryArg::BoundedScalar { lo, hi } => CtxFieldKind::BoundedScalar { lo, hi },
    }
}

/// What an argument yields that the program does not declare: a pointer to an
/// unknown object, unless the function is known to pass a number.
pub open spec fn undeclared_arg(ctx: ExecContext, idx: u8) -> CtxFieldKind {
    let a = ctx.attach_arg(idx);
    if a matches Some(x) && x.scalar {
        CtxFieldKind::Scalar
    } else {
        CtxFieldKind::TrustedPtr {
            struct_name: "unknown",
            nullable: target_may_be_null(ctx, idx),
            tag_flags: match a {
                Some(x) => x.flags,
                None => PtrFlags::empty(),
            },
        }
    }
}

/// What a load from an array of arguments yields. Only whole arguments can be
/// read.
pub open spec fn argument_access(ctx: ExecContext, off: i16, size: i64) -> Option<CtxAccessInfo> {
    let idx = off as int / 8;
    if size == 8 && off >= 0 && aligned(off, 8) {
        if ctx.entry_args matches Some(args) && idx < args@.len() {
            Some(read_only(declared_arg(ctx, ctx.entry_args->Some_0@[idx], (idx as u16) as u8)))
        } else if ctx.prog_kind is StructOps {
            None
        } else {
            Some(read_only(undeclared_arg(ctx, (idx as u16) as u8)))
        }
    } else {
        None
    }
}

fn argument_load(ctx: &ExecContext, off: i16, size: i64) -> (r: Option<CtxAccessInfo>)
    ensures
        r == argument_access(*ctx, off, size),
{
    if size != 8 || off < 0 || !divides(8, off as i64) {
        return None;
    }
    let n: u16 = off as u16 / 8;
    let idx: u8 = n as u8;
    if let Some(args) = &ctx.entry_args {
        if (n as usize) < args.len() {
            let kind: CtxFieldKind = match args[n as usize] {
                EntryArg::Scalar => CtxFieldKind::Scalar,
                EntryArg::TrustedPtrBtfId { struct_name, nullable } => CtxFieldKind::TrustedPtr {
                    struct_name,
                    nullable: nullable || target_arg_nullable(ctx, idx),
                    tag_flags: PtrFlags::empty(),
                },
                EntryArg::BoundedScalar { lo, hi } => CtxFieldKind::BoundedScalar { lo, hi },
            };
            return Some(CtxAccessInfo { kind, readable: true, writable: false });
        }
    }
    if matches!(ctx.prog_kind, ProgramKind::StructOps) {
        return None;
    }
    let known: Option<AttachArg> = ctx.find_attach_arg(idx);
    let kind: CtxFieldKind = match known {
        Some(a) => if a.scalar {
            CtxFieldKind::Scalar
        } else {
            CtxFieldKind::TrustedPtr {
                struct_name: "unknown",
                nullable: target_arg_nullable(ctx, idx),
                tag_flags: a.flags,
            }
        },
        None => CtxFieldKind::TrustedPtr {
            struct_name: "unknown",
            nullable: target_arg_nullable(ctx, idx),
            tag_flags: PtrFlags::empty(),
        },
    };
    Some(CtxAccessInfo { kind, readable: true, writable: false })
}

/// Fields that programs which run after a bind may not see.
pub open spec fn denied_after_bind(ctx: ExecContext, off: i16) -> bool {
    ctx.prog_kind is CgroupSock && ((reads(ctx.attach_subtype, "post_bind4") && (off == 16 || 28
        <= off < 44)) || (reads(ctx.attach_subtype, "post_bind6") && (off == 16 || off == 24)))
}

fn bind_denies(ctx: &ExecContext, off: i16) -> (r: bool)
    ensures
        r == denied_after_bind(*ctx, off),
{
    if !matches!(ctx.prog_kind, ProgramKind::CgroupSock) {
        return false;
    }
    if text_is(&ctx.attach_subtype, "post_bind4") && (off == 16 || (28 <= off && off < 44)) {
        return true;
    }
    text_is(&ctx.attach_subtype, "post_bind6") && (off == 16 || off == 24)
}

/// What an access to a context with a fixed layout may do. Nothing is allowed
/// in a context whose layout is not listed.
pub open spec fn fixed_layout_access(ctx: ExecContext, off: i16, size: i64) -> Option<
    CtxAccessInfo,
> {
    let k = ctx.prog_kind;
    let c = k.context_kind();
    let part = if k is FlowDissector { None } else { region_access(c, off, size) };
    match part {
        Some(info) => Some(overridden(k, off, info)),
        None => match field_tables(c, k, ctx.attach_subtype) {
            None => None,
            Some((base, extended)) => match field_access(base, off, size) {
                Some(info) => Some(overridden(k, off, info)),
                None => match field_access(extended, off, size) {
                    Some(info) => Some(overridden(k, off, info)),
                    None => None,
                },
            },
        },
    }
}

fn fixed_layout_load(ctx: &ExecContext, off: i16, size: i64) -> (r: Option<CtxAccessInfo>)
    requires
        0 < size <= 0x7FFF,
    ensures
        r == fixed_layout_access(*ctx, off, size),
{
    let k: ProgramKind = ctx.prog_kind;
    let c: ContextKind = k.context_kind();
    if !matches!(k, ProgramKind::FlowDissector) {
        if let Some(info) = lookup_region(c, off, size) {
            let mut info: CtxAccessInfo = info;
            apply_prog_type_overrides(k, off, &mut info);
            return Some(info);
        }
    }
    match get_field_tables(c, k, &ctx.attach_subtype) {
        None => None,
        Some((base, extended)) => {
            let found: Option<CtxAccessInfo> = match lookup_field(&base, off, size) {
                Some(info) => Some(info),
                None => lookup_field(&extended, off, size),
            };
            match found {
                Some(info) => {
                    let mut info: CtxAccessInfo = info;
                    apply_prog_type_overrides(k, off, &mut info);
                    Some(info)
                },
                None => None,
            }
        },
    }
}

/// Whether a program that user space runs may make an access: its context is a
/// buffer whose layout only the program knows.
pub open spec fn syscall_admits(off: i16, size: i64) -> bool {
    off >= 0 && is_access_size(size) && aligned(off, size) && off + size <= 4096
}

/// What an access to the context may do, and what a load yields; nothing if the
/// access is not allowed at all.
#[verifier::opaque]
pub open spec fn ctx_access(ctx: ExecContext, off: i16, size: i64) -> Option<CtxAccessInfo> {
    let k = ctx.prog_kind;
    if k is Syscall && syscall_admits(off, size) {
        Some(CtxAccessInfo { kind: CtxFieldKind::Scalar, readable: true, writable: true })
    } else if has_typed_ctx(ctx) && off >= 0 && is_access_size(size) && aligned(off, size)
        && ctx.entry_args is Some && ctx.entry_args->Some_0@.len() > 0
        && ctx.entry_args->Some_0@[0] is TrustedPtrBtfId {
        Some(
            typed_ctx_access(
                ctx,
                ctx.entry_args->Some_0@[0]->TrustedPtrBtfId_struct_name,
                off,
                size,
            ),
        )
    } else if takes_arguments(k) {
        argument_access(ctx, off, size)
    } else if k is Netfilter {
        if size == 8 && off == 0 {
            Some(read_only(object("nf_hook_state", false)))
        } else if size == 8 && off == 8 {
            Some(read_only(object("sk_buff", false)))
        } else {
            None
        }
    } else if denied_after_bind(ctx, off) {
        None
    } else {
        fixed_layout_access(ctx, off, size)
    }
}

/// What an access to the context may do, and what a load yields.
pub fn validate_ctx_access(ctx: &ExecContext, off: i16, size: i64) -> (r: Option<CtxAccessInfo>)
    requires
        0 < size <= 0x7FFF,
    ensures
        r == ctx_access(*ctx, off, size),
{
    proof {
        reveal(ctx_access);
    }
    let k: ProgramKind = ctx.prog_kind;
    if k == ProgramKind::Syscall && off >= 0 && access_size_ok(size) && divides(size, off as i64)
        && off as i64 + size <= 4096 {
        return Some(CtxAccessInfo { kind: CtxFieldKind::Scalar, readable: true, writable: true });
    }
    let typed: bool = matches!(k, ProgramKind::SkReuseport) || (k == ProgramKind::Tracing
        && text_is(&ctx.attach_flavor, "iter"));
    if typed && off >= 0 && access_size_ok(size) && divides(size, off as i64) {
        if let Some(args) = &ctx.entry_args {
            if args.len() > 0 {
                if let EntryArg::TrustedPtrBtfId { struct_name, .. } = args[0] {
                    return Some(typed_ctx_load(ctx, struct_name, off, size));
                }
            }
        }
    }
    if matches!(
        k,
        ProgramKind::StructOps | ProgramKind::Lsm | ProgramKind::Tracing | ProgramKind::Tracepoint
            | ProgramKind::RawTracepoint | ProgramKind::RawTracepointWritable
    ) {
        return argument_load(ctx, off, size);
    }
    if k == ProgramKind::Netfilter {
        if size == 8 && off == 0 {
            return Some(
                CtxAccessInfo {
                    kind: object("nf_hook_state", false),
                    readable: true,
                    writable: false,
                },
            );
        }
        if size == 8 && off == 8 {
            return Some(
                CtxAccessInfo { kind: object("sk_buff", false), readable: true, writable: false },
            );
        }
        return None;
    }
    if bind_denies(ctx, off) {
        return None;
    }
    fixed_layout_load(ctx, off, size)
}

pub open spec fn ctx_readable(ctx: ExecContext, off: i16, size: i64) -> bool {
    ctx_access(ctx, off, size) matches Some(info) && info.readable
}

/// Whether the context can be read at an offset.
pub fn is_valid_ctx_read(ctx: &ExecContext, off: i16, size: i64) -> (r: bool)
    requires
        0 < size <= 0x7FFF,
    ensures
        r == ctx_readable(*ctx, off, size),
{
    match validate_ctx_access(ctx, off, size) {
        Some(info) => info.readable,
        None => false,
    }
}

pub open spec fn ctx_writable(ctx: ExecContext, off: i16, size: i64) -> bool {
    ctx_access(ctx, off, size) matches Some(info) && info.writable
}

/// Whether the context can be written at an offset.
pub fn is_valid_ctx_write(ctx: &ExecContext, off: i16, size: i64) -> (r: bool)
    requires
        0 < size <= 0x7FFF,
    ensures
        r == ctx_writable(*ctx, off, size),
{
    match validate_ctx_access(ctx, off, size) {
        Some(info) => info.writable,
        None => false,
    }
}

/// Programs whose context is an array of arguments, those that filter packets
/// by hook, and those with a typed context can never write to it.
pub proof fn law_argument_contexts_are_read_only(ctx: ExecContext, off: i16, size: i64)
    requires
        takes_arguments(ctx.prog_kind) || ctx.prog_kind is Netfilter,
    ensures
        !ctx_writable(ctx, off, size),
{
    reveal(ctx_access);
}

/// A flow dissector reads the ends of the packet and the keys it fills, and
/// writes nothing of its context.
pub proof fn law_flow_dissectors_see_three_fields(ctx: ExecContext, off: i16, size: i64)
    requires
        ctx.prog_kind is FlowDissector,
        0 < size <= 0x7FFF,
    ensures
        ctx_readable(ctx, off, size) <==> (off == 76 && size == 4) || (off == 80 && size == 4) || (
        off == 144 && size == 8),
        !ctx_writable(ctx, off, size),
{
    reveal(ctx_access);
    let base = flow_dissector_table();
    let more = flow_dissector_extended_table();
    let p = covers(off, size);
    if p(base[0]) {
        lemma_first_where_at(base, p, 0);
    } else if p(base[1]) {
        lemma_first_where_at(base, p, 1);
    } else {
        lemma_first_where_none(base, p);
    }
    if p(more[0]) {
        lemma_first_where_at(more, p, 0);
    } else {
        lemma_first_where_none(more, p);
    }
}

/// Nothing of a context of unknown layout can be accessed.
pub proof fn law_unknown_contexts_are_closed(ctx: ExecContext, off: i16, size: i64)
    requires
        ctx.prog_kind.context_kind() == ContextKind::Unknown,
        !(ctx.prog_kind is Syscall),
        !has_typed_ctx(ctx),
        !takes_arguments(ctx.prog_kind),
        !(ctx.prog_kind is Netfilter),
    ensures
        ctx_access(ctx, off, size) is None,
{
    reveal(ctx_access);
    lemma_first_where_none(
        region_table(ContextKind::Unknown),
        region_holds(off, size),
    );
}

/// A context pointer is never valid for a write that is not aligned.
pub proof fn law_writes_are_aligned(ctx: ExecContext, off: i16, size: i64)
    requires
        ctx_writable(ctx, off, size),
    ensures
        aligned(off, size),
{
    reveal(ctx_access);
}

} // verus!
