//! What loads yield, and what functions, callbacks and atomics leave behind.
use crate::ast::{AluOp, AtomicOp, MemSize, Operand, Width};
use crate::common::ctx_model::ctx_access;
use crate::common::ctx_tables::CtxFieldKind;
use crate::domains::meaning::{
    allows, firm, general, law_assignments_are_exact, law_assignments_are_followed,
    lemma_forget_is_firm,
};
use crate::domains::interval::ops::between;
use crate::domains::interval::state::PtrOffset;
use crate::domains::numeric::Numeric;
use crate::domains::zone::exact::{lemma_adopted_is_lean, moderate};
use crate::domains::zone::laws::with_value;
use crate::machine::env::{EnvConfig, EnvView};
use crate::machine::layout::BtfFieldKind;
use crate::machine::reg::Reg;
use crate::machine::reg_types::RegType;
use crate::machine::state::Machine;
use crate::machine::find::law_first_where;
use crate::transfer::calls::result;
use crate::transfer::map_access::kptr_offset_is;
use crate::transfer::memory::atomic_done;
use crate::transfer::pointers::known_operand;
use crate::transfer::step::{
    callback_returned, domain_after_return, learned, result_placed, returned, returned_domain,
};
use crate::transfer::types::{alu_type, load_typed, object_load_type};
use vstd::prelude::*;

verus! {

/// What a load from the context yields is what its field holds: a pointer to the
/// packet's start, end or metadata, a socket, memory of the field's size, an
/// object of the kernel, or a number.
pub proof fn law_context_loads_yield_their_fields(
    cfg: EnvConfig,
    v: EnvView,
    s: Machine,
    size: usize,
    dst: Reg,
    base: Reg,
    off: i16,
    kind: CtxFieldKind,
)
    requires
        s.types.len() == 15,
        s.ty(base) is PtrToCtx,
        ctx_access(cfg.ctx, off, size as i64) matches Some(info) && info.kind == kind,
    ensures
        ({
            let (w, t, bounded) = load_typed(cfg, v, s, size, dst, base, off);
            &&& kind is PacketStart <==> t.ty(dst) is PtrToPacket
            &&& kind is PacketEnd <==> t.ty(dst) is PtrToPacketEnd
            &&& kind is PacketMeta <==> t.ty(dst) is PtrToPacketMeta
            &&& kind is SockCommon <==> t.ty(dst) is PtrToSockCommonOrNull
            &&& kind is Socket <==> t.ty(dst) is PtrToSocket
            &&& kind is SocketOrNull <==> t.ty(dst) is PtrToSocketOrNull
            &&& kind is Scalar || kind is BoundedScalar <==> t.ty(dst) is ScalarValue
            &&& kind matches CtxFieldKind::AllocMem { mem_size: n } ==> (t.ty(
                dst,
            ) matches RegType::PtrToAllocMem { mem_size, id, .. } && mem_size == n && id
                == v.ids.next && w.ids == v.ids.after())
            &&& kind matches CtxFieldKind::TrustedPtr { struct_name: n, nullable, .. } ==> match t.ty(
                dst,
            ) {
                RegType::PtrToBtfId { struct_name, flags, .. } => !nullable && struct_name == n
                    && flags.trusted,
                RegType::PtrToBtfIdOrNull { struct_name, flags, id, .. } => nullable && struct_name
                    == n && flags.trusted && id == v.ids.next,
                _ => false,
            }
            &&& bounded <==> kind is BoundedScalar
        }),
{
    reveal(load_typed);
}

/// A load of eight bytes from a kernel pointer in a map's value yields that
/// pointer, which may be null, with the trust its kind gives it; other loads
/// from the value yield numbers.
pub proof fn law_map_loads_yield_kernel_pointers(
    cfg: EnvConfig,
    v: EnvView,
    s: Machine,
    size: usize,
    dst: Reg,
    base: Reg,
    off: i16,
    idx: usize,
    at: i64,
    k: int,
)
    requires
        s.types.len() == 15,
        s.ty(base) matches RegType::PtrToMapValue { map_idx, offset, .. } && map_idx == idx && offset
            == Some(at),
        -0x1000_0000_0000_0000 < at < 0x1000_0000_0000_0000,
        idx < cfg.ctx.map_defs@.len(),
        size <= 8,
    ensures
        ({
            let d = cfg.ctx.map_defs@[idx as int];
            let t = load_typed(cfg, v, s, size, dst, base, off).1.ty(dst);
            &&& size != 8 ==> t is ScalarValue
            &&& (forall|i: int|
                0 <= i < d.kptr_fields@.len() ==> (#[trigger] d.kptr_fields@[i]).offset != at + off)
                ==> t is ScalarValue
            &&& size == 8 && 0 <= k < d.kptr_fields@.len() && d.kptr_fields@[k].offset == at + off
                && (forall|i: int|
                0 <= i < k ==> (#[trigger] d.kptr_fields@[i]).offset != at + off) ==> match t {
                RegType::PtrToMapKptrOrNull { pointee_btf_id, flags, offset, ref_id } => {
                    &&& pointee_btf_id == d.kptr_fields@[k].pointee_btf_id
                    &&& offset == 0
                    &&& ref_id is None
                    &&& flags.untrusted == (d.kptr_fields@[k].kind is Unref)
                    &&& flags.mem_alloc == (d.kptr_fields@[k].kind is Ref)
                    &&& flags.rcu == (d.kptr_fields@[k].kind is Rcu)
                    &&& flags.percpu == (d.kptr_fields@[k].kind is Percpu)
                    &&& !flags.trusted
                    &&& !(d.kptr_fields@[k].kind is Uptr)
                },
                RegType::PtrToAllocMemOrNull { mem_size, .. } => d.kptr_fields@[k].kind is Uptr
                    && mem_size == cfg.ctx.btf.type_size_bytes(d.kptr_fields@[k].pointee_btf_id),
                _ => false,
            }
        }),
{
    reveal(load_typed);
    let d = cfg.ctx.map_defs@[idx as int];
    let x = (at + off) as i64;
    let p = kptr_offset_is(x);
    law_first_where(d.kptr_fields@, p);
    if 0 <= k < d.kptr_fields@.len() && d.kptr_fields@[k].offset == at + off && (forall|i: int|
        0 <= i < k ==> (#[trigger] d.kptr_fields@[i]).offset != at + off) {
        crate::machine::find::lemma_first_where_at(d.kptr_fields@, p, k);
    }
}

/// A load from the stack of all of eight bytes yields the type that was
/// spilled; other loads yield numbers. Loads from the packet, sockets and
/// memory yield numbers.
pub proof fn law_other_loads_yield_numbers(
    cfg: EnvConfig,
    v: EnvView,
    s: Machine,
    size: usize,
    dst: Reg,
    base: Reg,
    off: i16,
)
    requires
        s.types.len() == 15,
        s.frames.len() > 0,
    ensures
        ({
            let (w, t, bounded) = load_typed(cfg, v, s, size, dst, base, off);
            &&& s.ty(base) is PtrToStack && size != 8 ==> t.ty(dst) is ScalarValue
            &&& s.ty(base) is PtrToStack && s.domain.fixed_distance(base, Reg::R10) is None
                ==> t.ty(dst) is ScalarValue
            &&& s.ty(base) is PtrToPacket || s.ty(base) is PtrToPacketMeta || s.ty(base)
                is PtrToAllocMem || s.ty(base) is PtrToSocket || s.ty(base) is PtrToSockCommon
                || s.ty(base) is PtrToTcpSock || s.ty(base) is PtrToArena || s.ty(base)
                is PtrToOwnedKptr || s.ty(base) is PtrToMapKptr || s.ty(base) is PtrToMapObject
                ==> t.ty(dst) is ScalarValue
            &&& !(s.ty(base) is PtrToCtx) ==> !bounded
        }),
{
    reveal(load_typed);
}

/// A load from an object of the kernel yields a number or a pointer to what the
/// field points to; pointers that are not vouched for are not trusted, and
/// those under a read lock only while it is held.
pub proof fn law_object_loads_are_trusted_by_field(
    btf: crate::machine::layout::Btf,
    name: &'static str,
    off: i16,
    in_rcu: bool,
)
    ensures
        match object_load_type(btf, name, off, in_rcu) {
            RegType::ScalarValue => true,
            RegType::PtrToBtfId { flags, ref_id, .. } => {
                &&& ref_id is None
                &&& !in_rcu ==> !flags.rcu
                &&& flags.trusted || flags.rcu || flags.untrusted
                &&& flags.trusted ==> !flags.untrusted
            },
            _ => false,
        },
        object_load_type(btf, name, off, in_rcu) matches RegType::PtrToBtfId { struct_name, .. }
            ==> (btf.spec_find_struct_by_name(name@) matches Some(id) && btf.field_at_offset_descend(
            id,
            off as u32,
        ) matches Some(f) && f.kind matches BtfFieldKind::Pointer { pointee: Some(p), .. } && p
            == struct_name),
{
}

/// The names that sockets are cast to.
pub open spec fn cast_name(helper: u32) -> Seq<char> {
    if helper == 136 {
        "tcp6_sock"@
    } else if helper == 137 {
        "tcp_sock"@
    } else if helper == 138 {
        "tcp_timewait_sock"@
    } else if helper == 139 {
        "tcp_request_sock"@
    } else if helper == 140 {
        "udp6_sock"@
    } else if helper == 178 {
        "unix_sock"@
    } else {
        "mptcp_sock"@
    }
}

/// A socket that is cast may not be of that kind; the result is held as long as
/// the socket is. What is no socket to be trusted is not cast.
pub proof fn law_casts_may_fail(
    cfg: EnvConfig,
    v: EnvView,
    in_types: Seq<RegType>,
    s: Machine,
    fastcall: bool,
    helper: u32,
)
    requires
        s.types.len() == 15,
        helper == 136 || helper == 137 || helper == 138 || helper == 139 || helper == 140 || helper
            == 178 || helper == 196,
    ensures
        s.types[2] is PtrToSocket || s.types[2] is PtrToSockCommon || s.types[2] is PtrToTcpSock
            ==> (result(cfg, v, in_types, s, helper, fastcall) matches RegType::PtrToBtfIdOrNull {
            struct_name,
            ref_id,
            flags,
            id,
        } && struct_name@ == cast_name(helper) && ref_id == s.types[2].get_ref_id() && flags.trusted
            && id == v.ids.next),
        s.types[2] is ScalarValue || s.types[2] is PtrToStack || s.types[2] is PtrToCtx
            || s.types[2] is PtrToMapValue ==> result(cfg, v, in_types, s, helper, fastcall)
            is ScalarValue,
{
    assert(Reg::R1.idx() == 2 && Reg::R0.idx() == 1);
}

/// The variable of one processor may be missing if another's is asked for, and
/// is there if it is this one's; it is not per processor any more, and can be
/// trusted.
pub proof fn law_processor_variables_are_found(
    cfg: EnvConfig,
    v: EnvView,
    in_types: Seq<RegType>,
    s: Machine,
    fastcall: bool,
    name: &'static str,
)
    requires
        s.types.len() == 15,
        in_types[2] matches RegType::PtrToBtfId { struct_name, .. } && struct_name == name,
    ensures
        result(cfg, v, in_types, s, 153, fastcall) matches RegType::PtrToBtfIdOrNull {
            struct_name,
            flags,
            id,
            ..
        } && struct_name == name && !flags.percpu && !flags.rdonly && flags.trusted && id
            == v.ids.next,
        result(cfg, v, in_types, s, 154, fastcall) matches RegType::PtrToBtfId {
            struct_name,
            flags,
            ..
        } && struct_name == name && !flags.percpu && !flags.rdonly && flags.trusted,
{
    assert(Reg::R1.idx() == 2 && Reg::R0.idx() == 1);
}

/// Pointers into objects of the kernel move by known numbers only; a number
/// becomes a pointer when one is added to it, but not when one is subtracted.
pub proof fn law_object_pointers_move(
    cfg: EnvConfig,
    id: u32,
    in_types: Seq<RegType>,
    cur: RegType,
    d: Numeric,
    op: AluOp,
    dst: Reg,
    src: Operand,
    pc: usize,
    at: i32,
    x: i64,
)
    requires
        op is Add || op is Sub,
        -0x1000_0000 < at < 0x1000_0000,
        -0x1000_0000 < x < 0x1000_0000,
    ensures
        ({
            let t = alu_type(cfg, id, in_types, cur, d, Width::W64, op, dst, src, pc);
            let moved = if op is Add { at + x } else { at - x };
            let before = in_types[dst.idx() as int];
            &&& (before matches RegType::PtrToMapKptr { offset, .. } && offset == at)
                && known_operand(d, src) == Some(x) ==> (t matches RegType::PtrToMapKptr {
                offset,
                ..
            } && offset == moved)
            &&& before is PtrToMapKptr && known_operand(d, src) is None ==> t is ScalarValue
            &&& (before matches RegType::PtrToOwnedKptr { offset, .. } && offset == at)
                && known_operand(d, src) == Some(x) ==> (t matches RegType::PtrToOwnedKptr {
                offset,
                ..
            } && offset == moved)
            &&& before is PtrToMapObject && known_operand(d, src) == Some(x) && x != 0 ==> t
                is ScalarValue
            &&& before is PtrToBtfId ==> (t matches RegType::PtrToBtfId { ref_id, flags, .. }
                && ref_id is None && flags == before->PtrToBtfId_flags)
            &&& !before.is_pointer() && op is Add ==> (src matches Operand::Reg(r) ==> t
                == in_types[r.idx() as int])
        }),
{
}

/// What an atomic access leaves in a register that takes the old value is not
/// known, unless it was spilled as a whole.
pub proof fn law_fetched_values_are_unknown(
    s: Machine,
    op: AtomicOp,
    fetch: bool,
    size: MemSize,
    base: Reg,
    off: i16,
    src: Reg,
    w: spec_fn(int) -> int,
    c: i64,
)
    requires
        s.tnums.len() == 15,
        general(src),
        allows(s.domain, w),
        !s.can_fill(s.level(), off, size),
    ensures
        op is CmpXchg ==> atomic_done(s, op, fetch, size, base, off, src).tnums[1].mask == u64::MAX
            && allows(
            atomic_done(s, op, fetch, size, base, off, src).domain,
            with_value(w, 1, c as int),
        ),
        fetch && !(op is CmpXchg) ==> atomic_done(
            s,
            op,
            fetch,
            size,
            base,
            off,
            src,
        ).tnums[src.idx() as int].mask == u64::MAX && allows(
            atomic_done(s, op, fetch, size, base, off, src).domain,
            with_value(w, src.idx() as int, c as int),
        ),
        !fetch && !(op is CmpXchg) ==> atomic_done(s, op, fetch, size, base, off, src).domain
            == s.domain && atomic_done(s, op, fetch, size, base, off, src).tnums == s.tnums,
{
    assert(Reg::R0.idx() == 1);
    law_assignments_are_followed(s.domain, Reg::R0, Reg::R1, c, 0, 0, w);
    law_assignments_are_followed(s.domain, src, Reg::R1, c, 0, 0, w);
}

/// After a callback the caller goes on with its own registers R6 to R9, a number
/// in the range that the helper gives in R0, and nothing known of R1 to R5.
pub proof fn law_callers_go_on_after_callbacks(s: Machine, i: int)
    requires
        s.frames.len() > 1,
        s.frames.last().callback matches Some(c) && (c.caller_level matches Some(l) ==> l + 1
            < s.frames.len()),
        s.frames.last().caller_types.len() == 15,
        s.frames.last().caller_tnums.len() == 15,
        s.notes.len() == 15,
    ensures
        ({
            let t = callback_returned(s);
            let f = s.frames.last();
            &&& t.pc == f.return_pc
            &&& t.types[1] is ScalarValue
            &&& 2 <= i <= 6 ==> t.types[i] is ScalarValue && t.tnums[i].mask == u64::MAX
            &&& 7 <= i <= 11 ==> t.types[i] == f.caller_types[i] && t.tnums[i] == f.caller_tnums[i]
            &&& t.tnums[1].mask == u64::MAX
            &&& t.frames.len() == s.frames.len() - 1
            &&& t.refs == s.refs
        }),
{
    assert(Reg::R0.idx() == 1 && Reg::R1.idx() == 2 && Reg::R2.idx() == 3 && Reg::R3.idx() == 4
        && Reg::R4.idx() == 5 && Reg::R5.idx() == 6);
}

/// A function's result lies in the range that the function left it in.
pub proof fn law_results_keep_their_range(s: Machine)
    requires
        s.frames.len() > 1,
        s.domain is Interval,
        s.frames.last().caller_domain is Interval,
        firm(s.frames.last().caller_domain),
        !s.ty(Reg::R0).is_packet_ptr(),
        s.frames.last().caller_types.len() == 15,
    ensures
        returned(s).domain.range(Reg::R0) == s.domain.range(Reg::R0),
{
    assert(Reg::R0.idx() == 1 && Reg::R6.idx() == 7 && Reg::R7.idx() == 8 && Reg::R8.idx() == 9
        && Reg::R9.idx() == 10);
    let f = s.frames.last();
    let (lo, hi) = s.domain.range(Reg::R0);
    let c = f.caller_domain->Interval_0;
    let d = returned_domain(f.caller_domain, s.domain, (lo, hi), s.anchor_info(Reg::R0));
    let x = between(lo, hi);
    assert(x.bounds.smin == lo && x.bounds.smax == hi);
    assert(d == Numeric::Interval(
        c.assign(Reg::R0, crate::domains::interval::state::RegInterval::unknown()).assign(
            Reg::R0,
            x,
        ),
    ));
    let types = f.caller_types.update(1, s.ty(Reg::R0));
    lemma_learned(d, types, Reg::R6, s.ty(Reg::R6), s.ptr_offset(Reg::R6));
    let d6 = learned(d, types, Reg::R6, s.ty(Reg::R6), s.ptr_offset(Reg::R6));
    lemma_learned(d6, types, Reg::R7, s.ty(Reg::R7), s.ptr_offset(Reg::R7));
    let d7 = learned(d6, types, Reg::R7, s.ty(Reg::R7), s.ptr_offset(Reg::R7));
    lemma_learned(d7, types, Reg::R8, s.ty(Reg::R8), s.ptr_offset(Reg::R8));
    let d8 = learned(d7, types, Reg::R8, s.ty(Reg::R8), s.ptr_offset(Reg::R8));
    lemma_learned(d8, types, Reg::R9, s.ty(Reg::R9), s.ptr_offset(Reg::R9));
    assert(d.range(Reg::R0) == (lo, hi));
    assert(result_placed(d, s.ty(Reg::R0), s.ptr_offset(Reg::R0)) == d);
    reveal(domain_after_return);
    assert(domain_after_return(s, f) == learned(
        d8,
        types,
        Reg::R9,
        s.ty(Reg::R9),
        s.ptr_offset(Reg::R9),
    ));
}

proof fn lemma_learned(
    d: Numeric,
    types: Seq<RegType>,
    r: Reg,
    callee_type: RegType,
    callee_place: Option<PtrOffset>,
)
    requires
        d is Interval,
        firm(d),
        r.idx() >= 7,
    ensures
        learned(d, types, r, callee_type, callee_place) is Interval,
        firm(learned(d, types, r, callee_type, callee_place)),
        learned(d, types, r, callee_type, callee_place).range(Reg::R0) == d.range(Reg::R0),
{
    assert(Reg::R0.idx() == 1);
}

/// The same where differences are kept.
pub proof fn law_results_stay_in_their_range(s: Machine, w: spec_fn(int) -> int)
    requires
        s.frames.len() > 1,
        s.domain is Zone,
        s.frames.last().caller_domain is Zone,
        firm(s.frames.last().caller_domain),
        !s.ty(Reg::R0).is_packet_ptr(),
        moderate(s.domain.range(Reg::R0).0 as int),
        moderate(s.domain.range(Reg::R0).1 as int),
        allows(returned(s).domain, w),
    ensures
        s.domain.range(Reg::R0).0 <= w(1) <= s.domain.range(Reg::R0).1,
{
    assert(Reg::R0.idx() == 1);
    let f = s.frames.last();
    let (lo, hi) = s.domain.range(Reg::R0);
    let a = f.caller_domain.adopt_anchors(s.domain);
    let z = f.caller_domain->Zone_0;
    lemma_adopted_is_lean(z, s.domain->Zone_0);
    lemma_forget_is_firm(a, Reg::R0, w);
    reveal(domain_after_return);
    let d = returned_domain(f.caller_domain, s.domain, (lo, hi), s.anchor_info(Reg::R0));
    assert(d == a.forget(Reg::R0).assign_interval(Reg::R0, lo, hi));
    assert(returned(s).domain == d);
    law_assignments_are_exact(a.forget(Reg::R0), Reg::R0, Reg::R1, 0, lo, hi, w);
}

} // verus!
