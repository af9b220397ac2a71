//! What is known of a load or a store that reports nothing, and which accesses
//! are let through.
use crate::domains::meaning::{allows, law_distances_are_true, law_regions_are_kept, comparable};
use crate::domains::interval::state::PtrOffset;
use crate::domains::numeric::Numeric;
use crate::machine::env::{EnvConfig, EnvView};
use crate::machine::find::{first_where, law_first_where};
use crate::machine::layout::SpecialField;
use crate::machine::reg::Reg;
use crate::machine::reg_types::{FrameLevel, RegType};
use crate::machine::stack_state::StackView;
use crate::machine::state::Machine;
use crate::transfer::access::{load_checked, load_marked, store_checked, store_marked};
use crate::transfer::exits::{faulted, lemma_faults_are_heard, silent};
use crate::transfer::map_access::{const_map_off, kptr_fault, map_checked, may_meet_kptr, meets_kptr, special_fields_met};
use crate::transfer::stack::{all_initialized, pointer_parts_read};
use crate::num::{sat_add, wadd};
use vstd::prelude::*;

verus! {

/// A load or store through a pointer to allocated memory is let through if it
/// lies in that memory, and only then.
pub proof fn law_accesses_lie_in_allocated_memory(
    cfg: EnvConfig,
    v: EnvView,
    s: Machine,
    base: Reg,
    size: i64,
    off: i16,
    src_type: RegType,
    n: u64,
)
    requires
        s.ty(base) matches RegType::PtrToAllocMem { mem_size, .. } && mem_size == n,
        n <= i64::MAX,
        size > 0,
    ensures
        silent(v, load_checked(cfg, v, s, base, size, off)) <==> 0 <= off && off + size <= n,
        load_checked(cfg, v, s, base, size, off) == load_marked(v, s, base) <==> 0 <= off && off
            + size <= n,
        !(0 <= off && off + size <= n) ==> faulted(v, load_checked(cfg, v, s, base, size, off)),
        silent(v, store_checked(cfg, v, s, base, size, off, src_type)) <==> 0 <= off && off + size
            <= n,
        store_checked(cfg, v, s, base, size, off, src_type) == store_marked(v, s, base) <==> 0
            <= off && off + size <= n,
        !(0 <= off && off + size <= n) ==> faulted(
            v,
            store_checked(cfg, v, s, base, size, off, src_type),
        ),
{
    lemma_faults_are_heard(v);
}

/// A load through a kernel pointer taken from a map is let through if it lies
/// in the object, as far as its size is known. The object is never written.
pub proof fn law_kernel_pointer_loads_lie_in_the_object(
    cfg: EnvConfig,
    v: EnvView,
    s: Machine,
    base: Reg,
    size: i64,
    off: i16,
    src_type: RegType,
    id: u32,
    at: i32,
)
    requires
        s.ty(base) matches RegType::PtrToMapKptr { pointee_btf_id, offset, .. } && pointee_btf_id
            == id && offset == at,
    ensures
        cfg.ctx.btf.type_size_bytes(id) > 0 ==> (silent(
            v,
            load_checked(cfg, v, s, base, size, off),
        ) <==> 0 <= at + off && at + off + size <= cfg.ctx.btf.type_size_bytes(id)),
        cfg.ctx.btf.type_size_bytes(id) == 0 ==> silent(
            v,
            load_checked(cfg, v, s, base, size, off),
        ),
        faulted(v, store_checked(cfg, v, s, base, size, off, src_type)),
{
    lemma_faults_are_heard(v);
}

/// What may be null, was never set, is a number, a function or the end of the
/// packet is not dereferenced.
pub open spec fn never_dereferenced(t: RegType) -> bool {
    match t {
        RegType::NotInit => true,
        RegType::ScalarValue => true,
        RegType::PtrToPacketEnd => true,
        RegType::PtrToCallback { .. } => true,
        RegType::PtrToMapValueOrNull { .. } => true,
        RegType::PtrToSocketOrNull { .. } => true,
        RegType::PtrToSockCommonOrNull { .. } => true,
        RegType::PtrToTcpSockOrNull { .. } => true,
        RegType::PtrToBtfIdOrNull { .. } => true,
        RegType::PtrToAllocMemOrNull { .. } => true,
        RegType::PtrToOwnedKptrOrNull { .. } => true,
        RegType::PtrToMapKptrOrNull { .. } => true,
        _ => false,
    }
}

/// Objects of the kernel that a program only reads.
pub open spec fn only_read(t: RegType) -> bool {
    match t {
        RegType::PtrToMapObject { .. } => true,
        RegType::PtrToSocket { .. } => true,
        RegType::PtrToSockCommon { .. } => true,
        RegType::PtrToTcpSock { .. } => true,
        RegType::PtrToTask { .. } => true,
        RegType::PtrToCgroup { .. } => true,
        RegType::PtrToCpumask { .. } => true,
        RegType::PtrToMapKptr { .. } => true,
        _ => false,
    }
}

/// Nothing is loaded or stored through what is no pointer for sure, and
/// nothing is stored to objects that are only read.
pub proof fn law_accesses_need_valid_pointers(
    cfg: EnvConfig,
    v: EnvView,
    s: Machine,
    base: Reg,
    size: i64,
    off: i16,
    src_type: RegType,
)
    ensures
        never_dereferenced(s.ty(base)) ==> faulted(v, load_checked(cfg, v, s, base, size, off)),
        never_dereferenced(s.ty(base)) || only_read(s.ty(base)) ==> faulted(
            v,
            store_checked(cfg, v, s, base, size, off, src_type),
        ),
        s.ty(base) is PtrToCpumask ==> faulted(v, load_checked(cfg, v, s, base, size, off)),
        s.ty(base) is PtrToTask || s.ty(base) is PtrToCgroup ==> silent(
            v,
            load_checked(cfg, v, s, base, size, off),
        ),
        s.ty(base) is PtrToArena || s.ty(base) is PtrToOwnedKptr ==> silent(
            v,
            load_checked(cfg, v, s, base, size, off),
        ) && silent(v, store_checked(cfg, v, s, base, size, off, src_type)),
{
    lemma_faults_are_heard(v);
}

/// Memory of the user or of one processor is not loaded from directly.
pub proof fn law_foreign_memory_is_not_loaded(
    cfg: EnvConfig,
    v: EnvView,
    s: Machine,
    base: Reg,
    size: i64,
    off: i16,
)
    requires
        s.ty(base) is PtrToBtfId,
    ensures
        s.ty(base) matches RegType::PtrToBtfId { struct_name, flags, .. } ==> (flags.user
            || flags.percpu ==> faulted(v, load_checked(cfg, v, s, base, size, off))),
        s.ty(base) matches RegType::PtrToBtfId { struct_name, flags, .. } ==> (!flags.user
            && !flags.percpu && struct_name@ != "bpf_iter_meta"@ ==> silent(
            v,
            load_checked(cfg, v, s, base, size, off),
        )),
{
    lemma_faults_are_heard(v);
}

/// The analysis does not put the access off to be looked at again.
pub open spec fn decided_now(cfg: EnvConfig, s: Machine) -> bool {
    !(s.symbolic && cfg.refined)
}

/// A load or store on a stack that reports nothing lies in the 512 bytes below
/// the frame pointer, wherever the pointer may stand. At a known place, it is
/// aligned to its size.
pub proof fn law_stack_accesses_lie_in_the_stack(
    cfg: EnvConfig,
    v: EnvView,
    s: Machine,
    base: Reg,
    size: i64,
    off: i16,
    src_type: RegType,
    w: spec_fn(int) -> int,
)
    requires
        s.ty(base) is PtrToStack,
        decided_now(cfg, s),
        0 < size <= 0x7FFF,
        crate::machine::state::depth_sum(s.frames) == 0,
        allows(s.domain, w),
        comparable(s.domain, base, Reg::R10),
        -0x1000_0000_0000_0000 < w(base.idx() as int) - w(11) < 0x1000_0000_0000_0000,
        silent(v, load_checked(cfg, v, s, base, size, off)) || silent(
            v,
            store_checked(cfg, v, s, base, size, off, src_type),
        ),
    ensures
        -512 <= w(base.idx() as int) - w(11) + off,
        w(base.idx() as int) - w(11) + off + size <= 0,
        s.domain.fixed_distance(base, Reg::R10) is Some ==> (w(base.idx() as int) - w(11) + off)
            % (size as int) == 0,
{
    lemma_faults_are_heard(v);
    law_distances_are_true(s.domain, w, base, Reg::R10);
}

/// A load or store in the packet or its metadata that reports nothing lies
/// between its start and its end, for all values of the pointer and all sizes
/// of the packet.
pub proof fn law_packet_accesses_lie_in_the_packet(
    cfg: EnvConfig,
    v: EnvView,
    s: Machine,
    base: Reg,
    size: i64,
    off: i16,
    src_type: RegType,
    w: spec_fn(int) -> int,
)
    requires
        s.ty(base) is PtrToPacket || s.ty(base) is PtrToPacketMeta,
        1 <= base.idx() < 12,
        0 < size <= 0x7FFF,
        allows(s.domain, w),
        w(14) - w(13) <= 0xFFFF_FFFF,
        w(13) - w(12) <= 0xFFFF_FFFF,
        silent(v, load_checked(cfg, v, s, base, size, off)) || silent(
            v,
            store_checked(cfg, v, s, base, size, off, src_type),
        ),
    ensures
        s.ty(base) is PtrToPacket ==> w(13) <= w(base.idx() as int) + off && w(base.idx() as int)
            + off + size <= w(14),
        s.ty(base) is PtrToPacketMeta ==> w(12) <= w(base.idx() as int) + off && w(
            base.idx() as int,
        ) + off + size <= w(13),
{
    lemma_faults_are_heard(v);
    law_regions_are_kept(s.domain, w, base, off as i64, size, Reg::AnchorData, Reg::AnchorDataEnd);
    law_regions_are_kept(s.domain, w, base, off as i64, size, Reg::AnchorDataMeta, Reg::AnchorData);
}

/// Programs that redirect traffic into or out of a tunnel do not write to the
/// packet; others do so where they may read it.
pub proof fn law_packet_stores_need_a_kind_that_writes(
    cfg: EnvConfig,
    v: EnvView,
    s: Machine,
    base: Reg,
    size: i64,
    off: i16,
    src_type: RegType,
)
    requires
        s.ty(base) is PtrToPacket,
    ensures
        cfg.ctx.prog_kind is LwtIn || cfg.ctx.prog_kind is LwtOut ==> faulted(
            v,
            store_checked(cfg, v, s, base, size, off, src_type),
        ),
        !(cfg.ctx.prog_kind is LwtIn || cfg.ctx.prog_kind is LwtOut) ==> (silent(
            v,
            store_checked(cfg, v, s, base, size, off, src_type),
        ) <==> silent(v, load_checked(cfg, v, s, base, size, off))),
{
    lemma_faults_are_heard(v);
}

/// A load or store through a pointer into a map's value that reports nothing
/// lies in the value, wherever the pointer may stand: by its offset from the
/// value's start, or by its range, or by the offset its type gives.
pub proof fn law_map_accesses_lie_in_the_value(
    cfg: EnvConfig,
    v: EnvView,
    s: Machine,
    base: Reg,
    size: i64,
    off: i16,
    src_type: RegType,
    idx: usize,
    fixed: Option<i64>,
    at: int,
)
    requires
        s.ty(base) matches RegType::PtrToMapValue { map_idx, offset, .. } && map_idx == idx
            && offset == fixed,
        decided_now(cfg, s),
        0 < size <= 0x7FFF,
        silent(v, load_checked(cfg, v, s, base, size, off)) || silent(
            v,
            store_checked(cfg, v, s, base, size, off, src_type),
        ),
        may_stand(s, base, fixed, at),
    ensures
        idx < cfg.ctx.map_defs@.len(),
        0 <= at + off,
        at + off + size <= cfg.ctx.map_defs@[idx as int].value_size,
{
    lemma_faults_are_heard(v);
}

/// How far from the start of the value the pointer may stand.
pub open spec fn may_stand(s: Machine, base: Reg, fixed: Option<i64>, at: int) -> bool {
    let (lo, hi) = s.domain.range(base);
    match s.ptr_offset(base) {
        Some(p) => p.off <= at <= p.off + p.var_off,
        None => if lo != i64::MIN && hi != i64::MAX {
            lo <= at <= hi
        } else {
            fixed == Some(at as i64) && i64::MIN <= at <= i64::MAX
        },
    }
}

/// A map's values are not stored to if the map is read-only for programs, and
/// not loaded from if it is write-only.
pub proof fn law_map_flags_are_respected(
    cfg: EnvConfig,
    v: EnvView,
    s: Machine,
    base: Reg,
    size: i64,
    off: i16,
    src_type: RegType,
    idx: usize,
)
    requires
        s.ty(base) matches RegType::PtrToMapValue { map_idx, .. } && map_idx == idx,
    ensures
        silent(v, load_checked(cfg, v, s, base, size, off)) ==> idx < cfg.ctx.map_defs@.len()
            && cfg.ctx.map_defs@[idx as int].map_flags & 0x100 == 0,
        silent(v, store_checked(cfg, v, s, base, size, off, src_type)) ==> idx
            < cfg.ctx.map_defs@.len() && cfg.ctx.map_defs@[idx as int].map_flags & 0x80 == 0,
{
    if idx < cfg.ctx.map_defs@.len() {
        lemma_map_reports_add_up(cfg, v, s, base, size, off, src_type, idx);
    } else {
        lemma_faults_are_heard(v);
    }
}

/// The special fields of a value that meet the bytes from `from` to `to`.
pub open spec fn meets_special(fields: Seq<SpecialField>, from: int, to: int) -> bool {
    exists|i: int|
        0 <= i < fields.len() && from < (#[trigger] fields[i]).offset + fields[i].size && to
            > fields[i].offset
}

proof fn lemma_special_fields_are_heard(
    v: EnvView,
    fields: Seq<SpecialField>,
    pc: usize,
    off: i64,
    end: i64,
    size: i64,
    limit: i64,
)
    ensures
        special_fields_met(v, fields, pc, off, end, size, limit).failures.len()
            >= v.failures.len(),
        meets_special(fields, off as int, end as int) ==> special_fields_met(
            v,
            fields,
            pc,
            off,
            end,
            size,
            limit,
        ).failures.len() > v.failures.len(),
        !meets_special(fields, off as int, end as int) ==> special_fields_met(
            v,
            fields,
            pc,
            off,
            end,
            size,
            limit,
        ) == v,
    decreases fields.len(),
{
    if fields.len() > 0 {
        let rest = fields.drop_last();
        lemma_special_fields_are_heard(v, rest, pc, off, end, size, limit);
        assert(fields[fields.len() - 1] == fields.last());
        if meets_special(rest, off as int, end as int) {
            let i = choose|i: int|
                0 <= i < rest.len() && off < (#[trigger] rest[i]).offset + rest[i].size && end
                    > rest[i].offset;
            assert(fields[i] == rest[i]);
        } else if meets_special(fields, off as int, end as int) {
            let i = choose|i: int|
                0 <= i < fields.len() && off < (#[trigger] fields[i]).offset + fields[i].size
                    && end > fields[i].offset;
            if i < rest.len() {
                assert(fields[i] == rest[i]);
            }
        }
    }
}

proof fn lemma_map_reports_add_up(
    cfg: EnvConfig,
    v: EnvView,
    s: Machine,
    base: Reg,
    size: i64,
    off: i16,
    src_type: RegType,
    idx: usize,
)
    requires
        s.ty(base) matches RegType::PtrToMapValue { map_idx, .. } && map_idx == idx,
        idx < cfg.ctx.map_defs@.len(),
    ensures
        cfg.ctx.map_defs@[idx as int].map_flags & 0x100 != 0 ==> load_checked(
            cfg,
            v,
            s,
            base,
            size,
            off,
        ).failures.len() > v.failures.len(),
        cfg.ctx.map_defs@[idx as int].map_flags & 0x80 != 0 ==> store_checked(
            cfg,
            v,
            s,
            base,
            size,
            off,
            src_type,
        ).failures.len() > v.failures.len(),
{
    assert forall|
        w: EnvView,
        fields: Seq<SpecialField>,
        pc: usize,
        a: i64,
        b: i64,
        n: i64,
        limit: i64,
    |
        (#[trigger] special_fields_met(w, fields, pc, a, b, n, limit)).failures.len()
            >= w.failures.len() by {
        lemma_special_fields_are_heard(w, fields, pc, a, b, n, limit);
    }
}

/// A known place in a map's value is loaded from or stored to without a report
/// only if the bytes meet no kernel pointer, or are the eight bytes of one; a
/// store then replaces a pointer that holds no reference.
pub proof fn law_kernel_pointers_are_whole(
    cfg: EnvConfig,
    v: EnvView,
    s: Machine,
    base: Reg,
    size: i64,
    off: i16,
    src_type: RegType,
    idx: usize,
    at: i64,
    k: int,
)
    requires
        s.ty(base) matches RegType::PtrToMapValue { map_idx, offset, .. } && map_idx == idx
            && offset == Some(at),
        idx < cfg.ctx.map_defs@.len(),
        0 <= k < cfg.ctx.map_defs@[idx as int].kptr_fields@.len(),
        -0x1000_0000_0000_0000 < at < 0x1000_0000_0000_0000,
        0 < size <= 0x7FFF,
        at + off < cfg.ctx.map_defs@[idx as int].kptr_fields@[k].offset + 8,
        at + off + size > cfg.ctx.map_defs@[idx as int].kptr_fields@[k].offset,
    ensures
        silent(v, load_checked(cfg, v, s, base, size, off)) ==> size == 8 && exists|j: int|
            0 <= j < cfg.ctx.map_defs@[idx as int].kptr_fields@.len() && (
            #[trigger] cfg.ctx.map_defs@[idx as int].kptr_fields@[j]).offset == at + off,
        silent(v, store_checked(cfg, v, s, base, size, off, src_type)) ==> size == 8 && exists|
            j: int,
        |
            0 <= j < cfg.ctx.map_defs@[idx as int].kptr_fields@.len() && (
            #[trigger] cfg.ctx.map_defs@[idx as int].kptr_fields@[j]).offset == at + off
                && cfg.ctx.map_defs@[idx as int].kptr_fields@[j].kind is Unref,
{
    let d = cfg.ctx.map_defs@[idx as int];
    let x = (at + off) as i64;
    let p = meets_kptr(x as int, x + size);
    law_first_where(d.kptr_fields@, p);
    assert(p(d.kptr_fields@[k]));
    let f = first_where(d.kptr_fields@, p)->Some_0;
    let j = choose|j: int| 0 <= j < d.kptr_fields@.len() && d.kptr_fields@[j] == f;
    assert(d.kptr_fields@[j] == f);
    assert(const_map_off(s, base, Some(at), off) == Some(x));
    assert(p(f));
    if !(size == 8 && f.offset == x) {
        assert(kptr_fault(d, s, idx, base, Some(at), off, size, s.pc, false) is Some);
    }
    if !(size == 8 && f.offset == x && f.kind is Unref) {
        assert(kptr_fault(d, s, idx, base, Some(at), off, size, s.pc, true) is Some);
    }
    lemma_map_reports_grow();
    lemma_map_checks_grow(cfg, s, Some(at), idx, base, off, size, s.pc);
}

proof fn lemma_map_checks_grow(
    cfg: EnvConfig,
    s: Machine,
    map_off: Option<i64>,
    idx: usize,
    base: Reg,
    off: i16,
    size: i64,
    pc: usize,
)
    ensures
        forall|w: EnvView|
            (#[trigger] map_checked(cfg, w, s, map_off, idx, base, off, size, pc)).failures.len()
                >= w.failures.len(),
{
    lemma_map_reports_grow();
}

proof fn lemma_map_reports_grow()
    ensures
        forall|
            w: EnvView,
            fields: Seq<SpecialField>,
            pc: usize,
            a: i64,
            b: i64,
            n: i64,
            limit: i64,
        |
            (#[trigger] special_fields_met(w, fields, pc, a, b, n, limit)).failures.len()
                >= w.failures.len(),
{
    assert forall|
        w: EnvView,
        fields: Seq<SpecialField>,
        pc: usize,
        a: i64,
        b: i64,
        n: i64,
        limit: i64,
    |
        (#[trigger] special_fields_met(w, fields, pc, a, b, n, limit)).failures.len()
            >= w.failures.len() by {
        lemma_special_fields_are_heard(w, fields, pc, a, b, n, limit);
    }
}

/// Locks, timers and the like in a map's value are neither loaded nor stored
/// by the program itself, wherever the pointer may stand.
pub proof fn law_special_fields_are_left_alone(
    cfg: EnvConfig,
    v: EnvView,
    s: Machine,
    base: Reg,
    size: i64,
    off: i16,
    src_type: RegType,
    idx: usize,
    p: PtrOffset,
    id: u32,
    at: int,
)
    requires
        s.ty(base) matches RegType::PtrToMapValue { map_idx, .. } && map_idx == idx,
        idx < cfg.ctx.map_defs@.len(),
        s.ptr_offset(base) == Some(p),
        p.off <= at <= p.off + p.var_off,
        cfg.ctx.map_defs@[idx as int].btf_val_type_id == Some(id),
        decided_now(cfg, s),
        0 < size <= 0x7FFF,
        silent(v, load_checked(cfg, v, s, base, size, off)) || silent(
            v,
            store_checked(cfg, v, s, base, size, off, src_type),
        ),
    ensures
        !meets_special(cfg.ctx.btf.special_fields(id), at + off, at + off + size),
{
    let fields = cfg.ctx.btf.special_fields(id);
    assert forall|w: EnvView, pc: usize, a: i64, b: i64, n: i64, limit: i64|
        (#[trigger] special_fields_met(w, fields, pc, a, b, n, limit)).failures.len()
            >= w.failures.len() && (meets_special(fields, a as int, b as int)
            ==> special_fields_met(w, fields, pc, a, b, n, limit).failures.len()
            > w.failures.len()) by {
        lemma_special_fields_are_heard(w, fields, pc, a, b, n, limit);
    }
    if meets_special(fields, at + off, at + off + size) {
        let i = choose|i: int|
            0 <= i < fields.len() && at + off < (#[trigger] fields[i]).offset + fields[i].size
                && at + off + size > fields[i].offset;
        let from = sat_add(p.off, off as i64);
        let to = sat_add(sat_add(p.max_offset(), off as i64), size);
        assert(meets_special(fields, from as int, to as int)) by {
            assert(from < fields[i].offset + fields[i].size && to > fields[i].offset);
        }
        let d = cfg.ctx.map_defs@[idx as int];
        assert forall|w: EnvView, map_off: Option<i64>|
            (#[trigger] map_checked(cfg, w, s, map_off, idx, base, off, size, s.pc)).failures.len()
                > w.failures.len() by {
            if from >= 0 && to <= d.value_size {
                let met = special_fields_met(w, fields, s.pc, from, to, size, d.value_size as i64);
            }
        }
    }
}

/// An access that lies in the value of a map without flags, kernel pointers or
/// a described type is let through.
pub proof fn law_plain_map_accesses_are_let_through(
    cfg: EnvConfig,
    v: EnvView,
    s: Machine,
    base: Reg,
    size: i64,
    off: i16,
    src_type: RegType,
    idx: usize,
)
    requires
        s.ty(base) matches RegType::PtrToMapValue { map_idx, .. } && map_idx == idx,
        idx < cfg.ctx.map_defs@.len(),
        0 < size <= 0x7FFF,
        cfg.ctx.map_defs@[idx as int].map_flags == 0,
        cfg.ctx.map_defs@[idx as int].kptr_fields@.len() == 0,
        cfg.ctx.map_defs@[idx as int].btf_val_type_id is None,
        s.ptr_offset(base) matches Some(p) ==> 0 <= p.off + off && p.off + p.var_off + off + size
            <= cfg.ctx.map_defs@[idx as int].value_size,
        s.ptr_offset(base) is None ==> i64::MIN < s.domain.range(base).0 && 0 <= s.domain.range(
            base,
        ).0 + off && s.domain.range(base).1 + off + size
            <= cfg.ctx.map_defs@[idx as int].value_size,
    ensures
        silent(v, load_checked(cfg, v, s, base, size, off)),
        silent(v, store_checked(cfg, v, s, base, size, off, src_type)),
{
    assert(0u32 & 0x100 == 0 && 0u32 & 0x80 == 0) by (bit_vector);
}

/// A stack is only read where it was written, unless the program is
/// privileged, and never where a dynamic pointer or an iterator is kept. A
/// part of a spilled pointer is not read.
pub proof fn law_stack_reads_need_written_bytes(
    cfg: EnvConfig,
    v: EnvView,
    s: Machine,
    base: Reg,
    size: i64,
    off: i16,
    level: FrameLevel,
    at: i64,
    k: int,
)
    requires
        s.ty(base) == (RegType::PtrToStack { frame_level: level }),
        s.domain.fixed_distance(base, Reg::R10) == Some(at),
        decided_now(cfg, s),
        0 < size <= 0x7FFF,
        -0x1000 < at < 0x1000,
        0 <= k < size,
        silent(v, load_checked(cfg, v, s, base, size, off)),
    ensures
        s.stack_at(level).slots.dom().contains((at + off + k) as i16) || cfg.ctx.privileged,
        !s.stack_at(level).overlaps_dynptr((at + off) as i64, size),
        !s.stack_at(level).overlaps_iterator((at + off) as i64, size),
        size < 8 && (forall|i: int|
            0 <= i < size ==> s.stack_at(level).slots.dom().contains(
                #[trigger] ((at + off + i) as i16),
            )) ==> !s.stack_at(level).slots[(at + off + k) as i16].ty.is_pointer(),
{
    lemma_faults_are_heard(v);
    let stack = s.stack_at(level);
    let from = (at + off) as i64;
    lemma_parts_are_heard(load_marked(v, s, base), stack, from, size as int, s.pc);
    assert(wadd(from, k as i64) as i16 == (at + off + k) as i16);
    if forall|i: int|
        0 <= i < size ==> stack.slots.dom().contains(#[trigger] ((at + off + i) as i16)) {
        assert forall|i: i64| 0 <= i < size implies stack.slots.dom().contains(
            #[trigger] (wadd(from, i) as i16),
        ) by {
            assert(stack.slots.dom().contains((at + off + i as int) as i16));
        }
        assert(all_initialized(stack, from, size));
    }
}

proof fn lemma_parts_are_heard(v: EnvView, s: StackView, off: i64, n: int, pc: usize)
    ensures
        pointer_parts_read(v, s, off, n, pc).failures.len() >= v.failures.len(),
        pointer_parts_read(v, s, off, n, pc).failures.len() == v.failures.len() ==> forall|i: int|
            0 <= i < n ==> !s.type_at(#[trigger] (wadd(off, i as i64) as i16)).is_pointer(),
    decreases n,
{
    if n > 0 {
        lemma_parts_are_heard(v, s, off, n - 1, pc);
    }
}

/// An aligned store to the function's own 512 bytes is let through, and so is
/// an aligned load of eight bytes that were written and hold no dynamic
/// pointer or iterator.
pub proof fn law_aligned_stack_accesses_are_let_through(
    cfg: EnvConfig,
    v: EnvView,
    s: Machine,
    base: Reg,
    size: i64,
    off: i16,
    src_type: RegType,
    at: i64,
)
    requires
        s.ty(base) == (RegType::PtrToStack { frame_level: s.level() }),
        s.domain.fixed_distance(base, Reg::R10) == Some(at),
        crate::machine::state::depth_sum(s.frames) == 0,
        0 < s.frames.len() <= 8,
        size == 1 || size == 2 || size == 4 || size == 8,
        (at + off) % (size as int) == 0,
        -512 <= at + off,
        at + off + size <= 0,
        -0x1_0000_0000 < at < 0x1_0000_0000,
    ensures
        silent(v, store_checked(cfg, v, s, base, size, off, src_type)),
        size == 8 && !s.current().stack.overlaps_dynptr((at + off) as i64, 8)
            && !s.current().stack.overlaps_iterator((at + off) as i64, 8) && (cfg.ctx.privileged
            || forall|i: int|
            0 <= i < 8 ==> s.current().stack.slots.dom().contains(
                #[trigger] ((at + off + i) as i16),
            )) ==> silent(v, load_checked(cfg, v, s, base, size, off)),
{
    let stack = s.current().stack;
    let from = (at + off) as i64;
    if forall|i: int|
        0 <= i < 8 ==> stack.slots.dom().contains(#[trigger] ((at + off + i) as i16)) {
        assert forall|i: i64| 0 <= i < 8 implies stack.slots.dom().contains(
            #[trigger] (wadd(from, i) as i16),
        ) by {
            assert(stack.slots.dom().contains((at + off + i as int) as i16));
        }
        assert(all_initialized(stack, from, 8));
    }
}

/// A pointer into a stack is not stored in the stack of a caller.
pub proof fn law_stack_pointers_stay_in_their_function(
    cfg: EnvConfig,
    v: EnvView,
    s: Machine,
    base: Reg,
    size: i64,
    off: i16,
    src_type: RegType,
    level: FrameLevel,
)
    requires
        s.ty(base) == (RegType::PtrToStack { frame_level: level }),
        level.index < s.frames.len() - 1,
        s.frames.len() <= 8,
        src_type is PtrToStack,
    ensures
        faulted(v, store_checked(cfg, v, s, base, size, off, src_type)),
{
    lemma_faults_are_heard(v);
}

/// Where packet accesses must be aligned, one that is let through is aligned to
/// its size, counted from two bytes before the packet.
pub proof fn law_packet_accesses_are_aligned(
    cfg: EnvConfig,
    v: EnvView,
    s: Machine,
    base: Reg,
    size: i64,
    off: i16,
    src_type: RegType,
)
    requires
        s.ty(base) is PtrToPacket,
        cfg.ctx.has_flag(0x2),
        size == 1 || size == 2 || size == 4 || size == 8,
        silent(v, load_checked(cfg, v, s, base, size, off)) || silent(
            v,
            store_checked(cfg, v, s, base, size, off, src_type),
        ),
    ensures
        (2 + off) % (size as int) == 0,
{
    lemma_faults_are_heard(v);
}

/// Where a pointer into a map's value is not known to stand, nothing it may
/// reach is a kernel pointer.
pub proof fn law_unknown_places_meet_no_kernel_pointer(
    cfg: EnvConfig,
    v: EnvView,
    s: Machine,
    base: Reg,
    size: i64,
    off: i16,
    src_type: RegType,
    idx: usize,
    k: int,
    at: int,
)
    requires
        s.ty(base) matches RegType::PtrToMapValue { map_idx, offset, .. } && map_idx == idx
            && offset is None,
        idx < cfg.ctx.map_defs@.len(),
        0 <= k < cfg.ctx.map_defs@[idx as int].kptr_fields@.len(),
        0 < size <= 0x7FFF,
        s.ptr_offset(base) matches Some(p) && p.off < p.max_offset() && p.off <= at
            <= p.max_offset(),
        silent(v, load_checked(cfg, v, s, base, size, off)) || silent(
            v,
            store_checked(cfg, v, s, base, size, off, src_type),
        ),
    ensures
        at + off >= cfg.ctx.map_defs@[idx as int].kptr_fields@[k].offset + 8 || at + off + size
            <= cfg.ctx.map_defs@[idx as int].kptr_fields@[k].offset,
{
    let d = cfg.ctx.map_defs@[idx as int];
    let f = d.kptr_fields@[k];
    if at + off < f.offset + 8 && at + off + size > f.offset {
        let p = s.ptr_offset(base)->Some_0;
        let lo = sat_add(p.off, off as i64);
        let hi = sat_add(sat_add(p.max_offset(), off as i64), size);
        assert(meets_kptr(lo as int, hi as int)(d.kptr_fields@[k]));
        assert(may_meet_kptr(d, lo, hi));
        assert(kptr_fault(d, s, idx, base, None, off, size, s.pc, false) is Some);
        assert(kptr_fault(d, s, idx, base, None, off, size, s.pc, true) is Some);
        lemma_map_checks_grow(cfg, s, None, idx, base, off, size, s.pc);
    }
}

/// Without intervals, special fields are left alone too: by an access whose
/// pointer is known to stand at the value's start or at most some bytes behind
/// it, from its offset on.
pub proof fn law_special_fields_are_left_alone_by_ranges(
    cfg: EnvConfig,
    v: EnvView,
    s: Machine,
    base: Reg,
    size: i64,
    off: i16,
    src_type: RegType,
    idx: usize,
    id: u32,
)
    requires
        s.ty(base) matches RegType::PtrToMapValue { map_idx, .. } && map_idx == idx,
        idx < cfg.ctx.map_defs@.len(),
        s.ptr_offset(base) is None,
        i64::MIN < s.domain.range(base).0,
        s.domain.range(base).1 < 0x1000_0000_0000_0000,
        cfg.ctx.map_defs@[idx as int].btf_val_type_id == Some(id),
        decided_now(cfg, s),
        0 < size <= 0x7FFF,
        silent(v, load_checked(cfg, v, s, base, size, off)) || silent(
            v,
            store_checked(cfg, v, s, base, size, off, src_type),
        ),
    ensures
        !meets_special(
            cfg.ctx.btf.special_fields(id),
            off as int,
            s.domain.range(base).1 + off + size,
        ),
{
    let fields = cfg.ctx.btf.special_fields(id);
    let (lo, hi) = s.domain.range(base);
    let d = cfg.ctx.map_defs@[idx as int];
    assert forall|w: EnvView, pc: usize, a: i64, b: i64, n: i64, limit: i64|
        (#[trigger] special_fields_met(w, fields, pc, a, b, n, limit)).failures.len()
            >= w.failures.len() && (meets_special(fields, a as int, b as int)
            ==> special_fields_met(w, fields, pc, a, b, n, limit).failures.len()
            > w.failures.len()) by {
        lemma_special_fields_are_heard(w, fields, pc, a, b, n, limit);
    }
    if meets_special(fields, off as int, hi + off + size) {
        let from = sat_add(lo, off as i64);
        let to = sat_add(sat_add(hi, off as i64), size);
        assert(to >= hi + off + size);
        assert(meets_special(fields, off as int, to as int)) by {
            let i = choose|i: int|
                0 <= i < fields.len() && off < (#[trigger] fields[i]).offset + fields[i].size && hi
                    + off + size > fields[i].offset;
            assert(off < fields[i].offset + fields[i].size && to > fields[i].offset);
        }
        assert forall|w: EnvView, map_off: Option<i64>|
            (#[trigger] map_checked(cfg, w, s, map_off, idx, base, off, size, s.pc)).failures.len()
                > w.failures.len() by {
            if from >= 0 && to <= d.value_size {
                let met = special_fields_met(
                    w,
                    fields,
                    s.pc,
                    off as i64,
                    to,
                    size,
                    d.value_size as i64,
                );
            }
        }
    }
}

/// An access that is known to lie in the packet is let through: by the bounds
/// between the pointer and the packet's ends, or by the pointer's offset and
/// the bytes the packet is known to have.
pub proof fn law_known_packet_accesses_are_let_through(
    cfg: EnvConfig,
    v: EnvView,
    s: Machine,
    base: Reg,
    size: i64,
    off: i16,
    n: u64,
)
    requires
        s.ty(base) is PtrToPacket,
        !cfg.ctx.has_flag(0x2),
        0 < size <= 0x7FFF,
        n <= 0xFFFF_FFFF,
    ensures
        s.domain matches Numeric::Zone(z) ==> (z.m[13][base.idx() as int] <= off
            && z.m[base.idx() as int][14] <= -(off + size) ==> silent(
            v,
            load_checked(cfg, v, s, base, size, off),
        )),
        s.domain matches Numeric::Interval(i) ==> (i.packet_lower == Some(n) && (
        i.regs[base.idx() as int].ptr_offset matches Some(p) && p.anchor == Reg::AnchorData && 0
            <= p.off + off && p.off + p.var_off + off + size <= n) ==> silent(
            v,
            load_checked(cfg, v, s, base, size, off),
        )),
{
    assert(Reg::AnchorData.idx() == 13 && Reg::AnchorDataEnd.idx() == 14);
}

/// Where only the pointer's type says where it stands, an access that lies in
/// the value is let through too, and one that does not is not.
pub proof fn law_fixed_map_accesses_are_decided(
    cfg: EnvConfig,
    v: EnvView,
    s: Machine,
    base: Reg,
    size: i64,
    off: i16,
    src_type: RegType,
    idx: usize,
    at: i64,
)
    requires
        s.ty(base) matches RegType::PtrToMapValue { map_idx, offset, .. } && map_idx == idx
            && offset == Some(at),
        idx < cfg.ctx.map_defs@.len(),
        0 < size <= 0x7FFF,
        -0x1000_0000_0000_0000 < at < 0x1000_0000_0000_0000,
        cfg.ctx.map_defs@[idx as int].map_flags == 0,
        cfg.ctx.map_defs@[idx as int].kptr_fields@.len() == 0,
        cfg.ctx.map_defs@[idx as int].btf_val_type_id is None,
        s.ptr_offset(base) is None,
        s.domain.range(base).0 == i64::MIN || s.domain.range(base).1 == i64::MAX,
    ensures
        silent(v, load_checked(cfg, v, s, base, size, off)) <==> 0 <= at + off && at + off + size
            <= cfg.ctx.map_defs@[idx as int].value_size,
        silent(v, store_checked(cfg, v, s, base, size, off, src_type)) <==> 0 <= at + off && at
            + off + size <= cfg.ctx.map_defs@[idx as int].value_size,
{
    assert(0u32 & 0x100 == 0 && 0u32 & 0x80 == 0) by (bit_vector);
    lemma_faults_are_heard(v);
}

} // verus!
