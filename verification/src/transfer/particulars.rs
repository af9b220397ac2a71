//! Particular cases of calls, stores and typing.
use crate::ast::{AluOp, MapLoadKind, MemSize, Operand, Width};
use crate::domains::meaning::{allows, firm, general, lemma_bounds_stay, lemma_forget_is_firm};
use crate::domains::numeric::Numeric;
use crate::domains::zone::exact::moderate;
use crate::machine::env::{EnvConfig, EnvView};
use crate::machine::find::lemma_first_where_at;
use crate::machine::layout::{at_pc, BtfFieldKind};
use crate::machine::reg::Reg;
use crate::machine::reg_types::{FrameLevel, RegType};
use crate::machine::stack_laws::law_filled_runs_hold_numbers;
use crate::machine::stack_state::StackView;
use crate::machine::state::Machine;
use crate::num::wadd;
use crate::transfer::access::{load_checked, load_marked, store_checked, AccessKind};
use crate::transfer::calls::result;
use crate::transfer::exits::{faulted, lemma_faults_are_heard, silent};
use crate::transfer::memory::{
    bad_kptr_store, fill_step, is_static_section, map_load_step, store_step,
};
use crate::transfer::safety::decided_now;
use crate::transfer::stack::{stack_read, stack_read_run};
use crate::transfer::step::{last_before, may_goto_step, second_last, Outcome};
use crate::transfer::types::{
    alu_type, bounded_number, call_typed, embedded_struct, is_data_map, load_typed,
};
use vstd::prelude::*;

verus! {

/// Moving a pointer to an object leads to the struct that lies there inside it,
/// if one does; by 0, backwards or by an unknown number it leads to the same
/// struct.
pub proof fn law_moved_objects_are_those_inside(
    btf: crate::machine::layout::Btf,
    name: &'static str,
    delta: Option<i64>,
    id: u32,
    inner: &'static str,
)
    ensures
        delta is None || delta->Some_0 <= 0 ==> embedded_struct(btf, name, delta) == name,
        btf.spec_find_struct_by_name(name@) is None ==> embedded_struct(btf, name, delta) == name,
        delta matches Some(d) ==> (0 < d < 0x7FFF_FFFF && btf.spec_find_struct_by_name(name@)
            == Some(id) && (btf.field_at_offset(id, d as u32) matches Some(f)
            && f.kind matches BtfFieldKind::Embedded { struct_name: Some(n) } && n == inner)
            ==> embedded_struct(btf, name, delta) == inner),
        delta matches Some(d) ==> (btf.spec_find_struct_by_name(name@) == Some(id)
            && btf.field_at_offset(id, d as u32) is None ==> embedded_struct(btf, name, delta)
            == name),
{
}

/// A lookup through a register that holds no map is one in the first map.
pub proof fn law_lookups_default_to_the_first_map(
    cfg: EnvConfig,
    v: EnvView,
    in_types: Seq<RegType>,
    s: Machine,
    fastcall: bool,
)
    requires
        s.types.len() == 15,
        !(in_types[2] is PtrToMapObject || in_types[2] is PtrToMapValue),
        cfg.ctx.map_defs@.len() > 0,
        cfg.ctx.map_defs@[0].type_ == 1,
    ensures
        result(cfg, v, in_types, s, 1, fastcall) matches RegType::PtrToMapValueOrNull {
            map_idx,
            id,
            ..
        } && map_idx == 0 && id == v.ids.next,
{
    assert(Reg::R1.idx() == 2 && Reg::R2.idx() == 3 && Reg::R0.idx() == 1);
}

/// A map that is not there yields a number, and takes no identity.
pub proof fn law_lookups_in_no_map(
    cfg: EnvConfig,
    v: EnvView,
    in_types: Seq<RegType>,
    s: Machine,
    fastcall: bool,
)
    requires
        s.types.len() == 15,
        in_types[2] matches RegType::PtrToMapObject { map_idx } && map_idx
            >= cfg.ctx.map_defs@.len(),
    ensures
        result(cfg, v, in_types, s, 1, fastcall) is ScalarValue,
        call_typed(cfg, v, in_types, s, 1, None, fastcall).0 == v,
{
    assert(Reg::R1.idx() == 2 && Reg::R2.idx() == 3 && Reg::R0.idx() == 1);
}

/// Maps that are taken out of maps are told apart by identities of their own.
pub proof fn law_maps_in_maps_are_told_apart(
    cfg: EnvConfig,
    v: EnvView,
    in_types: Seq<RegType>,
    s: Machine,
    fastcall: bool,
    idx: usize,
)
    requires
        s.types.len() == 15,
        in_types[2] == (RegType::PtrToMapObject { map_idx: idx }),
        idx < cfg.ctx.map_defs@.len(),
        cfg.ctx.map_defs@[idx as int].type_ != 15,
        cfg.ctx.map_defs@[idx as int].type_ != 18,
    ensures
        ({
            let (w, t) = call_typed(cfg, v, in_types, s, 195, None, fastcall);
            let of_maps = cfg.ctx.map_defs@[idx as int].type_ == 12
                || cfg.ctx.map_defs@[idx as int].type_ == 13;
            &&& t.types[1] matches RegType::PtrToMapValueOrNull { map_uid, .. } && map_uid
                == if of_maps { Some(v.map_uids.next) } else { None }
            &&& of_maps ==> w.map_uids == v.map_uids.after()
            &&& !of_maps ==> w.map_uids == v.map_uids
        }),
{
    assert(Reg::R1.idx() == 2 && Reg::R2.idx() == 3 && Reg::R0.idx() == 1);
}

/// The last place before `end` that holds the address.
pub proof fn law_last_places_are_found(pcs: Seq<usize>, pc: usize, end: int)
    requires
        0 <= end <= pcs.len(),
    ensures
        match last_before(pcs, pc, end) {
            Some(i) => 0 <= i < end && pcs[i] == pc && forall|j: int|
                i < j < end ==> #[trigger] pcs[j] != pc,
            None => forall|j: int| 0 <= j < end ==> #[trigger] pcs[j] != pc,
        },
    decreases end,
{
    if end > 0 && pcs[end - 1] != pc {
        law_last_places_are_found(pcs, pc, end - 1);
    }
}

/// States are widened from the visit before the last: there is one visit after
/// it, and none between them.
pub proof fn law_widening_starts_one_visit_back(pcs: Seq<usize>, pc: usize)
    requires
        pcs.len() <= usize::MAX,
    ensures
        second_last(pcs, pc) matches Some(j) ==> j < pcs.len() && pcs[j as int] == pc && exists|i: int|
            #![trigger pcs[i]]
            j < i < pcs.len() && pcs[i] == pc && forall|k: int|
                j < k < pcs.len() && k != i ==> #[trigger] pcs[k] != pc,
        second_last(pcs, pc) is None ==> forall|i: int, k: int|
            0 <= i < k < pcs.len() && pcs[i] == pc ==> #[trigger] pcs[k] != #[trigger] pcs[i],
{
    law_last_places_are_found(pcs, pc, pcs.len() as int);
    if let Some(i) = last_before(pcs, pc, pcs.len() as int) {
        law_last_places_are_found(pcs, pc, i);
        if second_last(pcs, pc) is Some {
            assert(pcs[i] == pc);
        }
    }
}

/// A bounded jump goes on at the target and behind itself, each with one jump
/// less to go and one more done, until none is left.
pub proof fn law_bounded_jumps_are_counted(cfg: EnvConfig, s: Machine, target: usize)
    requires
        s.may_goto_depth < u32::MAX,
        s.pc < usize::MAX,
    ensures
        may_goto_step(cfg, s, target) matches Outcome::Next { states, .. } && if s.goto_budget > 0 {
            &&& states.len() == 2
            &&& states[0].pc == target
            &&& states[1].pc == s.pc + 1
            &&& states[0].goto_budget == s.goto_budget - 1
            &&& states[1].goto_budget == s.goto_budget - 1
            &&& states[0].may_goto_depth == s.may_goto_depth + 1
            &&& states[1].may_goto_depth == s.may_goto_depth + 1
            &&& states[0].types == s.types && states[1].types == s.types
            &&& states[0].domain == s.domain && states[1].domain == s.domain
        } else {
            &&& states.len() == 1
            &&& states[0].pc == s.pc + 1
            &&& states[0].goto_budget == 0
            &&& states[0].may_goto_depth == s.may_goto_depth + 1
            &&& states[0].types == s.types
        },
{
    reveal(may_goto_step);
}

/// A pointer into a map's value gets an identity of its own unless the map is
/// static data of the program; a pointer to a map needs none.
pub proof fn law_map_references_take_identities(
    cfg: EnvConfig,
    v: EnvView,
    s: Machine,
    dst: Reg,
    i: int,
)
    requires
        s.types.len() == 15,
        0 <= i < cfg.ctx.relocs@.len(),
        cfg.ctx.relocs@[i].pc == s.pc,
        forall|j: int| 0 <= j < i ==> (#[trigger] cfg.ctx.relocs@[j]).pc != s.pc,
        cfg.ctx.relocs@[i].map_idx < cfg.ctx.map_defs@.len(),
    ensures
        map_load_step(cfg, v, s, dst, MapLoadKind::MapPtr).0 == v,
        ({
            let name = cfg.ctx.map_defs@[cfg.ctx.relocs@[i].map_idx as int].name@;
            let (w, t) = map_load_step(cfg, v, s, dst, MapLoadKind::MapValue);
            &&& is_static_section(name) ==> w == v && (t matches Some(m) && (m.ty(
                dst,
            ) matches RegType::PtrToMapValue { id, .. } && id == 0))
            &&& !is_static_section(name) ==> w.ids == v.ids.after() && (t matches Some(m) && (m.ty(
                dst,
            ) matches RegType::PtrToMapValue { id, .. } && id == v.ids.next))
        }),
{
    reveal(map_load_step);
    lemma_first_where_at(cfg.ctx.relocs@, at_pc(s.pc), i);
}

/// The sections that hold static data: `.bss`, `.data` and `.rodata`, and parts
/// of them.
pub proof fn law_static_sections_are_known(name: Seq<char>)
    ensures
        is_static_section(".bss"@) && is_static_section(".data"@) && is_static_section(".rodata"@),
        is_static_section(name) ==> name == ".bss"@ || name == ".data"@ || name == ".rodata"@
            || ".bss."@.is_prefix_of(name) || ".data."@.is_prefix_of(name)
            || ".rodata."@.is_prefix_of(name),
        ".bss."@.is_prefix_of(name) || ".data."@.is_prefix_of(name) || ".rodata."@.is_prefix_of(
            name,
        ) ==> is_static_section(name),
        is_data_map(name) <==> ".rodata"@.is_prefix_of(name) || ".data"@.is_prefix_of(name) || name
            == ".bss"@,
{
}

/// Constants that are addresses of static data point into the data; other
/// constants are numbers. Casts into the arena point into it.
pub proof fn law_addresses_of_data_are_pointers(
    cfg: EnvConfig,
    id: u32,
    in_types: Seq<RegType>,
    cur: RegType,
    d: Numeric,
    dst: Reg,
    k: i64,
    r: Reg,
    pc: usize,
    i: int,
)
    requires
        0 <= i < cfg.ctx.relocs@.len(),
        cfg.ctx.relocs@[i].pc == pc,
        forall|j: int| 0 <= j < i ==> (#[trigger] cfg.ctx.relocs@[j]).pc != pc,
        cfg.ctx.relocs@[i].map_idx < cfg.ctx.map_defs@.len(),
    ensures
        ({
            let name = cfg.ctx.map_defs@[cfg.ctx.relocs@[i].map_idx as int].name@;
            let t = alu_type(
                cfg,
                id,
                in_types,
                cur,
                d,
                Width::W64,
                AluOp::Mov,
                dst,
                Operand::Imm(k),
                pc,
            );
            &&& ".rodata"@.is_prefix_of(name) || ".data"@.is_prefix_of(name) || name == ".bss"@
                ==> t == (RegType::PtrToMapValue {
                id,
                offset: Some(cfg.ctx.relocs@[i].offset),
                map_idx: cfg.ctx.relocs@[i].map_idx,
                map_uid: None,
            })
            &&& !(".rodata"@.is_prefix_of(name) || ".data"@.is_prefix_of(name) || name == ".bss"@)
                ==> t is ScalarValue
        }),
        cfg.arena_cast_pcs@.contains(pc) ==> alu_type(
            cfg,
            id,
            in_types,
            cur,
            d,
            Width::W64,
            AluOp::Mov,
            dst,
            Operand::Reg(r),
            pc,
        ) == (RegType::PtrToArena { ref_id: None, mem_size: 0x1_0000_0000 }),
{
    lemma_first_where_at(cfg.ctx.relocs@, at_pc(pc), i);
}

/// Of the descriptions of iterators nothing is loaded through a typed pointer,
/// and a load from an object yields a pointer only if it is of eight bytes at an
/// offset that is not negative.
pub proof fn law_object_loads_are_whole(
    cfg: EnvConfig,
    v: EnvView,
    s: Machine,
    size: usize,
    dst: Reg,
    base: Reg,
    off: i16,
)
    requires
        s.types.len() == 15,
    ensures
        (s.ty(base) matches RegType::PtrToBtfId { struct_name, .. } && struct_name@
            == "bpf_iter_meta"@) ==> faulted(v, load_checked(cfg, v, s, base, size as i64, off)),
        (s.ty(base) is PtrToBtfId || s.ty(base) is PtrToTask || s.ty(base) is PtrToCgroup) && (size
            != 8 || off < 0) ==> load_typed(cfg, v, s, size, dst, base, off).1.ty(dst)
            is ScalarValue,
{
    reveal(load_typed);
    lemma_faults_are_heard(v);
}

/// A field that holds a number in a range yields a number in that range.
pub proof fn law_bounded_fields_are_bounded(
    d: Numeric,
    dst: Reg,
    lo: i64,
    hi: i64,
    w: spec_fn(int) -> int,
)
    requires
        firm(d),
        general(dst),
        d is Interval || lo < i32::MIN || hi > i32::MAX,
        moderate(lo as int),
        moderate(hi as int),
        allows(bounded_number(d, dst, lo, hi), w),
    ensures
        lo <= w(dst.idx() as int) <= hi,
{
    lemma_forget_is_firm(d, dst, w);
    let e = d.forget(dst).assume_ge_imm(dst, lo).assume_le_imm(dst, hi);
    assert(e.set_s32(dst, lo as i32, hi as i32) == e || d is Zone);
    reveal(bounded_number);
    assert(bounded_number(d, dst, lo, hi) == e);
    lemma_bounds_stay(d.forget(dst), dst, lo, hi, w);
}

/// A spilled register that is loaded back is reported to the step that loads it,
/// unless the program is replayed.
pub proof fn law_fills_are_reported(
    cfg: EnvConfig,
    v: EnvView,
    s: Machine,
    dst: Reg,
    level: FrameLevel,
    at: i16,
)
    ensures
        cfg.current_step_idx is None ==> fill_step(cfg, v, s, dst, level, at).0 == v,
        cfg.replay_mode ==> fill_step(cfg, v, s, dst, level, at).0 == v,
        s.stack_at(level).slots[at].source_reg is None ==> fill_step(
            cfg,
            v,
            s,
            dst,
            level,
            at,
        ).0 == v,
        !cfg.replay_mode && s.stack_at(level).slots[at].source_reg is Some ==> (
        cfg.current_step_idx matches Some(i) ==> fill_step(cfg, v, s, dst, level, at).0
            == v.stack_step(i)),
{
}

/// A helper that copies bytes of the packet to the stack writes as many as its
/// size can be: they hold numbers afterwards.
pub proof fn law_copied_bytes_are_numbers(
    cfg: EnvConfig,
    v: EnvView,
    in_types: Seq<RegType>,
    s: Machine,
    level: FrameLevel,
    at: i64,
    k: int,
)
    requires
        s.types.len() == 15,
        in_types[4] == (RegType::PtrToStack { frame_level: level }),
        level.index < s.frames.len(),
        s.domain.fixed_distance(Reg::R3, Reg::R10) == Some(at),
        -0x1000 <= at <= 0,
        0 < s.domain.range(Reg::R4).1 <= 0x1000,
        at <= k < at + s.domain.range(Reg::R4).1,
    ensures
        ({
            let t = call_typed(cfg, v, in_types, s, 26, None, false).1;
            let slots = t.frames[level.index as int].stack.slots;
            slots.dom().contains(k as i16) && slots[k as i16].ty is ScalarValue
        }),
{
    assert(Reg::R3.idx() == 4 && Reg::R1.idx() == 2);
    let n = s.domain.range(Reg::R4).1;
    law_filled_runs_hold_numbers(s.frames[level.index as int].stack, at, n as int, k);
}

proof fn lemma_read_run_is_heard(
    privileged: bool,
    v: EnvView,
    s: StackView,
    kind: AccessKind,
    from: i64,
    insn_off: i64,
    n: int,
    size: i64,
    pc: usize,
    k: int,
)
    requires
        0 <= k < n,
        size == 8 || !(kind is Read),
    ensures
        stack_read_run(privileged, v, s, kind, from, insn_off, n, size, pc).failures.len()
            >= v.failures.len(),
        stack_read_run(privileged, v, s, kind, from, insn_off, n, size, pc).failures.len()
            == v.failures.len() ==> stack_read(
            privileged,
            v,
            s,
            kind,
            wadd((from + k) as i64, insn_off),
            size,
            pc,
        ).failures.len() == v.failures.len(),
    decreases n,
{
    let before = stack_read_run(privileged, v, s, kind, from, insn_off, n - 1, size, pc);
    if k < n - 1 {
        lemma_read_run_is_heard(
            privileged,
            v,
            s,
            kind,
            from,
            insn_off,
            n - 1,
            size,
            pc,
            k,
        );
    } else if n - 1 > 0 {
        lemma_read_run_is_heard(
            privileged,
            v,
            s,
            kind,
            from,
            insn_off,
            n - 1,
            size,
            pc,
            0,
        );
    }
}

/// Where the pointer may stand at several places, the bytes at each of them were
/// written, or the program is privileged, and none holds a dynamic pointer or an
/// iterator.
pub proof fn law_unknown_stack_reads_need_written_bytes(
    cfg: EnvConfig,
    v: EnvView,
    s: Machine,
    base: Reg,
    off: i16,
    level: FrameLevel,
    at: int,
    i: int,
)
    requires
        s.ty(base) == (RegType::PtrToStack { frame_level: level }),
        s.domain.fixed_distance(base, Reg::R10) is None,
        decided_now(cfg, s),
        -0x4000 <= s.domain.distance(base, Reg::R10).0 <= at,
        at <= s.domain.distance(base, Reg::R10).1 <= 0x4000,
        0 <= i < 8,
        silent(v, load_checked(cfg, v, s, base, 8, off)),
    ensures
        s.stack_at(level).slots.dom().contains((at + off + i) as i16) || cfg.ctx.privileged,
        !s.stack_at(level).overlaps_dynptr((at + off) as i64, 8),
        !s.stack_at(level).overlaps_iterator((at + off) as i64, 8),
{
    lemma_faults_are_heard(v);
    let (lo, hi) = s.domain.distance(base, Reg::R10);
    let m = load_marked(v, s, base);
    lemma_read_run_is_heard(
        cfg.ctx.privileged,
        m,
        s.stack_at(level),
        AccessKind::Read,
        lo,
        off as i64,
        hi - lo + 1,
        8,
        s.pc,
        at - lo,
    );
    let from = (at + off) as i64;
    assert(wadd((lo + (at - lo)) as i64, off as i64) == from);
    assert(wadd(from, i as i64) as i16 == (at + off + i) as i16);
}

/// Only pointers to objects of the kernel, or 0, are stored where a map's value
/// keeps one: an ordinary number is reported.
pub proof fn law_numbers_are_no_kernel_pointers(
    cfg: EnvConfig,
    v: EnvView,
    s: Machine,
    base: Reg,
    off: i16,
    src: Operand,
    idx: usize,
    at: i64,
    k: int,
)
    requires
        s.ty(base) matches RegType::PtrToMapValue { map_idx, offset, .. } && map_idx == idx && offset
            == Some(at),
        -0x1000_0000_0000_0000 < at < 0x1000_0000_0000_0000,
        idx < cfg.ctx.map_defs@.len(),
        0 <= k < cfg.ctx.map_defs@[idx as int].kptr_fields@.len(),
        cfg.ctx.map_defs@[idx as int].kptr_fields@[k].offset == at + off,
        cfg.ctx.map_defs@[idx as int].kptr_fields@[k].kind is Unref,
        forall|j: int|
            0 <= j < k ==> (#[trigger] cfg.ctx.map_defs@[idx as int].kptr_fields@[j]).offset != at
                + off,
        src matches Operand::Imm(c) ==> c != 0,
        src matches Operand::Reg(r) ==> (s.ty(r) is ScalarValue && s.domain.range(r) != (0i64, 0i64))
            || s.ty(r) is PtrToStack || s.ty(r) is PtrToMapValue || s.ty(r) is PtrToPacket || s.ty(r)
            is PtrToCtx,
        v.failures.len() == 0,
    ensures
        store_step(cfg, v, s, MemSize::U64, base, off, src).0.failures.len() > 0,
        store_step(cfg, v, s, MemSize::U64, base, off, src).1 is Some ==> store_checked(
            cfg,
            v,
            s,
            base,
            8,
            off,
            match src {
                Operand::Reg(r) => s.ty(r),
                Operand::Imm(_) => RegType::ScalarValue,
            },
        ).failures.len() > 0,
{
    let d = cfg.ctx.map_defs@[idx as int];
    let x = (at + off) as i64;
    lemma_first_where_at(d.kptr_fields@, crate::transfer::map_access::kptr_offset_is(x), k);
    assert(bad_kptr_store(cfg, s, MemSize::U64, base, off, src));
    reveal(store_step);
}

} // verus!
