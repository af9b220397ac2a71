//! What loads, stores and byte swaps leave behind.
use crate::ast::{AtomicOp, EndianOp, MapLoadKind, MemSize, Operand, PacketLoadMode, Width};
use crate::domains::meaning::{
    allows, firm, general, law_assignments_are_exact, law_assignments_are_followed,
    law_assumptions_are_followed,
};
use crate::domains::zone::laws::with_value;
use crate::machine::env::{EnvConfig, EnvView};
use crate::machine::reg::{law_index_round_trip, Reg};
use crate::machine::reg_types::{FrameLevel, RegType};
use crate::machine::stack_laws::{
    law_blurred_runs_say_nothing, law_overlaps_share_a_byte, law_written_runs_hold_numbers,
    says_nothing,
};
use crate::machine::stack_state::{touched, StackView};
use crate::machine::state::Machine;
use crate::machine::tnum::Tnum;
use crate::transfer::access::{load_checked, store_checked};
use crate::transfer::calls::stays;
use crate::transfer::common::{unreadable, unwritable};
use crate::transfer::exits::{faulted, lemma_faults_are_heard, silent};
use crate::transfer::memory::{
    atomic_step, checked_load, le_value, load_bounded, load_noted, load_step, load_sx_step, map_load_step,
    dynptrs_overwritten, operand_type, packet_load_step, pair_ids, pairs_cleared, stack_blurred,
    stack_written, store_step,
};
use crate::transfer::step::endian_step;
use crate::transfer::types::load_typed;
use vstd::prelude::*;

verus! {

/// How many bytes are accessed.
pub open spec fn width_of(size: MemSize) -> int {
    match size {
        MemSize::U8 => 1,
        MemSize::U16 => 2,
        MemSize::U32 => 4,
        MemSize::U64 => 8,
    }
}

/// One more than the greatest number of that many bytes, if it fits a register.
pub open spec fn end_of(size: MemSize) -> int {
    match size {
        MemSize::U8 => 0x100,
        MemSize::U16 => 0x1_0000,
        MemSize::U32 => 0x1_0000_0000,
        MemSize::U64 => 0x8000_0000_0000_0000,
    }
}

/// A load needs a base that was set and a target other than the frame pointer;
/// it then reports what the check of the access reports, and goes on at the
/// next instruction.
pub proof fn law_loads_are_checked(
    cfg: EnvConfig,
    v: EnvView,
    s: Machine,
    size: MemSize,
    dst: Reg,
    base: Reg,
    off: i16,
    q: Reg,
)
    requires
        s.types.len() == 15,
        q != dst,
    ensures
        ({
            let (w, t) = load_step(cfg, v, s, size, dst, base, off);
            &&& s.ty(base) is NotInit || dst == Reg::R10 ==> faulted(v, w) && t is None
            &&& !(s.ty(base) is NotInit) && dst != Reg::R10 ==> {
                let c = load_checked(
                    cfg,
                    v,
                    load_noted(s, dst),
                    base,
                    width_of(size) as i64,
                    off,
                );
                &&& w.failures == c.failures
                &&& t is Some <==> !c.path_unreachable
            }
            &&& t matches Some(t) ==> t.pc == (s.pc + 1) as usize && t.refs == s.refs && t.frames
                == s.frames && t.lock_depth == s.lock_depth
            &&& t matches Some(t) ==> t.ty(q) == s.ty(q)
        }),
{
    lemma_faults_are_heard(v);
    let n = load_noted(s, dst);
    let c = load_checked(cfg, v, n, base, width_of(size) as i64, off);
    lemma_loaded(cfg, c, n, size, dst, base, off, q);
    assert(load_step(cfg, v, s, size, dst, base, off) == if s.ty(base) is NotInit {
        (v.fail(unreadable(s, base)), None)
    } else if dst == Reg::R10 {
        (v.fail(unwritable(s, dst)), None)
    } else if c.path_unreachable {
        (EnvView { path_unreachable: false, ..c }, None)
    } else {
        let (x, t) = checked_load(cfg, c, n, size, dst, base, off);
        (x, Some(t.at(s.pc + 1)))
    }) by {
        reveal(load_step);
    }
}

proof fn lemma_loaded(
    cfg: EnvConfig,
    v: EnvView,
    s: Machine,
    size: MemSize,
    dst: Reg,
    base: Reg,
    off: i16,
    q: Reg,
)
    requires
        s.types.len() == 15,
        q != dst,
    ensures
        ({
            let (w, t) = checked_load(cfg, v, s, size, dst, base, off);
            &&& w.failures == v.failures
            &&& t.refs == s.refs
            &&& t.frames == s.frames
            &&& t.lock_depth == s.lock_depth
            &&& t.ty(q) == s.ty(q)
        }),
{
    law_index_round_trip(q, q.idx());
    law_index_round_trip(dst, dst.idx());
    lemma_typed(cfg, v, s, width_of(size) as usize, dst, base, off, q);
}

proof fn lemma_typed(
    cfg: EnvConfig,
    v: EnvView,
    s: Machine,
    size: usize,
    dst: Reg,
    base: Reg,
    off: i16,
    q: Reg,
)
    requires
        s.types.len() == 15,
        q != dst,
    ensures
        ({
            let (w, t, _) = load_typed(cfg, v, s, size, dst, base, off);
            &&& w.failures == v.failures
            &&& t.refs == s.refs
            &&& t.frames == s.frames
            &&& t.lock_depth == s.lock_depth
            &&& t.ty(q) == s.ty(q)
        }),
{
    reveal(load_typed);
    law_index_round_trip(q, q.idx());
    law_index_round_trip(dst, dst.idx());
}

proof fn lemma_plain_load(
    cfg: EnvConfig,
    v: EnvView,
    s: Machine,
    size: MemSize,
    dst: Reg,
    base: Reg,
    off: i16,
    t: Machine,
)
    requires
        s.types.len() == 15,
        s.ty(base) is PtrToPacket || s.ty(base) is PtrToPacketMeta || s.ty(base) is PtrToAllocMem,
        load_step(cfg, v, s, size, dst, base, off).1 == Some(t),
    ensures
        t.types.len() == 15,
        t.ty(dst) is ScalarValue,
        t.tnums == s.tnums.update(dst.idx() as int, Tnum::unknown()),
        t.domain == load_bounded(s.domain, dst, size),
{
    reveal(load_step);
    reveal(load_typed);
}

/// A load from the packet, its metadata or allocated memory yields a number
/// that fits its bytes, any such number, and leaves the other registers.
pub proof fn law_loaded_numbers_fit_their_bytes(
    cfg: EnvConfig,
    v: EnvView,
    s: Machine,
    size: MemSize,
    dst: Reg,
    base: Reg,
    off: i16,
    t: Machine,
    w: spec_fn(int) -> int,
    x: i64,
)
    requires
        s.types.len() == 15,
        s.tnums.len() == 15,
        firm(s.domain),
        general(dst),
        s.ty(base) is PtrToPacket || s.ty(base) is PtrToPacketMeta || s.ty(base) is PtrToAllocMem,
        load_step(cfg, v, s, size, dst, base, off).1 == Some(t),
    ensures
        t.ty(dst) is ScalarValue,
        t.tnums[dst.idx() as int].mask == u64::MAX,
        allows(s.domain, w) && (0 <= x < end_of(size) || size is U64) ==> allows(
            t.domain,
            with_value(w, dst.idx() as int, x as int),
        ),
        allows(t.domain, w) && !(size is U64) ==> 0 <= w(dst.idx() as int) < end_of(size),
{
    lemma_plain_load(cfg, v, s, size, dst, base, off, t);
    let other = if dst == Reg::R0 { Reg::R1 } else { Reg::R0 };
    let f = s.domain.forget(dst);
    lemma_forgotten_is_firm(s, dst);
    let hi = (end_of(size) - 1) as i64;
    if allows(s.domain, w) {
        let u = with_value(w, dst.idx() as int, x as int);
        law_assignments_are_followed(s.domain, dst, other, x, 0, 0, w);
        if !(size is U64) && 0 <= x < end_of(size) {
            law_assumptions_are_followed(f, dst, other, 0, 0, 0, u);
            law_assumptions_are_followed(f.assume_ge_imm(dst, 0), dst, other, hi, 0, 0, u);
        }
    }
    if allows(t.domain, w) && !(size is U64) {
        crate::domains::meaning::lemma_bounds_stay(f, dst, 0, hi, w);
    }
}

proof fn lemma_forgotten_is_firm(s: Machine, dst: Reg)
    requires
        firm(s.domain),
        general(dst),
    ensures
        firm(s.domain.forget(dst)),
{
    let w = |k: int| 0int;
    crate::domains::meaning::lemma_forget_is_firm(s.domain, dst, w);
}

/// A load that extends the sign yields a number of that many signed bytes, any
/// such number.
pub proof fn law_extended_numbers_fit_their_bytes(
    cfg: EnvConfig,
    v: EnvView,
    s: Machine,
    size: MemSize,
    dst: Reg,
    base: Reg,
    off: i16,
    t: Machine,
    w: spec_fn(int) -> int,
)
    requires
        s.types.len() == 15,
        firm(s.domain),
        general(dst),
        s.ty(base) is PtrToPacket || s.ty(base) is PtrToPacketMeta || s.ty(base) is PtrToAllocMem,
        load_sx_step(cfg, v, s, size, dst, base, off).1 == Some(t),
        allows(t.domain, w),
    ensures
        t.ty(dst) is ScalarValue,
        !(size is U64) ==> -end_of(size) <= 2 * w(dst.idx() as int) < end_of(size),
{
    let u = load_step(cfg, v, s, size, dst, base, off).1->Some_0;
    assert(load_step(cfg, v, s, size, dst, base, off).1 is Some) by {
        reveal(load_sx_step);
    }
    lemma_plain_load(cfg, v, s, size, dst, base, off, u);
    lemma_sign_extended(cfg, v, s, size, dst, base, off, t);
    lemma_narrow_load_is_firm(s, dst, size);
    lemma_forgotten_is_firm(u, dst);
    if !(size is U64) {
        crate::domains::meaning::lemma_bounds_stay(
            u.domain.forget(dst),
            dst,
            (-(end_of(size) / 2)) as i64,
            (end_of(size) / 2 - 1) as i64,
            w,
        );
    }
}

proof fn lemma_sign_extended(
    cfg: EnvConfig,
    v: EnvView,
    s: Machine,
    size: MemSize,
    dst: Reg,
    base: Reg,
    off: i16,
    t: Machine,
)
    requires
        s.types.len() == 15,
        general(dst),
        load_sx_step(cfg, v, s, size, dst, base, off).1 == Some(t),
        load_step(cfg, v, s, size, dst, base, off).1->Some_0.types.len() == 15,
    ensures
        t.ty(dst) is ScalarValue,
        !(size is U64) ==> t.domain == load_step(
            cfg,
            v,
            s,
            size,
            dst,
            base,
            off,
        ).1->Some_0.domain.forget(dst).assume_ge_imm(
            dst,
            (-(end_of(size) / 2)) as i64,
        ).assume_le_imm(dst, (end_of(size) / 2 - 1) as i64),
{
    reveal(load_sx_step);
}

proof fn lemma_narrow_load_is_firm(s: Machine, dst: Reg, size: MemSize)
    requires
        firm(s.domain),
        general(dst),
    ensures
        firm(load_bounded(s.domain, dst, size)),
{
    lemma_forgotten_is_firm(s, dst);
    let f = s.domain.forget(dst);
    crate::domains::meaning::lemma_bounds_are_firm(f, dst, 0);
    crate::domains::meaning::lemma_bounds_are_firm(
        f.assume_ge_imm(dst, 0),
        dst,
        (end_of(size) - 1) as i64,
    );
}

/// A load from a map that programs cannot write yields the bytes the map was
/// filled with, the least significant first.
pub proof fn law_constant_maps_are_read(
    cfg: EnvConfig,
    v: EnvView,
    s: Machine,
    size: MemSize,
    dst: Reg,
    base: Reg,
    off: i16,
    t: Machine,
    idx: usize,
    at: i64,
    data: Seq<u8>,
)
    requires
        s.tnums.len() == 15,
        s.types.len() == 15,
        s.ty(base) matches RegType::PtrToMapValue { map_idx, offset, .. } && map_idx == idx && offset
            == Some(at),
        idx < cfg.ctx.map_defs@.len(),
        cfg.ctx.map_defs@[idx as int].map_flags & 0x80 != 0,
        cfg.ctx.map_defs@[idx as int].initial_data matches Some(d) && d@ == data,
        0 <= at + off,
        at + off + width_of(size) <= data.len(),
        data.len() <= 0xFFFF_FFFF,
        load_step(cfg, v, s, size, dst, base, off).1 == Some(t),
    ensures
        t.ty(dst) is ScalarValue,
        t.tnums[dst.idx() as int].mask == 0,
        ({
            let x = t.tnums[dst.idx() as int].value;
            let a = at + off;
            match size {
                MemSize::U8 => x == data[a],
                MemSize::U16 => x == data[a] + 0x100 * data[a + 1],
                MemSize::U32 => x == data[a] + 0x100 * data[a + 1] + 0x1_0000 * data[a + 2]
                    + 0x100_0000 * data[a + 3],
                MemSize::U64 => x == data[a] + 0x100 * data[a + 1] + 0x1_0000 * data[a + 2]
                    + 0x100_0000 * data[a + 3] + 0x1_0000_0000 * data[a + 4] + 0x100_0000_0000
                    * data[a + 5] + 0x1_0000_0000_0000 * data[a + 6] + 0x100_0000_0000_0000
                    * data[a + 7],
            }
        }),
        t.domain == s.domain.forget(dst).assume_eq_imm(
            dst,
            t.tnums[dst.idx() as int].value as i64,
        ),
{
    reveal(load_step);
    reveal_with_fuel(le_value, 9);
}

/// A store needs a base and a source that were set; it then reports what the
/// check of the access reports. A store that does not go to a stack changes no
/// register and no stack.
pub proof fn law_stores_are_checked(
    cfg: EnvConfig,
    v: EnvView,
    s: Machine,
    size: MemSize,
    base: Reg,
    off: i16,
    src: Operand,
)
    ensures
        ({
            let (w, t) = store_step(cfg, v, s, size, base, off, src);
            &&& s.ty(base) is NotInit ==> faulted(v, w) && t is None
            &&& src matches Operand::Reg(r) ==> (s.ty(r) is NotInit ==> faulted(v, w) && t is None)
            &&& !(s.ty(base) is PtrToStack || s.ty(base) is PtrToMapValue || s.ty(base) is NotInit)
                && (src matches Operand::Reg(r) ==> !(s.ty(r) is NotInit)) ==> {
                &&& t == Some(s.at(s.pc + 1))
                &&& w == store_checked(
                    cfg,
                    v,
                    s,
                    base,
                    width_of(size) as i64,
                    off,
                    match src {
                        Operand::Reg(r) => s.ty(r),
                        Operand::Imm(_) => RegType::ScalarValue,
                    },
                )
            }
            &&& t matches Some(t) ==> t.pc == (s.pc + 1) as usize
        }),
{
    reveal(store_step);
    lemma_faults_are_heard(v);
}

/// An atomic access is aligned, never goes to the context, and needs registers
/// that were set; it is let through only if both the load and the store are.
pub proof fn law_atomics_are_checked(
    cfg: EnvConfig,
    v: EnvView,
    s: Machine,
    op: AtomicOp,
    fetch: bool,
    size: MemSize,
    base: Reg,
    off: i16,
    src: Reg,
    t: Machine,
)
    requires
        atomic_step(cfg, v, s, op, fetch, size, base, off, src).1 == Some(t),
    ensures
        off as int % width_of(size) == 0,
        !(s.ty(base) is NotInit),
        !(s.ty(base) is PtrToCtx),
        !(s.ty(src) is NotInit),
        op is CmpXchg ==> !(s.ty(Reg::R0) is NotInit),
        fetch && !(op is CmpXchg) ==> src != Reg::R10,
        ({
            let a = load_checked(cfg, v, s, base, width_of(size) as i64, off);
            store_checked(cfg, a, s, base, width_of(size) as i64, off, s.ty(src)).failures.len() == 0
        }),
        t.pc == (s.pc + 1) as usize,
        t.refs == s.refs,
{
    reveal(atomic_step);
}

/// A load from the packet through the context in R6 uses up the arguments,
/// leaves a number in R0 that fits its bytes, and keeps R6 to R9. Without the
/// context in R6 the program does not go on; under a lock it is reported.
pub proof fn law_packet_loads_are_like_calls(
    v: EnvView,
    s: Machine,
    size: MemSize,
    mode: PacketLoadMode,
    src: Option<Reg>,
)
    requires
        s.types.len() == 15,
        s.tnums.len() == 15,
    ensures
        ({
            let (w, t) = packet_load_step(v, s, size, mode, src);
            &&& !(s.types[7] is PtrToCtx) ==> t is None
            &&& s.types[7] is PtrToCtx && s.lock_depth > 0 && mode is Abs ==> faulted(v, w) && t
                is None
            &&& s.types[7] is PtrToCtx && (src matches Some(r) && s.ty(r) is NotInit) ==> faulted(
                v,
                w,
            ) && t is None
            &&& s.types[7] is PtrToCtx && s.lock_depth == 0 && (src matches Some(r) ==> !(s.ty(r)
                is NotInit)) ==> silent(v, w) && t is Some
            &&& t matches Some(t) ==> {
                &&& t.types[1] is ScalarValue
                &&& forall|i: int| 2 <= i <= 6 ==> (#[trigger] t.types[i]) is NotInit
                &&& forall|i: int| 7 <= i <= 11 ==> (#[trigger] t.types[i]) == s.types[i]
                &&& t.frames == s.frames
                &&& t.pc == (s.pc + 1) as usize
                &&& !(size is U64) ==> t.tnums[1].value == 0 && t.tnums[1].mask == end_of(size) - 1
                &&& size is U64 ==> t.tnums[1].mask == u64::MAX
            }
        }),
{
    reveal(packet_load_step);
    lemma_faults_are_heard(v);
}

/// A swap of bytes leaves a number of no more bytes than it kept.
pub proof fn law_swapped_numbers_fit(
    s: Machine,
    dst: Reg,
    op: EndianOp,
    size: u32,
    width: Width,
    w: spec_fn(int) -> int,
)
    requires
        s.types.len() == 15,
        firm(s.domain),
        general(dst),
        allows(endian_step(s, dst, op, size, width).domain, w),
    ensures
        endian_step(s, dst, op, size, width).ty(dst) is ScalarValue,
        width is W64 && size == 16 ==> 0 <= w(dst.idx() as int) <= 0xFFFF,
        width is W64 && size == 32 ==> 0 <= w(dst.idx() as int) <= 0xFFFF_FFFF,
        width is W32 ==> 0 <= w(dst.idx() as int) <= 0xFFFF_FFFF,
        endian_step(s, dst, op, size, width).pc == (s.pc + 1) as usize,
        forall|r: Reg| r != dst ==> #[trigger] endian_step(s, dst, op, size, width).ty(r) == s.ty(r),
{
    reveal(endian_step);
    assert forall|r: Reg| r != dst implies r.idx() != dst.idx() by {
        law_index_round_trip(r, r.idx());
        law_index_round_trip(dst, dst.idx());
    }
    let other = if dst == Reg::R0 { Reg::R1 } else { Reg::R0 };
    law_assignments_are_exact(s.domain, dst, other, 0xFFFF, 0, 0, w);
    law_assignments_are_exact(s.domain, dst, other, 0xFFFF_FFFF, 0, 0, w);
    lemma_forgotten_is_firm(s, dst);
    crate::domains::meaning::lemma_masked_is_firm(s.domain, dst, 0xFFFF);
    crate::domains::meaning::lemma_masked_is_firm(s.domain, dst, 0xFFFF_FFFF);
    law_assignments_are_exact(s.domain.forget(dst), dst, other, 0xFFFF_FFFF, 0, 0, w);
    law_assignments_are_exact(s.domain.and_imm(dst, 0xFFFF), dst, other, 0xFFFF_FFFF, 0, 0, w);
    law_assignments_are_exact(s.domain.and_imm(dst, 0xFFFF_FFFF), dst, other, 0xFFFF_FFFF, 0, 0, w);
}

/// A reference to a map needs its relocation; it then points to the map itself
/// or into its value, and the program goes on after the second half of the
/// instruction.
pub proof fn law_map_references_are_resolved(
    cfg: EnvConfig,
    v: EnvView,
    s: Machine,
    dst: Reg,
    kind: MapLoadKind,
)
    requires
        s.types.len() == 15,
        kind is MapPtr || kind is MapValue,
    ensures
        ({
            let (w, t) = map_load_step(cfg, v, s, dst, kind);
            &&& (forall|i: int| 0 <= i < cfg.ctx.relocs@.len() ==> (#[trigger] cfg.ctx.relocs@[i]).pc
                != s.pc) ==> faulted(v, w) && t is None
            &&& t matches Some(t) ==> exists|i: int|
                0 <= i < cfg.ctx.relocs@.len() && (#[trigger] cfg.ctx.relocs@[i]).pc == s.pc
                    && match t.ty(dst) {
                    RegType::PtrToMapObject { map_idx } => kind is MapPtr && map_idx
                        == cfg.ctx.relocs@[i].map_idx,
                    RegType::PtrToMapValue { map_idx, offset, .. } => kind is MapValue && map_idx
                        == cfg.ctx.relocs@[i].map_idx && offset == Some(
                        cfg.ctx.relocs@[i].offset,
                    ),
                    _ => false,
                }
            &&& t matches Some(t) ==> t.pc == (s.pc + 2) as usize && silent(v, w)
        }),
{
    reveal(map_load_step);
    lemma_faults_are_heard(v);
    let p = crate::machine::layout::at_pc(s.pc);
    crate::machine::find::law_first_where(cfg.ctx.relocs@, p);
}

proof fn lemma_slices_leave_slots(s: Machine, ids: Seq<u32>, f: int, k: i16)
    requires
        0 <= f < s.frames.len(),
    ensures
        s.drop_slices(ids).frames.len() == s.frames.len(),
        s.drop_slices(ids).frames[f].stack.slots.dom().contains(k)
            <==> s.frames[f].stack.slots.dom().contains(k),
        s.frames[f].stack.slots.dom().contains(k) && stays(s.frames[f].stack.slots[k].ty)
            ==> s.drop_slices(ids).frames[f].stack.slots[k] == s.frames[f].stack.slots[k],
    decreases ids.len(),
{
    if ids.len() > 0 {
        lemma_slices_leave_slots(s, ids.drop_last(), f, k);
    }
}

proof fn lemma_cleared_pairs_leave_slots(s: StackView, pairs: Seq<(i16, u32)>)
    ensures
        pairs_cleared(s, pairs).slots == s.slots,
    decreases pairs.len(),
{
    if pairs.len() > 0 {
        lemma_cleared_pairs_leave_slots(s, pairs.drop_last());
    }
}

/// A store at a known place of a stack writes its bytes and no others: they
/// hold a number afterwards, but for the first of eight, which holds what the
/// register held.
pub proof fn law_stack_stores_write_their_bytes(
    cfg: EnvConfig,
    v: EnvView,
    s: Machine,
    size: MemSize,
    base: Reg,
    off: i16,
    src: Operand,
    level: FrameLevel,
    at: i64,
    t: Machine,
    k: int,
)
    requires
        s.ty(base) == (RegType::PtrToStack { frame_level: level }),
        level.index < s.frames.len(),
        s.domain.fixed_distance(base, Reg::R10) == Some(at),
        -0x2000 <= at + off <= 0x2000,
        -0x8000 <= k <= 0x7FFF,
        store_step(cfg, v, s, size, base, off, src).1 == Some(t),
    ensures
        ({
            let before = s.frames[level.index as int].stack;
            let after = t.frames[level.index as int].stack;
            let i = k as i16;
            let start = at + off;
            &&& t.frames.len() == s.frames.len()
            &&& start <= k < start + width_of(size) ==> after.slots.dom().contains(i)
            &&& start < k < start + width_of(size) ==> after.slots[i].ty is ScalarValue
            &&& k == start && !(size is U64) ==> after.slots[i].ty is ScalarValue
            &&& k == start && size is U64 ==> after.slots[i].ty == match src {
                Operand::Reg(r) => s.ty(r),
                Operand::Imm(_) => RegType::ScalarValue,
            }
            &&& !(start <= k < start + width_of(size)) ==> (after.slots.dom().contains(i)
                <==> before.slots.dom().contains(i))
            &&& !(start <= k < start + width_of(size)) && before.slots.dom().contains(i) && stays(
                before.slots[i].ty,
            ) ==> after.slots[i] == before.slots[i]
            &&& t.domain == s.domain
            &&& t.tnums == s.tnums
            &&& t.refs == s.refs
        }),
{
    let n = width_of(size) as i64;
    let full = (at + off) as i64;
    let f = level.index as int;
    let pairs = touched(s.stack_at(level).dynptrs, full, n);
    lemma_cleared_pairs_leave_slots(s.stack_at(level), pairs);
    let a = s.with_stack(level, pairs_cleared(s.stack_at(level), pairs));
    lemma_slices_leave_slots(a, pair_ids(pairs), f, k as i16);
    lemma_slices_leave_rest(a, pair_ids(pairs));
    let b = dynptrs_overwritten(s, level, full, n);
    let src_type = operand_type(s, src);
    let rec = match src {
        Operand::Reg(r) => b.spill_record(r, size),
        Operand::Imm(c) => crate::machine::state::imm_record(c, size),
    };
    let c = b.with_stack(level, b.stack_at(level).put(full as i16, rec)).deepen(off);
    law_written_runs_hold_numbers(c.stack_at(level), full as i16, 0, n as int, k);
    let d = c.stack_at(level).retype(full as i16, src_type);
    law_written_runs_hold_numbers(d, full as i16, 1, 8, k);
    assert(t == stack_written(b, level, full, off, size, src, src_type).at(s.pc + 1)) by {
        reveal(store_step);
    }
}

proof fn lemma_slices_leave_rest(s: Machine, ids: Seq<u32>)
    ensures
        s.drop_slices(ids).domain == s.domain,
        s.drop_slices(ids).tnums == s.tnums,
        s.drop_slices(ids).refs == s.refs,
        s.drop_slices(ids).frames.len() == s.frames.len(),
    decreases ids.len(),
{
    if ids.len() > 0 {
        lemma_slices_leave_rest(s, ids.drop_last());
    }
}

/// A store at an unknown place of a stack leaves nothing known of any byte it
/// may have written.
pub proof fn law_unknown_stores_leave_nothing_known(
    cfg: EnvConfig,
    v: EnvView,
    s: Machine,
    size: MemSize,
    base: Reg,
    off: i16,
    src: Operand,
    level: FrameLevel,
    t: Machine,
    k: int,
)
    requires
        s.ty(base) == (RegType::PtrToStack { frame_level: level }),
        level.index < s.frames.len(),
        s.domain.fixed_distance(base, Reg::R10) is None,
        -0x2000 <= s.domain.distance(base, Reg::R10).0,
        s.domain.distance(base, Reg::R10).1 <= 0x2000,
        -0x2000 <= off <= 0x2000,
        store_step(cfg, v, s, size, base, off, src).1 == Some(t),
        s.domain.distance(base, Reg::R10).0 + off <= k < s.domain.distance(base, Reg::R10).1 + off
            + width_of(size),
        s.frames[level.index as int].stack.slots.dom().contains(k as i16),
    ensures
        t.frames[level.index as int].stack.slots.dom().contains(k as i16),
        says_nothing(t.frames[level.index as int].stack.slots[k as i16]),
{
    let (lo, hi) = s.domain.distance(base, Reg::R10);
    law_blurred_runs_say_nothing(
        s.stack_at(level),
        lo + off,
        hi + off + width_of(size),
        k,
    );
    assert(t == stack_blurred(s, level, base, off, size).at(s.pc + 1)) by {
        reveal(store_step);
    }
}

/// A store that meets a dynamic pointer that holds a reference, an iterator or
/// an irq flag is reported, and the program does not go on.
pub proof fn law_kept_bytes_are_not_overwritten(
    cfg: EnvConfig,
    v: EnvView,
    s: Machine,
    size: MemSize,
    base: Reg,
    off: i16,
    src: Operand,
    level: FrameLevel,
    at: i64,
    i: int,
    b: int,
)
    requires
        s.ty(base) == (RegType::PtrToStack { frame_level: level }),
        level.index < s.frames.len(),
        s.domain.fixed_distance(base, Reg::R10) == Some(at),
        -0x2000 <= at + off <= 0x2000,
        at + off <= b < at + off + width_of(size),
        ({
            let k = s.frames[level.index as int].stack;
            0 <= i < k.dynptrs.len() && k.dynptrs[i].first && k.dynptrs[i].ref_id is Some
                && k.dynptrs[i].off <= b < k.dynptrs[i].off + 16
        }),
    ensures
        store_step(cfg, v, s, size, base, off, src).1 is None,
{
    reveal(store_step);
    law_overlaps_share_a_byte(
        s.frames[level.index as int].stack,
        (at + off) as i64,
        width_of(size) as i64,
        i,
        b,
    );
}

} // verus!
