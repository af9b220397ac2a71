//! Loads, stores and atomic instructions.
use crate::ast::{AtomicOp, MapLoadKind, MemSize, Operand, PacketLoadMode};
use crate::common::constants;
use crate::domains::numeric::Numeric;
use crate::machine::env::{EnvConfig, EnvView, VerifierEnv};
use crate::machine::error::VerificationError;
use crate::machine::find::first_where;
use crate::machine::layout::{at_pc, find_reloc, BpfMapDef, KptrFieldKind, RelocInfo, RelocKind};
use crate::machine::reg::{Reg, DBM_DIM};
use crate::machine::reg_types::{clobbered, FrameLevel, PtrFlags, RegType};
use crate::machine::stack_state::{touched, Slot, StackState, StackView};
use crate::machine::state::{Machine, Notes, State};
use crate::machine::tnum::Tnum;
use crate::num::{divides, wadd};
use crate::text::{starts_with, text_eq};
use crate::transfer::access::{check_load, check_store, load_checked, store_checked};
use crate::transfer::common::{
    check_operand_readable, check_reg_readable, check_reg_writable, one, operand_readable,
    readable, unreadable, unwritable, yields,
};
use crate::transfer::map_access::{const_map_off, kptr_field_at, kptr_hit, resolve_const_map_off};
use crate::transfer::types::{
    load_typed, map_pointer, stored, update_load_types, update_map_load_types,
    update_packet_load_types, update_store_types,
};
use vstd::prelude::*;

verus! {

/// The number that `n` bytes hold, lowest byte first.
pub open spec fn le_value(data: Seq<u8>, start: int, n: int) -> int
    decreases n,
{
    if n <= 0 {
        0
    } else {
        data[start] + 256 * le_value(data, start + 1, n - 1)
    }
}

/// The largest number that `n` bytes hold.
pub open spec fn byte_limit(n: int) -> int
    decreases n,
{
    if n <= 0 { 1 } else { 256 * byte_limit(n - 1) }
}

proof fn lemma_le_value_bound(data: Seq<u8>, start: int, n: int)
    ensures
        0 <= le_value(data, start, n) < byte_limit(n),
    decreases n,
{
    if n > 0 {
        lemma_le_value_bound(data, start + 1, n - 1);
    }
}

fn read_le(data: &Vec<u8>, start: usize, n: usize) -> (r: u64)
    requires
        n <= 8,
        start + n <= data@.len(),
    ensures
        r == le_value(data@, start as int, n as int),
{
    let len: usize = data.len();
    let mut val: u64 = 0;
    let mut i: usize = n;
    while i > 0
        invariant
            i <= n <= 8,
            start + n <= len == data@.len(),
            val == le_value(data@, start + i, n - i),
        decreases i,
    {
        proof {
            lemma_le_value_bound(data@, start + i - 1, n - i + 1);
            reveal_with_fuel(byte_limit, 9);
        }
        val = data[start + i - 1] as u64 + 256 * val;
        i = i - 1;
    }
    val
}

/// What a load reads from a map whose contents are fixed, if it does.
pub open spec fn rodata_value(cfg: EnvConfig, s: Machine, base: Reg, off: i16, size: MemSize) -> Option<
    u64,
> {
    match s.ty(base) {
        RegType::PtrToMapValue { map_idx, offset: Some(at), .. } => if map_idx
            < cfg.ctx.map_defs@.len() {
            let d = cfg.ctx.map_defs@[map_idx as int];
            let start = wadd(at, off as i64);
            if d.map_flags & constants::BPF_F_RDONLY_PROG != 0 && start >= 0 {
                match d.initial_data {
                    Some(data) => if start + size.bytes() <= data@.len() {
                        Some(le_value(data@, start as int, size.bytes() as int) as u64)
                    } else {
                        None
                    },
                    None => None,
                }
            } else {
                None
            }
        } else {
            None
        },
        _ => None,
    }
}

fn find_rodata_value(cfg: &EnvConfig, state: &State, base: Reg, off: i16, size: MemSize) -> (r: Option<
    u64,
>)
    requires
        state.wf(),
    ensures
        r == rodata_value(*cfg, state@, base, off, size),
{
    if let RegType::PtrToMapValue { map_idx, offset: Some(at), .. } = state.types.get(base) {
        if map_idx < cfg.ctx.map_defs.len() {
            let d: &BpfMapDef = &cfg.ctx.map_defs[map_idx];
            if d.map_flags & constants::BPF_F_RDONLY_PROG == 0 {
                return None;
            }
            let start: i64 = wadd(at, off as i64);
            if let Some(data) = &d.initial_data {
                let n: usize = size.bytes();
                if start >= 0 && start as u128 + n as u128 <= data.len() as u128 {
                    return Some(read_le(data, start as usize, n));
                }
            }
        }
    }
    None
}

/// The state after a register took a constant.
pub open spec fn constant_loaded(s: Machine, dst: Reg, val: u64) -> Machine {
    s.with_domain(s.domain.forget(dst).assume_eq_imm(dst, val as i64)).set_type(
        dst,
        RegType::ScalarValue,
    ).set_tnum(dst, Tnum::constant(val))
}

/// Loads from a map whose contents are fixed. Returns whether it could.
pub fn try_load_from_rodata(
    env: &VerifierEnv,
    state: &mut State,
    dst: Reg,
    base: Reg,
    insn_off: i16,
    size: MemSize,
) -> (r: bool)
    requires
        old(state).wf(),
        !dst.is_anchor(),
    ensures
        final(state).wf(),
        r == (rodata_value(env.cfg, old(state)@, base, insn_off, size) is Some),
        final(state)@ == match rodata_value(env.cfg, old(state)@, base, insn_off, size) {
            Some(val) => constant_loaded(old(state)@, dst, val),
            None => old(state)@,
        },
{
    match find_rodata_value(&env.cfg, state, base, insn_off, size) {
        Some(val) => {
            state.domain.forget(dst);
            state.domain.assume_eq_imm(dst, val as i64);
            state.set_type(dst, RegType::ScalarValue);
            state.set_tnum(dst, Tnum::constant(val));
            true
        },
        None => false,
    }
}

/// The state with what a load makes stale dropped.
pub open spec fn load_noted(s: Machine, dst: Reg) -> Machine {
    s.set_note(
        dst,
        Notes { btf_field: false, tnum_imprecise: false, symbolic: None, ..s.note(dst) },
    )
}

/// The stack slot that a load reads, if its offset is known.
pub open spec fn loaded_slot(s: Machine, base: Reg, off: i16) -> Option<(FrameLevel, i16)> {
    match (s.ty(base), s.domain.fixed_distance(base, Reg::R10)) {
        (RegType::PtrToStack { frame_level }, Some(at)) => Some(
            (frame_level, (off + (at as i16)) as i16),
        ),
        _ => None,
    }
}

/// The state and the report after a spilled value was read back.
pub open spec fn fill_step(
    cfg: EnvConfig,
    v: EnvView,
    s: Machine,
    dst: Reg,
    level: FrameLevel,
    at: i16,
) -> (EnvView, Machine) {
    let f = s.filled(level, dst, at);
    let f = f.set_note(dst, Notes { ptr_const_off: None, contributor: None, ..f.note(dst) });
    (
        match cfg.current_step_idx {
            Some(i) => if s.stack_at(level).slots[at].source_reg is Some && !cfg.replay_mode {
                v.stack_step(i)
            } else {
                v
            },
            None => v,
        },
        f,
    )
}

/// The domain after a load of a size: the value fits the size, and a packet
/// pointer stands at its anchor.
pub open spec fn load_bounded(d: Numeric, dst: Reg, size: MemSize) -> Numeric {
    let d = d.forget(dst);
    if size is U64 {
        d
    } else {
        d.assume_ge_imm(dst, 0).assume_le_imm(dst, size.unbounded_scalar_bounds().1)
    }
}

pub open spec fn anchored(s: Machine, dst: Reg) -> Machine {
    match s.anchor(dst) {
        Some(a) => s.with_domain(s.domain.bind(dst, a)),
        None => s,
    }
}

fn bind_loaded_pointer(state: &mut State, dst: Reg)
    requires
        old(state).wf(),
        !dst.is_anchor(),
    ensures
        final(state).wf(),
        final(state)@ == anchored(old(state)@, dst),
{
    match state.types.get(dst) {
        RegType::PtrToPacket => state.domain.bind_to_anchor(dst, Reg::AnchorData),
        RegType::PtrToPacketMeta => state.domain.bind_to_anchor(dst, Reg::AnchorDataMeta),
        RegType::PtrToPacketEnd => state.domain.bind_to_anchor(dst, Reg::AnchorDataEnd),
        _ => {},
    }
}

fn bound_loaded_value(state: &mut State, dst: Reg, size: MemSize)
    requires
        old(state).wf(),
        !dst.is_anchor(),
    ensures
        final(state).wf(),
        final(state)@ == old(state)@.with_domain(load_bounded(old(state)@.domain, dst, size)),
{
    state.domain.forget(dst);
    if size != MemSize::U64 {
        let (_, hi) = size.unbounded_scalar_bounds();
        state.domain.assume_ge_imm(dst, 0);
        state.domain.assume_le_imm(dst, hi);
    }
}

/// The state and the report after a load whose value is not known from a map
/// or a spill.
pub open spec fn fresh_load(
    cfg: EnvConfig,
    v: EnvView,
    s: Machine,
    size: MemSize,
    dst: Reg,
    base: Reg,
    off: i16,
) -> (EnvView, Machine) {
    let (v, s, bounded) = load_typed(cfg, v, s, size.bytes(), dst, base, off);
    let s = if bounded { s } else { s.with_domain(load_bounded(s.domain, dst, size)) };
    (v, anchored(s, dst).set_tnum(dst, Tnum::unknown()))
}

fn load_fresh(
    env: &mut VerifierEnv,
    state: &mut State,
    size: MemSize,
    dst: Reg,
    base: Reg,
    off: i16,
)
    requires
        old(state).wf(),
        !dst.is_anchor(),
    ensures
        final(state).wf(),
        final(env).cfg == old(env).cfg,
        (final(env)@, final(state)@) == fresh_load(
            old(env).cfg,
            old(env)@,
            old(state)@,
            size,
            dst,
            base,
            off,
        ),
{
    let bounded: bool = update_load_types(env, state, size.bytes(), dst, base, off);
    if !bounded {
        bound_loaded_value(state, dst, size);
    }
    bind_loaded_pointer(state, dst);
    state.set_tnum(dst, Tnum::unknown());
}

/// The state and the report after a load that was checked.
pub open spec fn checked_load(
    cfg: EnvConfig,
    v: EnvView,
    s: Machine,
    size: MemSize,
    dst: Reg,
    base: Reg,
    off: i16,
) -> (EnvView, Machine) {
    match rodata_value(cfg, s, base, off, size) {
        Some(val) => (v, constant_loaded(s, dst, val)),
        None => match loaded_slot(s, base, off) {
            Some((level, at)) => if s.can_fill(level, at, size) {
                fill_step(cfg, v, s, dst, level, at)
            } else {
                fresh_load(cfg, v, s, size, dst, base, off)
            },
            None => fresh_load(cfg, v, s, size, dst, base, off),
        },
    }
}

fn find_loaded_slot(state: &State, base: Reg, off: i16) -> (r: Option<(FrameLevel, i16)>)
    requires
        state.wf(),
    ensures
        r == loaded_slot(state@, base, off),
{
    if let RegType::PtrToStack { frame_level } = state.types.get(base) {
        if let Some(at) = state.domain.get_distance_fixed(base, Reg::R10) {
            return Some((frame_level, (off as i32 + (at as i16) as i32) as i16));
        }
    }
    None
}

fn load_checked_value(
    env: &mut VerifierEnv,
    state: &mut State,
    size: MemSize,
    dst: Reg,
    base: Reg,
    off: i16,
)
    requires
        old(state).wf(),
        old(state)@.has_frame(base),
        !dst.is_anchor(),
    ensures
        final(state).wf(),
        final(env).cfg == old(env).cfg,
        (final(env)@, final(state)@) == checked_load(
            old(env).cfg,
            old(env)@,
            old(state)@,
            size,
            dst,
            base,
            off,
        ),
{
    if try_load_from_rodata(env, state, dst, base, off, size) {
        return;
    }
    if let Some((level, at)) = find_loaded_slot(state, base, off) {
        let spilled: bool = match state.stack_at(level).get_slot(at) {
            Some(s) => s.source_reg.is_some(),
            None => false,
        };
        if state.fill_at(level, dst, at, size) {
            let mut n: Notes = state.notes[dst.idx()];
            n.ptr_const_off = None;
            n.contributor = None;
            state.set_note(dst, n);
            if let Some(i) = env.cfg.current_step_idx {
                if spilled && !env.cfg.replay_mode {
                    env.set_stack_access(i);
                }
            }
            return;
        }
    }
    load_fresh(env, state, size, dst, base, off);
}

/// The effect of a load: the state it leads to, if any, and what it reports.
#[verifier::opaque]
pub open spec fn load_step(
    cfg: EnvConfig,
    v: EnvView,
    s: Machine,
    size: MemSize,
    dst: Reg,
    base: Reg,
    off: i16,
) -> (EnvView, Option<Machine>) {
    if !readable(s, base) {
        (v.fail(unreadable(s, base)), None)
    } else if dst == Reg::R10 {
        (v.fail(unwritable(s, dst)), None)
    } else {
        let s = load_noted(s, dst);
        let v = load_checked(cfg, v, s, base, size.bytes() as i64, off);
        if v.path_unreachable {
            (EnvView { path_unreachable: false, ..v }, None)
        } else {
            let (v, t) = checked_load(cfg, v, s, size, dst, base, off);
            (v, Some(t.at(s.pc + 1)))
        }
    }
}

/// Loads from memory.
pub fn transfer_load(
    env: &mut VerifierEnv,
    state: State,
    size: MemSize,
    dst: Reg,
    base: Reg,
    off: i16,
) -> (r: Vec<State>)
    requires
        state.wf(),
        state@.has_frame(base),
        !dst.is_anchor(),
        state@.pc < usize::MAX,
    ensures
        final(env).cfg == old(env).cfg,
        final(env)@ == load_step(old(env).cfg, old(env)@, state@, size, dst, base, off).0,
        yields(r@, load_step(old(env).cfg, old(env)@, state@, size, dst, base, off).1),
{
    proof {
        reveal(load_step);
    }
    let mut state: State = state;
    if !check_reg_readable(env, &state, base) || !check_reg_writable(env, &state, dst) {
        return Vec::new();
    }
    let mut n: Notes = state.notes[dst.idx()];
    n.btf_field = false;
    n.tnum_imprecise = false;
    n.symbolic = None;
    state.set_note(dst, n);
    check_load(env, &state, base, size.bytes() as i64, off);
    if env.path_unreachable {
        env.path_unreachable = false;
        return Vec::new();
    }
    let pc: usize = state.pc;
    load_checked_value(env, &mut state, size, dst, base, off);
    state.go(pc + 1);
    one(state)
}

/// The range of a sign-extended value.
pub open spec fn spec_signed_bounds(size: MemSize) -> (i64, i64) {
    match size {
        MemSize::U8 => ((-0x80) as i64, 0x7F),
        MemSize::U16 => ((-0x8000) as i64, 0x7FFF),
        MemSize::U32 => ((-0x8000_0000) as i64, 0x7FFF_FFFF),
        MemSize::U64 => (i64::MIN, i64::MAX),
    }
}

/// The range of a sign-extended value.
#[verifier::when_used_as_spec(spec_signed_bounds)]
pub fn signed_bounds(size: MemSize) -> (r: (i64, i64))
    ensures
        r == spec_signed_bounds(size),
{
    match size {
        MemSize::U8 => (-0x80, 0x7F),
        MemSize::U16 => (-0x8000, 0x7FFF),
        MemSize::U32 => (-0x8000_0000, 0x7FFF_FFFF),
        MemSize::U64 => (i64::MIN, i64::MAX),
    }
}

/// The state after a sign-extended number was loaded.
pub open spec fn sign_extended(s: Machine, dst: Reg, size: MemSize) -> Machine {
    let (lo, hi) = signed_bounds(size);
    s.set_type(dst, RegType::ScalarValue).with_domain(
        s.domain.forget(dst).assume_ge_imm(dst, lo).assume_le_imm(dst, hi),
    ).set_tnum(dst, Tnum::unknown())
}

/// The effect of a sign-extending load; pointers cannot be loaded so.
#[verifier::opaque]
pub open spec fn load_sx_step(
    cfg: EnvConfig,
    v: EnvView,
    s: Machine,
    size: MemSize,
    dst: Reg,
    base: Reg,
    off: i16,
) -> (EnvView, Option<Machine>) {
    let (v, t) = load_step(cfg, v, s, size, dst, base, off);
    match t {
        Some(t) => if t.ty(dst).is_pointer() {
            (
                v.fail(
                    VerificationError::UnsupportedModernFeature {
                        pc: s.pc,
                        feature: "LDSX of a pointer-typed field",
                    },
                ),
                None,
            )
        } else {
            (v, Some(sign_extended(t, dst, size)))
        },
        None => (v, None),
    }
}

fn sign_extend(state: &mut State, dst: Reg, size: MemSize)
    requires
        old(state).wf(),
        !dst.is_anchor(),
    ensures
        final(state).wf(),
        final(state)@ == sign_extended(old(state)@, dst, size),
{
    let (lo, hi) = signed_bounds(size);
    state.set_type(dst, RegType::ScalarValue);
    state.domain.forget(dst);
    state.domain.assume_ge_imm(dst, lo);
    state.domain.assume_le_imm(dst, hi);
    state.set_tnum(dst, Tnum::unknown());
}

/// Loads from memory and extends the sign.
pub fn transfer_load_sx(
    env: &mut VerifierEnv,
    state: State,
    size: MemSize,
    dst: Reg,
    base: Reg,
    off: i16,
) -> (r: Vec<State>)
    requires
        state.wf(),
        state@.has_frame(base),
        !dst.is_anchor(),
        state@.pc < usize::MAX,
    ensures
        final(env).cfg == old(env).cfg,
        final(env)@ == load_sx_step(old(env).cfg, old(env)@, state@, size, dst, base, off).0,
        yields(r@, load_sx_step(old(env).cfg, old(env)@, state@, size, dst, base, off).1),
{
    proof {
        reveal(load_sx_step);
    }
    let pc: usize = state.pc;
    let mut results: Vec<State> = transfer_load(env, state, size, dst, base, off);
    match results.pop() {
        Some(s) => {
            let mut s: State = s;
            if s.types.get(dst).is_pointer() {
                env.fail(
                    VerificationError::UnsupportedModernFeature {
                        pc,
                        feature: "LDSX of a pointer-typed field",
                    },
                );
                return Vec::new();
            }
            sign_extend(&mut s, dst, size);
            one(s)
        },
        None => Vec::new(),
    }
}

/// Types of values that may be stored where a kernel pointer is kept without a
/// reference.
pub open spec fn spec_storable_kptr(t: RegType) -> bool {
    match t {
        RegType::PtrToBtfId { .. } => true,
        RegType::PtrToTask { .. } => true,
        RegType::PtrToCgroup { .. } => true,
        RegType::PtrToCpumask { .. } => true,
        RegType::PtrToMapKptr { offset, .. } => offset == 0,
        RegType::PtrToMapKptrOrNull { offset, .. } => offset == 0,
        RegType::PtrToOwnedKptr { offset, .. } => offset == 0,
        RegType::PtrToOwnedKptrOrNull { offset, .. } => offset == 0,
        _ => false,
    }
}

/// Whether a value may be stored where a kernel pointer is kept without a
/// reference.
#[verifier::when_used_as_spec(spec_storable_kptr)]
pub fn storable_kptr(t: RegType) -> (r: bool)
    ensures
        r == spec_storable_kptr(t),
{
    match t {
        RegType::PtrToBtfId { .. } => true,
        RegType::PtrToTask { .. } => true,
        RegType::PtrToCgroup { .. } => true,
        RegType::PtrToCpumask { .. } => true,
        RegType::PtrToMapKptr { offset, .. } => offset == 0,
        RegType::PtrToMapKptrOrNull { offset, .. } => offset == 0,
        RegType::PtrToOwnedKptr { offset, .. } => offset == 0,
        RegType::PtrToOwnedKptrOrNull { offset, .. } => offset == 0,
        _ => false,
    }
}

/// The type of an operand.
pub open spec fn operand_type(s: Machine, src: Operand) -> RegType {
    match src {
        Operand::Reg(r) => s.ty(r),
        Operand::Imm(_) => RegType::ScalarValue,
    }
}

/// An operand is known to be zero.
pub open spec fn operand_is_zero(s: Machine, src: Operand) -> bool {
    match src {
        Operand::Imm(k) => k == 0,
        Operand::Reg(r) => s.ty(r) is ScalarValue && s.domain.range(r) == (0i64, 0i64),
    }
}

/// A store writes a value to where a kernel pointer is kept without a reference
/// that is neither zero nor such a pointer.
pub open spec fn bad_kptr_store(
    cfg: EnvConfig,
    s: Machine,
    size: MemSize,
    base: Reg,
    off: i16,
    src: Operand,
) -> bool {
    match s.ty(base) {
        RegType::PtrToMapValue { offset, map_idx, .. } => map_idx < cfg.ctx.map_defs@.len() && (
        const_map_off(s, base, offset, off) matches Some(at) && kptr_hit(
            cfg.ctx.map_defs@[map_idx as int],
            at,
            size.bytes() as i64,
        ) matches Some(f) && f.kind is Unref && !operand_is_zero(s, src) && !storable_kptr(
            operand_type(s, src),
        )),
        _ => false,
    }
}

fn is_bad_kptr_store(
    cfg: &EnvConfig,
    state: &State,
    size: MemSize,
    base: Reg,
    off: i16,
    src: Operand,
) -> (r: bool)
    requires
        state.wf(),
    ensures
        r == bad_kptr_store(*cfg, state@, size, base, off, src),
{
    if let RegType::PtrToMapValue { offset, map_idx, .. } = state.types.get(base) {
        if map_idx < cfg.ctx.map_defs.len() {
            if let Some(at) = resolve_const_map_off(state, base, offset, off) {
                if let Some(f) = kptr_field_at(
                    &cfg.ctx.map_defs[map_idx],
                    at,
                    size.bytes() as i64,
                ) {
                    if f.kind == KptrFieldKind::Unref {
                        let zero: bool = match src {
                            Operand::Imm(k) => k == 0,
                            Operand::Reg(r) => matches!(
                                state.types.get(r),
                                RegType::ScalarValue
                            ) && state.domain.proven_zero(r),
                        };
                        let t: RegType = match src {
                            Operand::Reg(r) => state.types.get(r),
                            Operand::Imm(_) => RegType::ScalarValue,
                        };
                        return !zero && !storable_kptr(t);
                    }
                }
            }
        }
    }
    false
}

/// The stack without the words of each of some dynamic pointers.
pub open spec fn pairs_cleared(s: StackView, pairs: Seq<(i16, u32)>) -> StackView
    decreases pairs.len(),
{
    if pairs.len() == 0 {
        s
    } else {
        let off = pairs.last().0;
        pairs_cleared(s, pairs.drop_last()).without_dynptr(off).without_dynptr((off + 8) as i16)
    }
}

/// The identities of some dynamic pointers.
pub open spec fn pair_ids(pairs: Seq<(i16, u32)>) -> Seq<u32> {
    Seq::new(pairs.len(), |i: int| pairs[i].1)
}

/// The state after a write overwrote the dynamic pointers it meets.
pub open spec fn dynptrs_overwritten(s: Machine, level: FrameLevel, off: i64, size: i64) -> Machine {
    let pairs = touched(s.stack_at(level).dynptrs, off, size);
    s.with_stack(level, pairs_cleared(s.stack_at(level), pairs)).drop_slices(pair_ids(pairs))
}

fn overwrite_dynptrs(state: &mut State, level: FrameLevel, off: i64, size: i64)
    requires
        old(state).wf(),
        level.index < old(state)@.frames.len(),
    ensures
        final(state).wf(),
        final(state)@ == dynptrs_overwritten(old(state)@, level, off, size),
        final(state)@.frames.len() == old(state)@.frames.len(),
{
    let pairs: Vec<(i16, u32)> = state.stack_at(level).dynptr_pairs_touched_by_write(off, size);
    let mut stack: StackState = state.take_stack(level);
    let ghost before = stack@;
    let mut ids: Vec<u32> = Vec::new();
    let mut i: usize = 0;
    while i < pairs.len()
        invariant
            i <= pairs@.len(),
            stack.wf(),
            stack@ == pairs_cleared(before, pairs@.take(i as int)),
            ids@ == pair_ids(pairs@.take(i as int)),
        decreases pairs@.len() - i,
    {
        let (at, id) = pairs[i];
        assert(pairs@.take(i + 1).drop_last() =~= pairs@.take(i as int));
        stack.stack_clear_dynptr(at);
        stack.stack_clear_dynptr((at as i32 + 8) as i16);
        ids.push(id);
        assert(ids@ =~= pair_ids(pairs@.take(i + 1)));
        i = i + 1;
    }
    assert(pairs@.take(pairs@.len() as int) =~= pairs@);
    state.set_stack(level, stack);
    assert(state@ =~= old(state)@.with_stack(
        level,
        pairs_cleared(old(state)@.stack_at(level), pairs@),
    ));
    state.invalidate_all_slices(&ids);
}

/// The state after a store wrote its bytes at a known offset of a stack.
pub open spec fn stack_written(
    s: Machine,
    level: FrameLevel,
    full: i64,
    off: i16,
    size: MemSize,
    src: Operand,
    src_type: RegType,
) -> Machine {
    let rec = match src {
        Operand::Reg(r) => s.spill_record(r, size),
        Operand::Imm(k) => crate::machine::state::imm_record(k, size),
    };
    let s = s.with_stack(level, s.stack_at(level).put(full as i16, rec)).deepen(off);
    s.with_stack(level, stored(s.stack_at(level), src_type, size, Some(full)))
}

fn write_stack(
    state: &mut State,
    level: FrameLevel,
    full: i64,
    off: i16,
    size: MemSize,
    src: Operand,
    src_type: RegType,
)
    requires
        old(state).wf(),
        level.index < old(state)@.frames.len(),
    ensures
        final(state).wf(),
        final(state)@ == stack_written(old(state)@, level, full, off, size, src, src_type),
{
    match src {
        Operand::Reg(r) => state.spill_at(level, r, full as i16, size),
        Operand::Imm(k) => state.store_imm_to_stack_at(level, k, full as i16, size),
    }
    state.update_frame_depth(off);
    let ghost before = state@;
    let mut stack: StackState = state.take_stack(level);
    update_store_types(&mut stack, src_type, size, Some(full));
    state.set_stack(level, stack);
    assert(state@ =~= before.with_stack(
        level,
        stored(before.stack_at(level), src_type, size, Some(full)),
    ));
}

/// The state after a store at an offset of a stack that is not known exactly:
/// nothing is known any more of the bytes it may have written.
pub open spec fn stack_blurred(
    s: Machine,
    level: FrameLevel,
    base: Reg,
    off: i16,
    size: MemSize,
) -> Machine {
    let (lo, hi) = s.domain.distance(base, Reg::R10);
    let s = if lo != i64::MIN && hi != i64::MAX {
        s.with_stack(
            level,
            s.stack_at(level).blur_run(
                wadd(lo, off as i64) as int,
                wadd(wadd(hi, off as i64), size.bytes() as i64) as int,
            ),
        )
    } else {
        s
    };
    s.deepen(off)
}

fn blur_stack(state: &mut State, level: FrameLevel, base: Reg, off: i16, size: MemSize)
    requires
        old(state).wf(),
        level.index < old(state)@.frames.len(),
    ensures
        final(state).wf(),
        final(state)@ == stack_blurred(old(state)@, level, base, off, size),
{
    let (lo, hi) = state.domain.get_distance_interval(base, Reg::R10);
    if lo != i64::MIN && hi != i64::MAX {
        let from: i64 = wadd(lo, off as i64);
        let to: i64 = wadd(wadd(hi, off as i64), size.bytes() as i64);
        let mut stack: StackState = state.take_stack(level);
        let ghost before = stack@;
        let mut at: i64 = from;
        while at < to
            invariant
                stack.wf(),
                from <= at,
                at <= to || at == from,
                stack@ == before.blur_run(from as int, at as int),
            decreases to - at,
        {
            stack.invalidate_slot(at as i16);
            at = at + 1;
        }
        state.set_stack(level, stack);
        assert(state@ =~= old(state)@.with_stack(
            level,
            old(state)@.stack_at(level).blur_run(from as int, to as int),
        ));
    }
    state.update_frame_depth(off);
}

/// The effect of a store to a stack at a known offset.
pub open spec fn stack_store_step(
    cfg: EnvConfig,
    v: EnvView,
    s: Machine,
    level: FrameLevel,
    full: i64,
    off: i16,
    size: MemSize,
    src: Operand,
    src_type: RegType,
) -> (EnvView, Option<Machine>) {
    let n = size.bytes() as i64;
    let pc = s.pc;
    if s.stack_at(level).overlaps_referenced_dynptr(full, n) {
        (v.fail(VerificationError::DynptrOverwrite { pc, off: full }), None)
    } else {
        let s = dynptrs_overwritten(s, level, full, n);
        if s.stack_at(level).overlaps_iterator(full, n) {
            (v.fail(VerificationError::IteratorOverwrite { pc, off: full }), None)
        } else if s.stack_at(level).overlaps_irq_flag(full, n) {
            (v.fail(VerificationError::IrqFlagOverwrite { pc, off: full }), None)
        } else {
            let spilled = src is Reg && size is U64;
            (
                match cfg.current_step_idx {
                    Some(i) => if spilled {
                        v.stack_step(i)
                    } else {
                        v
                    },
                    None => v,
                },
                Some(stack_written(s, level, full, off, size, src, src_type)),
            )
        }
    }
}

fn store_to_stack(
    env: &mut VerifierEnv,
    state: State,
    level: FrameLevel,
    full: i64,
    off: i16,
    size: MemSize,
    src: Operand,
    src_type: RegType,
) -> (r: Option<State>)
    requires
        state.wf(),
        level.index < state@.frames.len(),
    ensures
        final(env).cfg == old(env).cfg,
        final(env)@ == stack_store_step(
            old(env).cfg,
            old(env)@,
            state@,
            level,
            full,
            off,
            size,
            src,
            src_type,
        ).0,
        match r {
            Some(t) => t.wf() && stack_store_step(
                old(env).cfg,
                old(env)@,
                state@,
                level,
                full,
                off,
                size,
                src,
                src_type,
            ).1 == Some(t@),
            None => stack_store_step(
                old(env).cfg,
                old(env)@,
                state@,
                level,
                full,
                off,
                size,
                src,
                src_type,
            ).1 is None,
        },
{
    let mut state: State = state;
    let n: i64 = size.bytes() as i64;
    let pc: usize = state.pc;
    if state.stack_at(level).write_overlaps_referenced_dynptr(full, n) {
        env.fail(VerificationError::DynptrOverwrite { pc, off: full });
        return None;
    }
    overwrite_dynptrs(&mut state, level, full, n);
    if state.stack_at(level).access_overlaps_iterator(full, n) {
        env.fail(VerificationError::IteratorOverwrite { pc, off: full });
        return None;
    }
    if state.stack_at(level).access_overlaps_irq_flag(full, n) {
        env.fail(VerificationError::IrqFlagOverwrite { pc, off: full });
        return None;
    }
    if let Some(i) = env.cfg.current_step_idx {
        if matches!(src, Operand::Reg(_)) && size == MemSize::U64 {
            env.set_stack_access(i);
        }
    }
    write_stack(&mut state, level, full, off, size, src, src_type);
    Some(state)
}

/// The effect of a store that was checked.
pub open spec fn checked_store(
    cfg: EnvConfig,
    v: EnvView,
    s: Machine,
    size: MemSize,
    base: Reg,
    off: i16,
    src: Operand,
) -> (EnvView, Option<Machine>) {
    let src_type = operand_type(s, src);
    match s.ty(base) {
        RegType::PtrToStack { frame_level } => match s.domain.fixed_distance(base, Reg::R10) {
            Some(at) => stack_store_step(
                cfg,
                v,
                s,
                frame_level,
                wadd(at, off as i64),
                off,
                size,
                src,
                src_type,
            ),
            None => (v, Some(stack_blurred(s, frame_level, base, off, size))),
        },
        _ => (v, Some(s)),
    }
}

/// The effect of a store: the state it leads to, if any, and what it reports.
#[verifier::opaque]
pub open spec fn store_step(
    cfg: EnvConfig,
    v: EnvView,
    s: Machine,
    size: MemSize,
    base: Reg,
    off: i16,
    src: Operand,
) -> (EnvView, Option<Machine>) {
    if !readable(s, base) {
        (v.fail(unreadable(s, base)), None)
    } else if !operand_readable(s, src) {
        (v.fail(unreadable(s, src->Reg_0)), None)
    } else {
        let v = store_checked(
            cfg,
            v,
            s,
            base,
            size.bytes() as i64,
            off,
            operand_type(s, src),
        );
        if v.failures.len() == 0 && bad_kptr_store(cfg, s, size, base, off, src) {
            (
                v.fail(
                    VerificationError::InvalidArgType {
                        pc: s.pc,
                        reg: match src {
                            Operand::Reg(r) => r,
                            Operand::Imm(_) => Reg::R0,
                        },
                    },
                ),
                None,
            )
        } else {
            let (v, t) = checked_store(cfg, v, s, size, base, off, src);
            (
                v,
                match t {
                    Some(t) => Some(t.at(s.pc + 1)),
                    None => None,
                },
            )
        }
    }
}

/// Stores to memory.
pub fn transfer_store(
    env: &mut VerifierEnv,
    state: State,
    size: MemSize,
    base: Reg,
    off: i16,
    src: Operand,
) -> (r: Vec<State>)
    requires
        state.wf(),
        state@.has_frame(base),
        state@.pc < usize::MAX,
    ensures
        final(env).cfg == old(env).cfg,
        final(env)@ == store_step(old(env).cfg, old(env)@, state@, size, base, off, src).0,
        yields(r@, store_step(old(env).cfg, old(env)@, state@, size, base, off, src).1),
{
    proof {
        reveal(store_step);
    }
    if !check_reg_readable(env, &state, base) || !check_operand_readable(env, &state, src) {
        return Vec::new();
    }
    let pc: usize = state.pc;
    let src_type: RegType = match src {
        Operand::Reg(r) => state.types.get(r),
        Operand::Imm(_) => RegType::ScalarValue,
    };
    check_store(env, &state, base, size.bytes() as i64, off, src_type);
    if !env.failed() && is_bad_kptr_store(&env.cfg, &state, size, base, off, src) {
        let reg: Reg = match src {
            Operand::Reg(r) => r,
            Operand::Imm(_) => Reg::R0,
        };
        env.fail(VerificationError::InvalidArgType { pc, reg });
        return Vec::new();
    }
    let next: Option<State> = match state.types.get(base) {
        RegType::PtrToStack { frame_level } => match state.domain.get_distance_fixed(
            base,
            Reg::R10,
        ) {
            Some(at) => store_to_stack(
                env,
                state,
                frame_level,
                wadd(at, off as i64),
                off,
                size,
                src,
                src_type,
            ),
            None => {
                let mut state: State = state;
                blur_stack(&mut state, frame_level, base, off, size);
                Some(state)
            },
        },
        _ => Some(state),
    };
    match next {
        Some(s) => {
            let mut s: State = s;
            s.go(pc + 1);
            one(s)
        },
        None => Vec::new(),
    }
}

/// The register that an atomic instruction loads the old value into.
pub open spec fn spec_fetched_into(op: AtomicOp, fetch: bool, src: Reg) -> Option<Reg> {
    if op is CmpXchg {
        Some(Reg::R0)
    } else if fetch {
        Some(src)
    } else {
        None
    }
}

/// The register that an atomic instruction loads the old value into.
#[verifier::when_used_as_spec(spec_fetched_into)]
pub fn fetched_into(op: AtomicOp, fetch: bool, src: Reg) -> (r: Option<Reg>)
    ensures
        r == spec_fetched_into(op, fetch, src),
{
    if op == AtomicOp::CmpXchg {
        Some(Reg::R0)
    } else if fetch {
        Some(src)
    } else {
        None
    }
}

/// The first fault of an atomic instruction's operands.
pub open spec fn atomic_operand_fault(
    s: Machine,
    op: AtomicOp,
    fetch: bool,
    size: MemSize,
    base: Reg,
    off: i16,
    src: Reg,
) -> Option<VerificationError> {
    if off as int % size.bytes() as int != 0 {
        Some(VerificationError::MisalignedAccess { pc: s.pc, off: off as i64 })
    } else if !readable(s, base) {
        Some(unreadable(s, base))
    } else if !readable(s, src) {
        Some(unreadable(s, src))
    } else if op is CmpXchg && !readable(s, Reg::R0) {
        Some(unreadable(s, Reg::R0))
    } else if !(op is CmpXchg) && fetch && src == Reg::R10 {
        Some(unwritable(s, src))
    } else if s.ty(base) is PtrToCtx {
        Some(VerificationError::InvalidArgType { pc: s.pc, reg: base })
    } else {
        None
    }
}

fn find_atomic_operand_fault(
    state: &State,
    op: AtomicOp,
    fetch: bool,
    size: MemSize,
    base: Reg,
    off: i16,
    src: Reg,
) -> (r: Option<VerificationError>)
    requires
        state.wf(),
    ensures
        r == atomic_operand_fault(state@, op, fetch, size, base, off, src),
{
    let pc: usize = state.pc;
    if !divides(size.bytes() as i64, off as i64) {
        return Some(VerificationError::MisalignedAccess { pc, off: off as i64 });
    }
    if matches!(state.types.get(base), RegType::NotInit) {
        return Some(VerificationError::RegisterNotReadable { pc, reg: base });
    }
    if matches!(state.types.get(src), RegType::NotInit) {
        return Some(VerificationError::RegisterNotReadable { pc, reg: src });
    }
    if op == AtomicOp::CmpXchg && matches!(state.types.get(Reg::R0), RegType::NotInit) {
        return Some(VerificationError::RegisterNotReadable { pc, reg: Reg::R0 });
    }
    if op != AtomicOp::CmpXchg && fetch && src == Reg::R10 {
        return Some(VerificationError::RegisterNotWritable { pc, reg: src });
    }
    if matches!(state.types.get(base), RegType::PtrToCtx) {
        return Some(VerificationError::InvalidArgType { pc, reg: base });
    }
    None
}

/// The state after the old value was fetched from the current stack, or is not
/// known.
pub open spec fn fetched(s: Machine, into: Option<Reg>, off: i16, size: MemSize) -> Machine {
    match into {
        Some(r) => if s.can_fill(s.level(), off, size) {
            s.filled(s.level(), r, off)
        } else {
            s
        },
        None => s,
    }
}

/// The stack after an atomic instruction wrote to it.
pub open spec fn atomically_stored(
    s: StackView,
    size: MemSize,
    base: Reg,
    off: i16,
    at: Option<i64>,
) -> StackView {
    let s = stored(s, RegType::ScalarValue, size, at);
    if base == Reg::R10 { s.blur(off) } else { s }
}

/// The state after an atomic instruction that was checked.
pub open spec fn atomic_done(
    s: Machine,
    op: AtomicOp,
    fetch: bool,
    size: MemSize,
    base: Reg,
    off: i16,
    src: Reg,
) -> Machine {
    let into = fetched_into(op, fetch, src);
    let known = into is Some && s.can_fill(s.level(), off, size);
    let t = fetched(s, into, off, size);
    let at = if s.ty(base) is PtrToStack {
        match t.domain.fixed_distance(base, Reg::R10) {
            Some(d) => Some(wadd(d, off as i64)),
            None => None,
        }
    } else {
        None
    };
    let t = t.with_stack(
        t.level(),
        atomically_stored(t.current().stack, size, base, off, at),
    );
    let t = match into {
        Some(r) => if known {
            t
        } else {
            t.forget(r).set_tnum(r, Tnum::unknown())
        },
        None => t,
    };
    if base == Reg::R10 { t.deepen(off) } else { t }
}

fn store_atomically(state: &mut State, size: MemSize, base: Reg, off: i16, at: Option<i64>)
    requires
        old(state).wf(),
    ensures
        final(state).wf(),
        final(state)@ == old(state)@.with_stack(
            old(state)@.level(),
            atomically_stored(old(state)@.current().stack, size, base, off, at),
        ),
{
    let level: FrameLevel = state.current_frame_level();
    let mut stack: StackState = state.take_stack(level);
    update_store_types(&mut stack, RegType::ScalarValue, size, at);
    if base == Reg::R10 {
        stack.invalidate_slot(off);
    }
    state.set_stack(level, stack);
    assert(state@.frames =~= old(state)@.with_stack(
        level,
        atomically_stored(old(state)@.current().stack, size, base, off, at),
    ).frames);
}

#[verifier::rlimit(40)]
fn do_atomic(
    state: &mut State,
    op: AtomicOp,
    fetch: bool,
    size: MemSize,
    base: Reg,
    off: i16,
    src: Reg,
)
    requires
        old(state).wf(),
        !src.is_anchor(),
    ensures
        final(state).wf(),
        final(state)@ == atomic_done(old(state)@, op, fetch, size, base, off, src),
{
    let level: FrameLevel = state.current_frame_level();
    let base_is_stack: bool = matches!(state.types.get(base), RegType::PtrToStack { .. });
    let into: Option<Reg> = fetched_into(op, fetch, src);
    let known: bool = match into {
        Some(r) => state.fill_at(level, r, off, size),
        None => false,
    };
    let at: Option<i64> = if base_is_stack {
        match state.domain.get_distance_fixed(base, Reg::R10) {
            Some(d) => Some(wadd(d, off as i64)),
            None => None,
        }
    } else {
        None
    };
    store_atomically(state, size, base, off, at);
    if let Some(r) = into {
        if !known {
            state.forget(r);
            state.set_tnum(r, Tnum::unknown());
        }
    }
    if base == Reg::R10 {
        state.update_frame_depth(off);
    }
}

/// The effect of an atomic instruction.
#[verifier::opaque]
pub open spec fn atomic_step(
    cfg: EnvConfig,
    v: EnvView,
    s: Machine,
    op: AtomicOp,
    fetch: bool,
    size: MemSize,
    base: Reg,
    off: i16,
    src: Reg,
) -> (EnvView, Option<Machine>) {
    match atomic_operand_fault(s, op, fetch, size, base, off, src) {
        Some(e) => (v.fail(e), None),
        None => {
            let v = load_checked(cfg, v, s, base, size.bytes() as i64, off);
            if v.path_unreachable {
                (EnvView { path_unreachable: false, ..v }, None)
            } else {
                let v = store_checked(cfg, v, s, base, size.bytes() as i64, off, s.ty(src));
                if v.failures.len() > 0 {
                    (v, None)
                } else {
                    (v, Some(atomic_done(s, op, fetch, size, base, off, src).at(s.pc + 1)))
                }
            }
        },
    }
}

/// Reads, modifies and writes memory in one step.
pub fn transfer_atomic(
    env: &mut VerifierEnv,
    state: State,
    op: AtomicOp,
    fetch: bool,
    size: MemSize,
    base: Reg,
    off: i16,
    src: Reg,
) -> (r: Vec<State>)
    requires
        state.wf(),
        state@.has_frame(base),
        !src.is_anchor(),
        state@.pc < usize::MAX,
    ensures
        final(env).cfg == old(env).cfg,
        final(env)@ == atomic_step(
            old(env).cfg,
            old(env)@,
            state@,
            op,
            fetch,
            size,
            base,
            off,
            src,
        ).0,
        yields(
            r@,
            atomic_step(old(env).cfg, old(env)@, state@, op, fetch, size, base, off, src).1,
        ),
{
    proof {
        reveal(atomic_step);
    }
    let mut state: State = state;
    let pc: usize = state.pc;
    if let Some(e) = find_atomic_operand_fault(&state, op, fetch, size, base, off, src) {
        env.fail(e);
        return Vec::new();
    }
    check_load(env, &state, base, size.bytes() as i64, off);
    if env.path_unreachable {
        env.path_unreachable = false;
        return Vec::new();
    }
    let src_type: RegType = state.types.get(src);
    check_store(env, &state, base, size.bytes() as i64, off, src_type);
    if env.failed() {
        return Vec::new();
    }
    do_atomic(&mut state, op, fetch, size, base, off, src);
    state.go(pc + 1);
    one(state)
}

/// The domain after a packet load: argument registers are lost, R0 holds a
/// number of the size.
pub open spec fn packet_load_domain(d: Numeric, size: MemSize) -> Numeric {
    let d = d.forget(Reg::R1).forget(Reg::R2).forget(Reg::R3).forget(Reg::R4).forget(
        Reg::R5,
    ).forget(Reg::R0);
    if size is U64 {
        d
    } else {
        d.assume_range(Reg::R0, 0, size.unbounded_scalar_bounds().1)
    }
}

/// The known bits after a packet load.
pub open spec fn packet_load_tnums(t: Seq<Tnum>, size: MemSize) -> Seq<Tnum> {
    let u = Tnum::unknown();
    t.update(2, u).update(3, u).update(4, u).update(5, u).update(6, u).update(
        1,
        if size is U64 {
            u
        } else {
            Tnum::below(size.unbounded_scalar_bounds().1 as u64)
        },
    )
}

fn load_packet_value(state: &mut State, size: MemSize)
    requires
        old(state).wf(),
    ensures
        final(state).wf(),
        final(state)@ == (Machine {
            domain: packet_load_domain(old(state)@.domain, size),
            tnums: packet_load_tnums(old(state)@.tnums, size),
            ..old(state)@
        }),
{
    state.domain.forget(Reg::R1);
    state.domain.forget(Reg::R2);
    state.domain.forget(Reg::R3);
    state.domain.forget(Reg::R4);
    state.domain.forget(Reg::R5);
    state.domain.forget(Reg::R0);
    let mut bits: Tnum = Tnum::unknown();
    if size != MemSize::U64 {
        let (_, hi) = size.unbounded_scalar_bounds();
        state.domain.assume_range(Reg::R0, 0, hi);
        bits = Tnum::below(hi as u64);
    }
    state.set_tnum(Reg::R1, Tnum::unknown());
    state.set_tnum(Reg::R2, Tnum::unknown());
    state.set_tnum(Reg::R3, Tnum::unknown());
    state.set_tnum(Reg::R4, Tnum::unknown());
    state.set_tnum(Reg::R5, Tnum::unknown());
    state.set_tnum(Reg::R0, bits);
}

/// The effect of a load from the packet through the context in R6. Without a
/// context there the path ends.
#[verifier::opaque]
pub open spec fn packet_load_step(
    v: EnvView,
    s: Machine,
    size: MemSize,
    mode: PacketLoadMode,
    src: Option<Reg>,
) -> (EnvView, Option<Machine>) {
    if !(s.ty(Reg::R6) is PtrToCtx) {
        (v, None)
    } else if src is Some && !readable(s, src->Some_0) {
        (v.fail(unreadable(s, src->Some_0)), None)
    } else if s.lock_depth > 0 && mode is Abs {
        (v.fail(VerificationError::LoadAbsUnderLock { pc: s.pc }), None)
    } else {
        (
            v,
            Some(
                Machine {
                    types: clobbered(s.types, RegType::NotInit).update(1, RegType::ScalarValue),
                    domain: packet_load_domain(s.domain, size),
                    tnums: packet_load_tnums(s.tnums, size),
                    ..s
                }.at(s.pc + 1),
            ),
        )
    }
}

/// Loads from the packet. The load itself ends the program if it is out of
/// bounds, so what follows may rely on it.
pub fn transfer_packet_load(
    env: &mut VerifierEnv,
    state: State,
    size: MemSize,
    mode: PacketLoadMode,
    src: Option<Reg>,
) -> (r: Vec<State>)
    requires
        state.wf(),
        state@.pc < usize::MAX,
    ensures
        final(env).cfg == old(env).cfg,
        final(env)@ == packet_load_step(old(env)@, state@, size, mode, src).0,
        yields(r@, packet_load_step(old(env)@, state@, size, mode, src).1),
{
    proof {
        reveal(packet_load_step);
    }
    let mut state: State = state;
    if !matches!(state.types.get(Reg::R6), RegType::PtrToCtx) {
        return Vec::new();
    }
    if let Some(reg) = src {
        if !check_reg_readable(env, &state, reg) {
            return Vec::new();
        }
    }
    let pc: usize = state.pc;
    if state.lock_depth > 0 && mode == PacketLoadMode::Abs {
        env.fail(VerificationError::LoadAbsUnderLock { pc });
        return Vec::new();
    }
    update_packet_load_types(&mut state.types);
    load_packet_value(&mut state, size);
    state.go(pc + 1);
    one(state)
}

/// Maps that hold the program's own data, by the exact names of sections.
pub open spec fn is_static_section(name: Seq<char>) -> bool {
    name == ".bss"@ || name == ".data"@ || name == ".rodata"@ || ".bss."@.is_prefix_of(name)
        || ".data."@.is_prefix_of(name) || ".rodata."@.is_prefix_of(name)
}

/// Whether a map holds the program's own data.
pub open spec fn is_static_map(cfg: EnvConfig, map_idx: usize) -> bool {
    map_idx < cfg.ctx.map_defs@.len() && is_static_section(
        cfg.ctx.map_defs@[map_idx as int].name@,
    )
}

fn is_static_data(cfg: &EnvConfig, map_idx: usize) -> (r: bool)
    ensures
        r == is_static_map(*cfg, map_idx),
{
    if map_idx >= cfg.ctx.map_defs.len() {
        return false;
    }
    let n: &str = cfg.ctx.map_defs[map_idx].name.as_str();
    text_eq(n, ".bss") || text_eq(n, ".data") || text_eq(n, ".rodata") || starts_with(n, ".bss.")
        || starts_with(n, ".data.") || starts_with(n, ".rodata.")
}

/// The pointer to a kernel symbol.
pub open spec fn ksym_pointer(r: RelocInfo) -> RegType {
    RegType::PtrToBtfId {
        struct_name: match r.ksym_struct_name {
            Some(n) => n,
            None => "unknown",
        },
        flags: PtrFlags {
            trusted: true,
            rdonly: true,
            percpu: r.ksym_is_percpu,
            ..PtrFlags::empty()
        },
        ref_id: None,
    }
}

fn make_ksym_pointer(r: RelocInfo) -> (t: RegType)
    ensures
        t == ksym_pointer(r),
{
    let mut flags: PtrFlags = PtrFlags::empty();
    flags.trusted = true;
    flags.rdonly = true;
    flags.percpu = r.ksym_is_percpu;
    let struct_name: &'static str = match r.ksym_struct_name {
        Some(n) => n,
        None => "unknown",
    };
    RegType::PtrToBtfId { struct_name, flags, ref_id: None }
}

/// The effect of a wide load of a pseudo value.
#[verifier::opaque]
pub open spec fn map_load_step(
    cfg: EnvConfig,
    v: EnvView,
    s: Machine,
    dst: Reg,
    kind: MapLoadKind,
) -> (EnvView, Option<Machine>) {
    let pc = s.pc;
    let reloc = first_where(cfg.ctx.relocs@, at_pc(pc));
    let next = |t: RegType| Some(s.set_type(dst, t).forget(dst).at(pc + 2));
    match kind {
        MapLoadKind::PseudoMapIdx => (
            v.fail(
                VerificationError::UnsupportedModernFeature {
                    pc,
                    feature: "LD_IMM64 BPF_PSEUDO_MAP_IDX",
                },
            ),
            None,
        ),
        MapLoadKind::PseudoMapIdxValue => (
            v.fail(
                VerificationError::UnsupportedModernFeature {
                    pc,
                    feature: "LD_IMM64 BPF_PSEUDO_MAP_IDX_VALUE",
                },
            ),
            None,
        ),
        MapLoadKind::PseudoFunc { subprog_pc } => (
            v,
            next(RegType::PtrToCallback { subprog_pc }),
        ),
        MapLoadKind::PseudoBtfId { .. } => if reloc is Some && reloc->Some_0.kind is Ksym {
            (v, next(ksym_pointer(reloc->Some_0)))
        } else {
            (
                v.fail(
                    VerificationError::UnsupportedModernFeature {
                        pc,
                        feature: "LD_IMM64 BPF_PSEUDO_BTF_ID (ksym/percpu)",
                    },
                ),
                None,
            )
        },
        _ => match reloc {
            Some(r) => {
                let fixed = is_static_map(cfg, r.map_idx);
                (
                    if kind is MapValue && !fixed { v.took_id() } else { v },
                    next(map_pointer(kind, r.map_idx, r.offset, fixed, v.ids.next)),
                )
            },
            None => (v.fail(VerificationError::RelocationInfoMissing { pc }), None),
        },
    }
}

/// Loads a pseudo value that takes two instruction slots.
pub fn transfer_map_load(env: &mut VerifierEnv, state: State, dst: Reg, kind: MapLoadKind) -> (r: Vec<
    State,
>)
    requires
        state.wf(),
        !dst.is_anchor(),
        state@.pc + 2 <= usize::MAX,
    ensures
        final(env).cfg == old(env).cfg,
        final(env)@ == map_load_step(old(env).cfg, old(env)@, state@, dst, kind).0,
        yields(r@, map_load_step(old(env).cfg, old(env)@, state@, dst, kind).1),
{
    proof {
        reveal(map_load_step);
    }
    let mut state: State = state;
    let pc: usize = state.pc;
    let reloc: Option<RelocInfo> = find_reloc(&env.cfg.ctx.relocs, pc);
    match kind {
        MapLoadKind::PseudoMapIdx => {
            env.fail(
                VerificationError::UnsupportedModernFeature {
                    pc,
                    feature: "LD_IMM64 BPF_PSEUDO_MAP_IDX",
                },
            );
            return Vec::new();
        },
        MapLoadKind::PseudoMapIdxValue => {
            env.fail(
                VerificationError::UnsupportedModernFeature {
                    pc,
                    feature: "LD_IMM64 BPF_PSEUDO_MAP_IDX_VALUE",
                },
            );
            return Vec::new();
        },
        MapLoadKind::PseudoFunc { subprog_pc } => {
            state.set_type(dst, RegType::PtrToCallback { subprog_pc });
        },
        MapLoadKind::PseudoBtfId { .. } => match reloc {
            Some(r) if r.kind == RelocKind::Ksym => {
                state.set_type(dst, make_ksym_pointer(r));
            },
            _ => {
                env.fail(
                    VerificationError::UnsupportedModernFeature {
                        pc,
                        feature: "LD_IMM64 BPF_PSEUDO_BTF_ID (ksym/percpu)",
                    },
                );
                return Vec::new();
            },
        },
        _ => match reloc {
            Some(r) => {
                let fixed: bool = is_static_data(&env.cfg, r.map_idx);
                update_map_load_types(
                    env,
                    &mut state.types,
                    kind,
                    r.map_idx,
                    dst,
                    r.offset,
                    fixed,
                );
            },
            None => {
                env.fail(VerificationError::RelocationInfoMissing { pc });
                return Vec::new();
            },
        },
    }
    state.forget(dst);
    state.go(pc + 2);
    one(state)
}

proof fn lemma_slices_dropped(s: Machine, ids: Seq<u32>, base: Reg)
    requires
        s.types.len() == DBM_DIM,
        s.ty(base) is PtrToStack,
    ensures
        s.drop_slices(ids).types.len() == DBM_DIM,
        s.drop_slices(ids).ty(base) == s.ty(base),
        s.drop_slices(ids).frames.len() == s.frames.len(),
        s.drop_slices(ids).domain == s.domain,
        s.drop_slices(ids).tnums == s.tnums,
    decreases ids.len(),
{
    if ids.len() > 0 {
        lemma_slices_dropped(s, ids.drop_last(), base);
    }
}

proof fn lemma_run_leaves_others(s: StackView, off: i16, from: int, to: int, at: i16)
    requires
        i16::MIN <= off + from,
        off + to <= i16::MAX,
        at < off + from || at >= off + to,
    ensures
        s.retype_run(off, from, to).slot_at(at) == s.slot_at(at),
    decreases to - from,
{
    if from < to {
        lemma_run_leaves_others(s, off, from, to - 1, at);
    }
}

proof fn lemma_word_written(s: Machine, level: FrameLevel, full: i64, off: i16, r: Reg, src_type: RegType)
    requires
        level.index < s.frames.len(),
        constants::BPF_STACK_MIN <= full <= constants::BPF_STACK_MAX - 8,
    ensures
        ({
            let t = stack_written(s, level, full, off, MemSize::U64, Operand::Reg(r), src_type);
            &&& t.stack_at(level).slot_at(full as i16) == Some(
                (Slot { ty: src_type, ..s.spill_record(r, MemSize::U64) }),
            )
            &&& t.types == s.types
            &&& t.tnums == s.tnums
            &&& t.notes == s.notes
            &&& t.domain == s.domain
            &&& t.frames.len() == s.frames.len()
        }),
{
    let place = full as i16;
    let rec = s.spill_record(r, MemSize::U64);
    let c = s.with_stack(level, s.stack_at(level).put(place, rec)).deepen(off);
    assert(c.stack_at(level).slot_at(place) == Some(rec));
    lemma_run_leaves_others(c.stack_at(level).retype(place, src_type), place, 1, 8, place);
}

proof fn lemma_word_stored(
    cfg: EnvConfig,
    v: EnvView,
    s: Machine,
    r: Reg,
    base: Reg,
    at: i64,
    off: i16,
    t: Machine,
)
    requires
        s.types.len() == DBM_DIM,
        s.ty(base) is PtrToStack,
        s.has_frame(base),
        s.domain.fixed_distance(base, Reg::R10) == Some(at),
        constants::BPF_STACK_MIN <= at + off <= constants::BPF_STACK_MAX - 8,
        store_step(cfg, v, s, MemSize::U64, base, off, Operand::Reg(r)).1 == Some(t),
    ensures
        t.stack_at(s.ty(base)->frame_level).slot_at((at + off) as i16) matches Some(rec) && rec.ty
            == s.ty(r) && rec.size is U64 && rec.tnum == s.tnums[r.idx() as int] && (rec.lo, rec.hi)
            == s.domain.range(r) && rec.source_reg is Some,
        t.ty(base) == s.ty(base),
        t.types.len() == DBM_DIM,
        t.tnums == s.tnums,
        t.domain == s.domain,
{
    reveal(store_step);
    let level = s.ty(base)->frame_level;
    let full = wadd(at, off as i64);
    assert(full == at + off);
    let pairs = touched(s.stack_at(level).dynptrs, full, 8);
    let a = s.with_stack(level, pairs_cleared(s.stack_at(level), pairs));
    lemma_slices_dropped(a, pair_ids(pairs), base);
    let b = dynptrs_overwritten(s, level, full, 8);
    lemma_word_written(b, level, full, off, r, s.ty(r));
    assert(t == stack_written(b, level, full, off, MemSize::U64, Operand::Reg(r), s.ty(r)).at(
        s.pc + 1,
    ));
}

/// A register that is stored on the stack as a whole word and loaded back keeps
/// its type, its known bits and its range.
pub proof fn law_stored_registers_are_loaded_back(
    cfg: EnvConfig,
    v: EnvView,
    w: EnvView,
    s: Machine,
    r: Reg,
    dst: Reg,
    base: Reg,
    at: i64,
    off: i16,
)
    requires
        s.types.len() == DBM_DIM,
        s.tnums.len() == DBM_DIM,
        s.ty(base) is PtrToStack,
        s.has_frame(base),
        s.domain.fixed_distance(base, Reg::R10) == Some(at),
        i16::MIN <= at <= i16::MAX,
        constants::BPF_STACK_MIN <= at + off <= constants::BPF_STACK_MAX - 8,
    ensures
        store_step(cfg, v, s, MemSize::U64, base, off, Operand::Reg(r)).1 matches Some(t) ==> (
        load_step(cfg, w, t, MemSize::U64, dst, base, off).1 matches Some(u) ==> {
            &&& u.ty(dst) == s.ty(r)
            &&& u.tnums[dst.idx() as int] == s.tnums[r.idx() as int]
            &&& u.domain == s.domain.assign_interval(
                dst,
                s.domain.range(r).0,
                s.domain.range(r).1,
            )
        }),
{
    if let Some(t) = store_step(cfg, v, s, MemSize::U64, base, off, Operand::Reg(r)).1 {
        lemma_word_stored(cfg, v, s, r, base, at, off, t);
        let level = s.ty(base)->frame_level;
        let place = (at + off) as i16;
        let n = load_noted(t, dst);
        assert(n.stack_at(level) == t.stack_at(level));
        assert(n.ty(base) == s.ty(base));
        assert(rodata_value(cfg, n, base, off, MemSize::U64) is None);
        assert(loaded_slot(n, base, off) == Some((level, place)));
        assert(n.can_fill(level, place, MemSize::U64));
        reveal(load_step);
        if let Some(u) = load_step(cfg, w, t, MemSize::U64, dst, base, off).1 {
            let x = load_checked(cfg, w, n, base, 8, off);
            assert(u == fill_step(cfg, x, n, dst, level, place).1.at(n.pc + 1));
        }
    }
}

} // verus!
