//! Accesses to the values of maps.
use crate::common::constants;
use crate::machine::env::{EnvConfig, EnvView, RefinedAccess, VerifierEnv};
use crate::machine::error::VerificationError;
use crate::machine::find::{first_where, lemma_first_where_at, lemma_first_where_none};
use crate::machine::layout::{BpfMapDef, KptrField, KptrFieldKind, SpecialField};
use crate::machine::reg::Reg;
use crate::machine::state::{Machine, State};
use crate::num::sat_add;
use crate::transfer::stack::refined_or_failed;
use vstd::prelude::*;

verus! {

/// The offset of an access to a map value, if there is only one.
pub open spec fn const_map_off(s: Machine, base: Reg, map_off: Option<i64>, insn_off: i16) -> Option<
    i64,
> {
    match map_off {
        Some(off) => Some(sat_add(off, insn_off as i64)),
        None => match s.ptr_offset(base) {
            Some(p) => if p.off == p.max_offset() {
                Some(sat_add(p.off, insn_off as i64))
            } else {
                None
            },
            None => None,
        },
    }
}

/// The offset of an access to a map value, if there is only one.
pub fn resolve_const_map_off(
    state: &State,
    base: Reg,
    map_off_opt: Option<i64>,
    insn_off: i16,
) -> (r: Option<i64>)
    requires
        state.wf(),
    ensures
        r == const_map_off(state@, base, map_off_opt, insn_off),
{
    if let Some(off) = map_off_opt {
        return Some(sat_add(off, insn_off as i64));
    }
    match state.save_interval_ptr_offset(base) {
        Some(p) => if p.min_offset() == p.max_offset() {
            Some(sat_add(p.min_offset(), insn_off as i64))
        } else {
            None
        },
        None => None,
    }
}

pub open spec fn kptr_offset_is(off: i64) -> spec_fn(KptrField) -> bool {
    |f: KptrField| f.offset == off
}

/// The kernel pointer that an access reads or writes whole.
pub open spec fn kptr_hit(d: BpfMapDef, off: i64, size: i64) -> Option<KptrField> {
    if size != 8 {
        None
    } else {
        first_where(d.kptr_fields@, kptr_offset_is(off))
    }
}

/// The kernel pointer that an access reads or writes whole.
pub fn kptr_field_at(map_def: &BpfMapDef, off: i64, size: i64) -> (r: Option<KptrField>)
    ensures
        r == kptr_hit(*map_def, off, size),
{
    if size != 8 {
        return None;
    }
    let fields: &Vec<KptrField> = &map_def.kptr_fields;
    let mut i: usize = 0;
    while i < fields.len()
        invariant
            i <= fields@.len(),
            size == 8,
            fields@ == map_def.kptr_fields@,
            forall|k: int| 0 <= k < i ==> !kptr_offset_is(off)(#[trigger] fields@[k]),
        decreases fields@.len() - i,
    {
        if fields[i].offset as i64 == off {
            proof {
                lemma_first_where_at(fields@, kptr_offset_is(off), i as int);
            }
            return Some(fields[i]);
        }
        i = i + 1;
    }
    proof {
        lemma_first_where_none(fields@, kptr_offset_is(off));
    }
    None
}

/// How an access meets the kernel pointers of a map value.
#[derive(Debug, Clone, Copy, PartialEq, Eq, Structural)]
pub enum KptrAccessOutcome {
    /// It meets none.
    Clear,
    /// It reads or writes one whole.
    Hit(KptrField),
    /// It starts with one but is not eight bytes wide.
    BadSize { field_off: u32, size: i64 },
    /// It meets one without starting at it.
    Misaligned { off: i64, expected: u8 },
}

/// Whether the bytes from `lo` up to `hi` meet a kernel pointer.
pub open spec fn meets_kptr(lo: int, hi: int) -> spec_fn(KptrField) -> bool {
    |f: KptrField| lo < f.offset + 8 && f.offset < hi
}

/// How an access at a known offset meets the kernel pointers of a map value;
/// the first one it meets counts.
pub open spec fn kptr_outcome(d: BpfMapDef, off: i64, size: i64) -> KptrAccessOutcome {
    match first_where(d.kptr_fields@, meets_kptr(off as int, off + size)) {
        Some(f) => if off == f.offset {
            if size == 8 {
                KptrAccessOutcome::Hit(f)
            } else {
                KptrAccessOutcome::BadSize { field_off: f.offset, size }
            }
        } else {
            KptrAccessOutcome::Misaligned { off, expected: 8 }
        },
        None => KptrAccessOutcome::Clear,
    }
}

/// How an access at a known offset meets the kernel pointers of a map value.
pub fn classify_kptr_access(map_def: &BpfMapDef, off: i64, size: i64) -> (r: KptrAccessOutcome)
    ensures
        r == kptr_outcome(*map_def, off, size),
{
    let fields: &Vec<KptrField> = &map_def.kptr_fields;
    let end: i128 = off as i128 + size as i128;
    let ghost p = meets_kptr(off as int, off + size);
    let mut i: usize = 0;
    while i < fields.len()
        invariant
            i <= fields@.len(),
            fields@ == map_def.kptr_fields@,
            end == off + size,
            p == meets_kptr(off as int, off + size),
            forall|k: int| 0 <= k < i ==> !p(#[trigger] fields@[k]),
        decreases fields@.len() - i,
    {
        let f: KptrField = fields[i];
        if (off as i128) < f.offset as i128 + 8 && (f.offset as i128) < end {
            proof {
                lemma_first_where_at(fields@, p, i as int);
            }
            if off == f.offset as i64 && size == 8 {
                return KptrAccessOutcome::Hit(f);
            }
            if off == f.offset as i64 {
                return KptrAccessOutcome::BadSize { field_off: f.offset, size };
            }
            return KptrAccessOutcome::Misaligned { off, expected: 8 };
        }
        i = i + 1;
    }
    proof {
        lemma_first_where_none(fields@, p);
    }
    KptrAccessOutcome::Clear
}

/// Whether an access that may start anywhere in `[lo, hi)` can meet a kernel
/// pointer.
pub open spec fn may_meet_kptr(d: BpfMapDef, lo: i64, hi: i64) -> bool {
    exists|i: int|
        0 <= i < d.kptr_fields@.len() && meets_kptr(lo as int, hi as int)(
            #[trigger] d.kptr_fields@[i],
        )
}

/// Whether an access that may touch anything in `[lo, hi)` can meet a kernel
/// pointer.
pub fn varoff_overlaps_kptr(map_def: &BpfMapDef, lo: i64, hi: i64) -> (r: bool)
    ensures
        r == may_meet_kptr(*map_def, lo, hi),
{
    let fields: &Vec<KptrField> = &map_def.kptr_fields;
    let mut i: usize = 0;
    while i < fields.len()
        invariant
            i <= fields@.len(),
            fields@ == map_def.kptr_fields@,
            forall|k: int|
                0 <= k < i ==> !meets_kptr(lo as int, hi as int)(#[trigger] fields@[k]),
        decreases fields@.len() - i,
    {
        if (lo as i128) < fields[i].offset as i128 + 8 && (fields[i].offset as i128) < hi as i128 {
            assert(meets_kptr(lo as int, hi as int)(map_def.kptr_fields@[i as int]));
            return true;
        }
        i = i + 1;
    }
    false
}

/// The fault of an access to a map value that holds kernel pointers.
pub open spec fn kptr_fault(
    d: BpfMapDef,
    s: Machine,
    map_idx: usize,
    base: Reg,
    map_off: Option<i64>,
    insn_off: i16,
    size: i64,
    pc: usize,
    is_store: bool,
) -> Option<VerificationError> {
    if d.kptr_fields@.len() == 0 {
        None
    } else {
        match const_map_off(s, base, map_off, insn_off) {
            Some(at) => match kptr_outcome(d, at, size) {
                KptrAccessOutcome::Clear => None,
                KptrAccessOutcome::Hit(f) => if !is_store || f.kind is Unref {
                    None
                } else if f.kind is Uptr {
                    Some(VerificationError::UptrStoreDisallowed { pc, off: at })
                } else {
                    Some(VerificationError::KptrStoreToReferenced { pc, off: at })
                },
                KptrAccessOutcome::BadSize { size, .. } => Some(
                    VerificationError::KptrAccessSizeMustBeDW { pc, off: at, size },
                ),
                KptrAccessOutcome::Misaligned { off, expected } => Some(
                    VerificationError::KptrAccessMisaligned { pc, off, expected },
                ),
            },
            None => {
                let (lo, hi) = match s.ptr_offset(base) {
                    Some(p) => (
                        sat_add(p.off, insn_off as i64),
                        sat_add(sat_add(p.max_offset(), insn_off as i64), size),
                    ),
                    None => (0, d.value_size as i64),
                };
                if may_meet_kptr(d, lo, hi) {
                    Some(VerificationError::KptrAccessVariableOffset { pc, map_idx })
                } else {
                    None
                }
            },
        }
    }
}

fn find_kptr_fault(
    d: &BpfMapDef,
    state: &State,
    map_idx: usize,
    base: Reg,
    map_off_opt: Option<i64>,
    insn_off: i16,
    size: i64,
    pc: usize,
    is_store: bool,
) -> (r: Option<VerificationError>)
    requires
        state.wf(),
    ensures
        r == kptr_fault(*d, state@, map_idx, base, map_off_opt, insn_off, size, pc, is_store),
{
    if d.kptr_fields.len() == 0 {
        return None;
    }
    if let Some(at) = resolve_const_map_off(state, base, map_off_opt, insn_off) {
        return match classify_kptr_access(d, at, size) {
            KptrAccessOutcome::Clear => None,
            KptrAccessOutcome::Hit(f) => if !is_store {
                None
            } else {
                match f.kind {
                    KptrFieldKind::Ref | KptrFieldKind::Rcu | KptrFieldKind::Percpu => Some(
                        VerificationError::KptrStoreToReferenced { pc, off: at },
                    ),
                    KptrFieldKind::Uptr => Some(
                        VerificationError::UptrStoreDisallowed { pc, off: at },
                    ),
                    KptrFieldKind::Unref => None,
                }
            },
            KptrAccessOutcome::BadSize { size, .. } => Some(
                VerificationError::KptrAccessSizeMustBeDW { pc, off: at, size },
            ),
            KptrAccessOutcome::Misaligned { off, expected } => Some(
                VerificationError::KptrAccessMisaligned { pc, off, expected },
            ),
        };
    }
    let (lo, hi): (i64, i64) = match state.save_interval_ptr_offset(base) {
        Some(p) => (
            sat_add(p.min_offset(), insn_off as i64),
            sat_add(sat_add(p.max_offset(), insn_off as i64), size),
        ),
        None => (0, d.value_size as i64),
    };
    if varoff_overlaps_kptr(d, lo, hi) {
        Some(VerificationError::KptrAccessVariableOffset { pc, map_idx })
    } else {
        None
    }
}

/// The report with a fault, if there is one.
pub open spec fn with_fault(v: EnvView, fault: Option<VerificationError>) -> EnvView {
    match fault {
        Some(e) => v.fail(e),
        None => v,
    }
}

/// Checks an access to a map value against the kernel pointers it holds.
pub fn check_kptr_field_access(
    env: &mut VerifierEnv,
    state: &State,
    map_idx: usize,
    base: Reg,
    map_off_opt: Option<i64>,
    insn_off: i16,
    size: i64,
    pc: usize,
    is_store: bool,
)
    requires
        state.wf(),
        map_idx < old(env).cfg.ctx.map_defs@.len(),
    ensures
        final(env).cfg == old(env).cfg,
        final(env)@ == with_fault(
            old(env)@,
            kptr_fault(
                old(env).cfg.ctx.map_defs@[map_idx as int],
                state@,
                map_idx,
                base,
                map_off_opt,
                insn_off,
                size,
                pc,
                is_store,
            ),
        ),
{
    let fault: Option<VerificationError> = find_kptr_fault(
        &env.cfg.ctx.map_defs[map_idx],
        state,
        map_idx,
        base,
        map_off_opt,
        insn_off,
        size,
        pc,
        is_store,
    );
    if let Some(e) = fault {
        env.fail(e);
    }
}

/// What the use of a map by a helper reports. A map that the program may only
/// use the other way counts only if nothing else is set.
pub open spec fn map_rw_checked(
    cfg: EnvConfig,
    v: EnvView,
    map_idx: usize,
    pc: usize,
    is_write: bool,
) -> EnvView {
    let flag = if is_write { constants::BPF_F_RDONLY_PROG } else { constants::BPF_F_WRONLY_PROG };
    if map_idx < cfg.ctx.map_defs@.len() {
        v.fail_if(
            cfg.ctx.map_defs@[map_idx as int].map_flags == flag,
            VerificationError::MapLoadForbidden { pc, map_idx },
        )
    } else {
        v.fail(VerificationError::MapNotFound { pc, map_idx })
    }
}

/// Checks that the program may read or write a map.
pub fn check_map_rw(env: &mut VerifierEnv, map_idx: usize, pc: usize, is_write: bool)
    ensures
        final(env).cfg == old(env).cfg,
        final(env)@ == map_rw_checked(old(env).cfg, old(env)@, map_idx, pc, is_write),
{
    let flag: u32 = if is_write {
        constants::BPF_F_RDONLY_PROG
    } else {
        constants::BPF_F_WRONLY_PROG
    };
    if map_idx < env.cfg.ctx.map_defs.len() {
        if env.cfg.ctx.map_defs[map_idx].map_flags == flag {
            env.fail(VerificationError::MapLoadForbidden { pc, map_idx });
        }
    } else {
        env.fail(VerificationError::MapNotFound { pc, map_idx });
    }
}

/// One failure for each special field that an access meets.
pub open spec fn special_fields_met(
    v: EnvView,
    fields: Seq<SpecialField>,
    pc: usize,
    off: i64,
    end: i64,
    size: i64,
    limit: i64,
) -> EnvView
    decreases fields.len(),
{
    if fields.len() == 0 {
        v
    } else {
        let f = fields.last();
        special_fields_met(v, fields.drop_last(), pc, off, end, size, limit).fail_if(
            off < f.offset + f.size && end > f.offset,
            VerificationError::UnsafeMapLoad { pc, off, size, limit },
        )
    }
}

/// Checks an access to a map value against the parts that programs may not
/// touch.
pub fn check_btf_fields_access(
    env: &mut VerifierEnv,
    pc: usize,
    final_offset: i64,
    access_end: i64,
    size: i64,
    map_limit: i64,
    btf_id: u32,
)
    ensures
        final(env).cfg == old(env).cfg,
        final(env)@ == special_fields_met(
            old(env)@,
            old(env).cfg.ctx.btf.special_fields(btf_id),
            pc,
            final_offset,
            access_end,
            size,
            map_limit,
        ),
{
    let fields: Vec<SpecialField> = env.cfg.ctx.btf.find_special_fields(btf_id);
    let ghost before = env@;
    let ghost cfg = env.cfg;
    let mut i: usize = 0;
    while i < fields.len()
        invariant
            i <= fields@.len(),
            env.cfg == cfg,
            env@ == special_fields_met(
                before,
                fields@.take(i as int),
                pc,
                final_offset,
                access_end,
                size,
                map_limit,
            ),
        decreases fields@.len() - i,
    {
        let f: SpecialField = fields[i];
        assert(fields@.take(i + 1).drop_last() =~= fields@.take(i as int));
        if final_offset < f.offset as i64 + f.size as i64 && access_end > f.offset as i64 {
            env.fail(
                VerificationError::UnsafeMapLoad {
                    pc,
                    off: final_offset,
                    size,
                    limit: map_limit,
                },
            );
        }
        i = i + 1;
    }
    assert(fields@.take(fields@.len() as int) =~= fields@);
}

/// The registers whose values a symbolic proof about a map access needs: the
/// pointer if its offset varies, and the size if it does.
pub open spec fn targets(s: Machine, base: Reg, size_reg: Option<Reg>) -> Seq<Reg> {
    let a = if s.ptr_offset(base) matches Some(p) && p.off != p.max_offset() {
        seq![base]
    } else {
        seq![]
    };
    match size_reg {
        Some(r) => if s.domain.fixed(r) is None {
            a.push(r)
        } else {
            a
        },
        None => a,
    }
}

/// The registers whose values a symbolic proof about a map access needs.
pub fn refinement_targets(state: &State, base: Reg, size_reg: Option<Reg>) -> (r: Vec<Reg>)
    requires
        state.wf(),
    ensures
        r@ == targets(state@, base, size_reg),
{
    let mut regs: Vec<Reg> = Vec::new();
    if let Some(p) = state.save_interval_ptr_offset(base) {
        if p.min_offset() != p.max_offset() {
            regs.push(base);
        }
    }
    if let Some(sr) = size_reg {
        if state.domain.get_fixed_value(sr).is_none() {
            regs.push(sr);
        }
    }
    assert(regs@ =~= targets(state@, base, size_reg));
    regs
}

fn try_bcf_refine_map(
    env: &mut VerifierEnv,
    state: &State,
    base: Reg,
    off: i64,
    size: i64,
    limit: i64,
) -> (r: bool)
    ensures
        final(env).cfg == old(env).cfg,
        r == (state@.symbolic && old(env).cfg.refined),
        final(env)@ == if r {
            old(env)@.refine(
                RefinedAccess::MapValue { base, off, size, limit, size_reg: old(env).cfg.size_reg },
            )
        } else {
            old(env)@
        },
{
    if state.symbolic && env.cfg.refined {
        let size_reg: Option<Reg> = env.cfg.size_reg;
        env.record_refinement(RefinedAccess::MapValue { base, off, size, limit, size_reg });
        true
    } else {
        false
    }
}

/// What an access to the bytes `[start, end)` of a map value reports. `shown`
/// is the start that special fields are compared with.
pub open spec fn map_bytes_checked(
    cfg: EnvConfig,
    v: EnvView,
    s: Machine,
    d: BpfMapDef,
    base: Reg,
    insn_off: i16,
    size: i64,
    pc: usize,
    start: i64,
    end: i64,
    shown: i64,
) -> EnvView {
    let limit = d.value_size as i64;
    if !(start >= 0 && end <= limit) {
        refined_or_failed(
            cfg,
            v,
            s,
            RefinedAccess::MapValue {
                base,
                off: insn_off as i64,
                size,
                limit,
                size_reg: cfg.size_reg,
            },
            VerificationError::UnsafeMapLoad { pc, off: start, size, limit },
        )
    } else {
        match d.btf_val_type_id {
            Some(id) => special_fields_met(
                v,
                cfg.ctx.btf.special_fields(id),
                pc,
                shown,
                end,
                size,
                limit,
            ),
            None => v,
        }
    }
}

fn check_map_bytes(
    env: &mut VerifierEnv,
    state: &State,
    map_idx: usize,
    base: Reg,
    insn_off: i16,
    size: i64,
    pc: usize,
    start: i64,
    end: i64,
    shown: i64,
)
    requires
        map_idx < old(env).cfg.ctx.map_defs@.len(),
    ensures
        final(env).cfg == old(env).cfg,
        final(env)@ == map_bytes_checked(
            old(env).cfg,
            old(env)@,
            state@,
            old(env).cfg.ctx.map_defs@[map_idx as int],
            base,
            insn_off,
            size,
            pc,
            start,
            end,
            shown,
        ),
{
    let limit: i64 = env.cfg.ctx.map_defs[map_idx].value_size as i64;
    if !(start >= 0 && end <= limit) {
        if !try_bcf_refine_map(env, state, base, insn_off as i64, size, limit) {
            env.fail(VerificationError::UnsafeMapLoad { pc, off: start, size, limit });
        }
        return;
    }
    if let Some(id) = env.cfg.ctx.map_defs[map_idx].btf_val_type_id {
        check_btf_fields_access(env, pc, shown, end, size, limit, id);
    }
}

/// What an access to a map value reports when pointers are tracked by the
/// values of their registers.
pub open spec fn zone_map_checked(
    cfg: EnvConfig,
    v: EnvView,
    s: Machine,
    map_off: Option<i64>,
    map_idx: usize,
    base: Reg,
    insn_off: i16,
    size: i64,
    pc: usize,
) -> EnvView {
    let d = cfg.ctx.map_defs@[map_idx as int];
    let limit = d.value_size as i64;
    let off = insn_off as i64;
    let (lo, hi) = s.domain.range(base);
    if lo != i64::MIN && hi != i64::MAX {
        map_bytes_checked(
            cfg,
            v,
            s,
            d,
            base,
            insn_off,
            size,
            pc,
            sat_add(lo, off),
            sat_add(sat_add(hi, off), size),
            off,
        )
    } else {
        match map_off {
            Some(fixed) => {
                let start = sat_add(fixed, off);
                let end = sat_add(start, size);
                if !(start >= 0 && end <= limit) {
                    v.fail(VerificationError::UnsafeMapAccess { pc, size, map_idx })
                } else {
                    match d.btf_val_type_id {
                        Some(id) => special_fields_met(
                            v,
                            cfg.ctx.btf.special_fields(id),
                            pc,
                            start,
                            end,
                            size,
                            limit,
                        ),
                        None => v,
                    }
                }
            },
            None => refined_or_failed(
                cfg,
                v,
                s,
                RefinedAccess::MapValue { base, off, size, limit, size_reg: cfg.size_reg },
                VerificationError::UnsafeMapLoad { pc, off, size, limit },
            ),
        }
    }
}

fn zone_check_map_access(
    env: &mut VerifierEnv,
    state: &State,
    map_off_opt: Option<i64>,
    map_idx: usize,
    base: Reg,
    insn_off: i16,
    size: i64,
    pc: usize,
)
    requires
        state.wf(),
        map_idx < old(env).cfg.ctx.map_defs@.len(),
    ensures
        final(env).cfg == old(env).cfg,
        final(env)@ == zone_map_checked(
            old(env).cfg,
            old(env)@,
            state@,
            map_off_opt,
            map_idx,
            base,
            insn_off,
            size,
            pc,
        ),
{
    let off: i64 = insn_off as i64;
    let (lo, hi) = state.domain.get_interval(base);
    if lo != i64::MIN && hi != i64::MAX {
        check_map_bytes(
            env,
            state,
            map_idx,
            base,
            insn_off,
            size,
            pc,
            sat_add(lo, off),
            sat_add(sat_add(hi, off), size),
            off,
        );
        return;
    }
    let limit: i64 = env.cfg.ctx.map_defs[map_idx].value_size as i64;
    match map_off_opt {
        Some(fixed) => {
            let start: i64 = sat_add(fixed, off);
            let end: i64 = sat_add(start, size);
            if !(start >= 0 && end <= limit) {
                env.fail(VerificationError::UnsafeMapAccess { pc, size, map_idx });
                return;
            }
            if let Some(id) = env.cfg.ctx.map_defs[map_idx].btf_val_type_id {
                check_btf_fields_access(env, pc, start, end, size, limit, id);
            }
        },
        None => {
            if !try_bcf_refine_map(env, state, base, off, size, limit) {
                env.fail(VerificationError::UnsafeMapLoad { pc, off, size, limit });
            }
        },
    }
}

/// What an access to a map value reports. The interval domain knows where a
/// pointer stands in the value; else the register's own range counts, and then
/// the offset its type carries.
pub open spec fn map_checked(
    cfg: EnvConfig,
    v: EnvView,
    s: Machine,
    map_off: Option<i64>,
    map_idx: usize,
    base: Reg,
    insn_off: i16,
    size: i64,
    pc: usize,
) -> EnvView {
    match s.ptr_offset(base) {
        Some(p) => {
            let start = sat_add(p.off, insn_off as i64);
            map_bytes_checked(
                cfg,
                v,
                s,
                cfg.ctx.map_defs@[map_idx as int],
                base,
                insn_off,
                size,
                pc,
                start,
                sat_add(sat_add(p.max_offset(), insn_off as i64), size),
                start,
            )
        },
        None => zone_map_checked(cfg, v, s, map_off, map_idx, base, insn_off, size, pc),
    }
}

/// Checks an access to a map value.
pub fn check_map_access(
    env: &mut VerifierEnv,
    state: &State,
    map_off_opt: Option<i64>,
    map_idx: usize,
    base: Reg,
    insn_off: i16,
    size: i64,
    pc: usize,
)
    requires
        state.wf(),
        map_idx < old(env).cfg.ctx.map_defs@.len(),
    ensures
        final(env).cfg == old(env).cfg,
        final(env)@ == map_checked(
            old(env).cfg,
            old(env)@,
            state@,
            map_off_opt,
            map_idx,
            base,
            insn_off,
            size,
            pc,
        ),
{
    match state.save_interval_ptr_offset(base) {
        Some(p) => {
            let start: i64 = sat_add(p.min_offset(), insn_off as i64);
            let end: i64 = sat_add(sat_add(p.max_offset(), insn_off as i64), size);
            check_map_bytes(env, state, map_idx, base, insn_off, size, pc, start, end, start);
        },
        None => zone_check_map_access(
            env,
            state,
            map_off_opt,
            map_idx,
            base,
            insn_off,
            size,
            pc,
        ),
    }
}

/// A map access that reports nothing lies within the map's value, wherever in
/// its range the pointer stands.
pub proof fn law_silent_map_accesses_are_in_bounds(
    cfg: EnvConfig,
    v: EnvView,
    s: Machine,
    map_off: Option<i64>,
    map_idx: usize,
    base: Reg,
    insn_off: i16,
    size: i64,
    pc: usize,
    at: int,
)
    requires
        !s.symbolic,
        size > 0,
        map_checked(cfg, v, s, map_off, map_idx, base, insn_off, size, pc) == v,
        s.ptr_offset(base) matches Some(p) && p.off <= at <= p.max_offset(),
    ensures
        0 <= at + insn_off,
        at + insn_off + size <= cfg.ctx.map_defs@[map_idx as int].value_size,
{
    assert forall|e: VerificationError| #[trigger] v.fail(e) != v by {
        assert(v.fail(e).failures.len() == v.failures.len() + 1);
    }
}

/// An access that hits a kernel pointer is eight bytes wide and starts at one,
/// so a load of it is typed as a kernel pointer.
pub proof fn law_hits_are_found(d: BpfMapDef, off: i64, size: i64)
    requires
        kptr_outcome(d, off, size) is Hit,
    ensures
        size == 8,
        kptr_hit(d, off, size) is Some,
        kptr_outcome(d, off, size)->Hit_0.offset == off,
{
    let p = meets_kptr(off as int, off + size);
    crate::machine::find::law_first_where(d.kptr_fields@, p);
    let f = first_where(d.kptr_fields@, p)->Some_0;
    let k = choose|k: int| 0 <= k < d.kptr_fields@.len() && d.kptr_fields@[k] == f;
    crate::machine::find::law_first_where(d.kptr_fields@, kptr_offset_is(off));
    assert(kptr_offset_is(off)(d.kptr_fields@[k]));
}

} // verus!
