//! Accesses to stacks.
use crate::common::constants;
use crate::machine::env::{EnvConfig, EnvView, RefinedAccess, VerifierEnv};
use crate::machine::error::VerificationError;
use crate::machine::reg::Reg;
use crate::machine::reg_types::{FrameLevel, RegType};
use crate::machine::stack_state::{StackState, StackView};
use crate::machine::state::{depth_sum, Machine, State};
use crate::num::{divides, wadd};
use crate::transfer::access::AccessKind;
use vstd::prelude::*;

verus! {

/// The report of an access that could not be shown safe: a failure, unless a
/// symbolic proof shows it after all.
pub open spec fn refined_or_failed(
    cfg: EnvConfig,
    v: EnvView,
    s: Machine,
    access: RefinedAccess,
    e: VerificationError,
) -> EnvView {
    if s.symbolic && cfg.refined { v.refine(access) } else { v.fail(e) }
}

fn try_bcf_refine_stack(env: &mut VerifierEnv, state: &State, base: Reg, off: i64, size: i64) -> (r:
    bool)
    ensures
        final(env).cfg == old(env).cfg,
        r == (state@.symbolic && old(env).cfg.refined),
        final(env)@ == if r {
            old(env)@.refine(RefinedAccess::Stack { base, off, size })
        } else {
            old(env)@
        },
{
    if state.symbolic && env.cfg.refined {
        env.record_refinement(RefinedAccess::Stack { base, off, size });
        true
    } else {
        false
    }
}

/// Whether all of `n` bytes were written.
pub open spec fn all_initialized(s: StackView, off: i64, n: i64) -> bool {
    forall|i: i64| 0 <= i < n ==> s.slots.dom().contains(#[trigger] (wadd(off, i) as i16))
}

fn bytes_initialized(stack: &StackState, off: i64, n: i64) -> (r: bool)
    requires
        stack.wf(),
    ensures
        r == all_initialized(stack@, off, n),
{
    let mut i: i64 = 0;
    while i < n
        invariant
            stack.wf(),
            0 <= i,
            forall|k: i64| 0 <= k < i ==> stack@.slots.dom().contains(#[trigger] (wadd(off, k) as i16)),
        decreases n - i,
    {
        if !stack.is_slot_initialized(wadd(off, i) as i16) {
            return false;
        }
        i = i + 1;
    }
    true
}

/// One failure for each of the first `n` bytes that belongs to a pointer.
pub open spec fn pointer_parts_read(
    v: EnvView,
    s: StackView,
    off: i64,
    n: int,
    pc: usize,
) -> EnvView
    decreases n,
{
    if n <= 0 {
        v
    } else {
        pointer_parts_read(v, s, off, n - 1, pc).fail_if(
            s.type_at(wadd(off, (n - 1) as i64) as i16).is_pointer(),
            VerificationError::InvalidStackRead { pc, offset: off },
        )
    }
}

fn report_pointer_parts(env: &mut VerifierEnv, stack: &StackState, off: i64, n: i64, pc: usize)
    requires
        stack.wf(),
    ensures
        final(env).cfg == old(env).cfg,
        final(env)@ == pointer_parts_read(old(env)@, stack@, off, n as int, pc),
{
    let ghost before = env@;
    let ghost cfg = env.cfg;
    let mut i: i64 = 0;
    while i < n
        invariant
            stack.wf(),
            0 <= i,
            i <= n || i == 0,
            env.cfg == cfg,
            env@ == pointer_parts_read(before, stack@, off, i as int, pc),
        decreases n - i,
    {
        if stack.get_slot_type(wadd(off, i) as i16).is_pointer() {
            env.fail(VerificationError::InvalidStackRead { pc, offset: off });
        }
        i = i + 1;
    }
}

/// What a read of stack bytes reports. Kernel objects may not be read; bytes
/// that were not written only by a privileged program; a part of a pointer not
/// at all.
pub open spec fn stack_read(
    privileged: bool,
    v: EnvView,
    s: StackView,
    kind: AccessKind,
    off: i64,
    size: i64,
    pc: usize,
) -> EnvView {
    if kind is Write {
        v
    } else if s.overlaps_dynptr(off, size) || s.overlaps_iterator(off, size) {
        v.fail(VerificationError::InvalidStackRead { pc, offset: off })
    } else if !all_initialized(s, off, size) {
        v.fail_if(!privileged, VerificationError::UninitializedStackRead { pc, offset: off })
    } else if kind is Read && size != 8 {
        pointer_parts_read(v, s, off, size as int, pc)
    } else {
        v
    }
}

/// Checks that stack bytes may be read.
pub fn check_stack_initialization(
    env: &mut VerifierEnv,
    stack: &StackState,
    kind: AccessKind,
    actual_offset: i64,
    size: i64,
    pc: usize,
)
    requires
        stack.wf(),
    ensures
        final(env).cfg == old(env).cfg,
        final(env)@ == stack_read(
            old(env).cfg.ctx.privileged,
            old(env)@,
            stack@,
            kind,
            actual_offset,
            size,
            pc,
        ),
{
    if matches!(kind, AccessKind::Write) {
        return;
    }
    if stack.read_overlaps_dynptr(actual_offset, size) || stack.access_overlaps_iterator(
        actual_offset,
        size,
    ) {
        env.fail(VerificationError::InvalidStackRead { pc, offset: actual_offset });
        return;
    }
    if !bytes_initialized(stack, actual_offset, size) {
        if !env.cfg.ctx.privileged {
            env.fail(VerificationError::UninitializedStackRead { pc, offset: actual_offset });
        }
        return;
    }
    if matches!(kind, AccessKind::Read) && size != 8 {
        report_pointer_parts(env, stack, actual_offset, size, pc);
    }
}

/// The reports of reads at `n` consecutive offsets from `from` on.
pub open spec fn stack_read_run(
    privileged: bool,
    v: EnvView,
    s: StackView,
    kind: AccessKind,
    from: i64,
    insn_off: i64,
    n: int,
    size: i64,
    pc: usize,
) -> EnvView
    decreases n,
{
    if n <= 0 {
        v
    } else {
        stack_read(
            privileged,
            stack_read_run(privileged, v, s, kind, from, insn_off, n - 1, size, pc),
            s,
            kind,
            wadd((from + (n - 1)) as i64, insn_off),
            size,
            pc,
        )
    }
}

/// Whether an access at one of the offsets `lo..=hi` stays within the stack.
pub open spec fn within_stack(depth: int, lo: i64, hi: i64, off: i64, size: i64) -> bool {
    lo + off >= constants::BPF_STACK_MIN && hi + off + size - depth <= constants::BPF_STACK_MAX
}

/// What an access to a stack reports.
pub open spec fn stack_checked(
    cfg: EnvConfig,
    v: EnvView,
    s: Machine,
    base: Reg,
    ptr_off: Option<i64>,
    off: i64,
    size: i64,
    pc: usize,
    kind: AccessKind,
    src_type: Option<RegType>,
    level: FrameLevel,
) -> EnvView {
    let stack = s.stack_at(level);
    let depth = depth_sum(s.frames);
    let access = RefinedAccess::Stack { base, off, size };
    if s.level().index > level.index && kind is Write && (src_type matches Some(t)
        && t is PtrToStack) {
        v.fail(VerificationError::SpillToCaller { pc })
    } else {
        match ptr_off {
            Some(at) => {
                let actual = wadd(at, off);
                if !(kind is HelperBuffer) && actual as int % size as int != 0 {
                    v.fail(VerificationError::MisalignedAccess { pc, off: actual })
                } else if !within_stack(depth, actual, actual, 0, size) {
                    refined_or_failed(
                        cfg,
                        v,
                        s,
                        access,
                        VerificationError::StackOutOfBounds { pc, off: actual, size },
                    )
                } else {
                    stack_read(cfg.ctx.privileged, v, stack, kind, actual, size, pc)
                }
            },
            None => {
                let (lo, hi) = s.domain.distance(base, Reg::R10);
                if lo == i64::MIN || hi == i64::MAX || !within_stack(depth, lo, hi, off, size) {
                    refined_or_failed(
                        cfg,
                        v,
                        s,
                        access,
                        VerificationError::StackOutOfBounds { pc, off, size },
                    )
                } else {
                    stack_read_run(
                        cfg.ctx.privileged,
                        v,
                        stack,
                        kind,
                        lo,
                        off,
                        hi - lo + 1,
                        size,
                        pc,
                    )
                }
            },
        }
    }
}

fn check_initialization_run(
    env: &mut VerifierEnv,
    stack: &StackState,
    kind: AccessKind,
    lo: i64,
    hi: i64,
    insn_off: i64,
    size: i64,
    pc: usize,
)
    requires
        stack.wf(),
        hi < i64::MAX,
    ensures
        final(env).cfg == old(env).cfg,
        final(env)@ == stack_read_run(
            old(env).cfg.ctx.privileged,
            old(env)@,
            stack@,
            kind,
            lo,
            insn_off,
            hi - lo + 1,
            size,
            pc,
        ),
{
    let ghost before = env@;
    let ghost cfg = env.cfg;
    let mut at: i64 = lo;
    while at <= hi
        invariant
            stack.wf(),
            hi < i64::MAX,
            lo <= at,
            at <= hi + 1 || at == lo,
            env.cfg == cfg,
            env@ == stack_read_run(
                cfg.ctx.privileged,
                before,
                stack@,
                kind,
                lo,
                insn_off,
                at - lo,
                size,
                pc,
            ),
        decreases hi + 1 - at,
    {
        check_stack_initialization(env, stack, kind, wadd(at, insn_off), size, pc);
        at = at + 1;
    }
}

/// Checks an access to the stack of a frame. For reads it also checks that the
/// bytes may be read.
pub fn check_stack_access(
    env: &mut VerifierEnv,
    state: &State,
    base: Reg,
    ptr_type_offset: Option<i64>,
    instruction_offset: i64,
    size: i64,
    pc: usize,
    kind: AccessKind,
    src_type_op: Option<RegType>,
    pointer_frame_lv: FrameLevel,
)
    requires
        state.wf(),
        size > 0,
        pointer_frame_lv.index < state@.frames.len(),
    ensures
        final(env).cfg == old(env).cfg,
        final(env)@ == stack_checked(
            old(env).cfg,
            old(env)@,
            state@,
            base,
            ptr_type_offset,
            instruction_offset,
            size,
            pc,
            kind,
            src_type_op,
            pointer_frame_lv,
        ),
{
    if state.current_frame_level().index > pointer_frame_lv.index && matches!(
        kind,
        AccessKind::Write
    ) {
        if let Some(RegType::PtrToStack { .. }) = src_type_op {
            env.fail(VerificationError::SpillToCaller { pc });
            return;
        }
    }
    let depth: i128 = state.total_stack_depth();
    let stack: &StackState = state.stack_at(pointer_frame_lv);
    match ptr_type_offset {
        Some(at) => {
            let actual: i64 = wadd(at, instruction_offset);
            if !matches!(kind, AccessKind::HelperBuffer) && !divides(size, actual) {
                env.fail(VerificationError::MisalignedAccess { pc, off: actual });
                return;
            }
            if actual < constants::BPF_STACK_MIN || actual as i128 + size as i128 - depth
                > constants::BPF_STACK_MAX as i128 {
                if !try_bcf_refine_stack(env, state, base, instruction_offset, size) {
                    env.fail(VerificationError::StackOutOfBounds { pc, off: actual, size });
                }
                return;
            }
            check_stack_initialization(env, stack, kind, actual, size, pc);
        },
        None => {
            let (lo, hi) = state.domain.get_distance_interval(base, Reg::R10);
            let safe: bool = lo != i64::MIN && hi != i64::MAX && lo as i128
                + instruction_offset as i128 >= constants::BPF_STACK_MIN as i128 && hi as i128
                + instruction_offset as i128 + size as i128 - depth
                <= constants::BPF_STACK_MAX as i128;
            if !safe {
                if !try_bcf_refine_stack(env, state, base, instruction_offset, size) {
                    env.fail(
                        VerificationError::StackOutOfBounds { pc, off: instruction_offset, size },
                    );
                }
                return;
            }
            check_initialization_run(env, stack, kind, lo, hi, instruction_offset, size, pc);
        },
    }
}

/// Checks an access to the current frame's stack at a known offset.
pub fn check_stack_arg_readable(
    env: &mut VerifierEnv,
    state: &State,
    stack_offset: i64,
    size: i64,
    pc: usize,
    kind: AccessKind,
)
    requires
        state.wf(),
        size > 0,
    ensures
        final(env).cfg == old(env).cfg,
        final(env)@ == stack_checked(
            old(env).cfg,
            old(env)@,
            state@,
            Reg::R10,
            Some(stack_offset),
            0,
            size,
            pc,
            kind,
            None,
            state@.level(),
        ),
{
    let level: FrameLevel = state.current_frame_level();
    check_stack_access(env, state, Reg::R10, Some(stack_offset), 0, size, pc, kind, None, level)
}

/// A read at a known offset that reports nothing stays within the 512 bytes of
/// a stack whose frames have no depth yet, is aligned, and reads only bytes
/// that were written, or the program is privileged.
pub proof fn law_silent_reads_are_safe(
    cfg: EnvConfig,
    v: EnvView,
    s: Machine,
    base: Reg,
    at: i64,
    off: i64,
    size: i64,
    pc: usize,
    level: FrameLevel,
)
    requires
        size > 0,
        !s.symbolic,
        stack_checked(cfg, v, s, base, Some(at), off, size, pc, AccessKind::Read, None, level) == v,
    ensures
        wadd(at, off) as int % size as int == 0,
        wadd(at, off) >= constants::BPF_STACK_MIN,
        wadd(at, off) + size <= depth_sum(s.frames),
        all_initialized(s.stack_at(level), wadd(at, off), size) || cfg.ctx.privileged,
        !s.stack_at(level).overlaps_dynptr(wadd(at, off), size),
        !s.stack_at(level).overlaps_iterator(wadd(at, off), size),
{
    let actual = wadd(at, off);
    assert forall|e: VerificationError| #[trigger] v.fail(e) != v by {
        assert(v.fail(e).failures.len() == v.failures.len() + 1);
    }
}

} // verus!
