//! One step of the analysis: what an instruction makes of a state.
use crate::ast::instr::{CallKind, Instr};
use crate::ast::prog::{expected_retval_rule, retval_rule, RetvalRule};
use crate::ast::{AluOp, CmpOp, EndianOp, Operand, SxWidth, Width};
use crate::common::constants;
use crate::domains::interval::state::{PtrOffset, RegInterval};
use crate::domains::numeric::{Numeric, NumericDomain};
use crate::machine::env::{reads, text_is, EnvConfig, EnvView, VerifierEnv};
use crate::machine::error::VerificationError;
use crate::machine::reg::{Reg, DBM_DIM};
use crate::machine::reg_types::{FrameLevel, RegType, TypeState};
use crate::machine::stack_state::StackState;
use crate::machine::state::{Callback, Frame, FrameView, Machine, Notes, State};
use crate::machine::tnum::Tnum;
use crate::text::text_eq;
use crate::transfer::common::{one, yields};
use crate::transfer::memory::{
    atomic_step, load_step, load_sx_step, map_load_step, packet_load_step, store_step,
    transfer_atomic, transfer_load, transfer_load_sx, transfer_map_load, transfer_packet_load,
    transfer_store,
};
use vstd::prelude::*;

verus! {

/// Work on an instruction that the step itself does not do.
#[allow(inconsistent_fields)]
#[derive(Debug, Clone, Copy, PartialEq, Eq, Structural)]
pub enum Work {
    Alu { width: Width, op: AluOp, dst: Reg, src: Operand },
    MovSx { width: Width, src_bits: SxWidth, dst: Reg, src: Operand },
    If { width: Width, left: Reg, op: CmpOp, right: Operand, target: usize },
    Helper { id: u32 },
    Kfunc { btf_id: u32 },
    CallRel { target: usize },
}

/// The outcome of a step.
#[derive(Debug)]
pub enum Step {
    /// The states that follow. If `widen_from` is there, numbers in them that
    /// need not be exact are to be widened against that explored state.
    Next { states: Vec<State>, widen_from: Option<usize> },
    /// The state is to be worked on further.
    Pending { state: State, work: Work },
}

/// What a step amounts to.
#[verifier::ext_equal]
pub enum Outcome {
    Next { states: Seq<Machine>, widen_from: Option<usize> },
    Pending { state: Machine, work: Work },
}

/// A step is what its outcome says, and its states are well formed.
pub open spec fn amounts_to(r: Step, o: Outcome) -> bool {
    match (r, o) {
        (Step::Next { states, widen_from }, Outcome::Next { states: m, widen_from: w }) => {
            &&& widen_from == w
            &&& states@.len() == m.len()
            &&& forall|i: int|
                0 <= i < m.len() ==> (#[trigger] states@[i])@ == m[i] && states@[i].wf()
        },
        (Step::Pending { state, work }, Outcome::Pending { state: m, work: w }) => work == w && state@ == m
            && state.wf(),
        _ => false,
    }
}

/// The outcome of an instruction that leads to at most one state.
pub open spec fn single(m: Option<Machine>) -> Outcome {
    Outcome::Next {
        states: match m {
            Some(s) => seq![s],
            None => seq![],
        },
        widen_from: None,
    }
}

/// The position of the second to last `pc` in a list.
pub open spec fn second_last(pcs: Seq<usize>, pc: usize) -> Option<usize> {
    match last_before(pcs, pc, pcs.len() as int) {
        Some(i) => match last_before(pcs, pc, i) {
            Some(j) => Some(j as usize),
            None => None,
        },
        None => None,
    }
}

/// The position of the last `pc` before `end`.
pub open spec fn last_before(pcs: Seq<usize>, pc: usize, end: int) -> Option<int>
    decreases end,
{
    if end <= 0 {
        None
    } else if pcs[end - 1] == pc {
        Some(end - 1)
    } else {
        last_before(pcs, pc, end - 1)
    }
}

fn find_last_before(pcs: &Vec<usize>, pc: usize, end: usize) -> (r: Option<usize>)
    requires
        end <= pcs@.len(),
    ensures
        match r {
            Some(i) => i < end && last_before(pcs@, pc, end as int) == Some(i as int),
            None => last_before(pcs@, pc, end as int) is None,
        },
{
    let mut i: usize = end;
    while i > 0
        invariant
            i <= end <= pcs@.len(),
            last_before(pcs@, pc, end as int) == last_before(pcs@, pc, i as int),
        decreases i,
    {
        if pcs[i - 1] == pc {
            return Some(i - 1);
        }
        i = i - 1;
    }
    None
}

fn previous_visit(pcs: &Vec<usize>, pc: usize) -> (r: Option<usize>)
    ensures
        r == second_last(pcs@, pc),
{
    match find_last_before(pcs, pc, pcs.len()) {
        Some(i) => find_last_before(pcs, pc, i),
        None => None,
    }
}

/// Pointers that atomic loads and stores may not go through.
pub open spec fn atomics_forbidden(t: RegType) -> bool {
    match t {
        RegType::PtrToCtx => true,
        RegType::PtrToPacket => true,
        RegType::PtrToPacketMeta => true,
        RegType::PtrToPacketEnd => true,
        RegType::PtrToBtfId { struct_name, .. } => struct_name@ == "bpf_flow_keys"@,
        _ => false,
    }
}

pub open spec fn atomics_error(s: Machine) -> VerificationError {
    VerificationError::UnsupportedModernFeature {
        pc: s.pc,
        feature: "BPF_ATOMIC (LOAD_ACQ / STORE_REL) against ctx/packet pointer",
    }
}

fn reject_atomic_on_typed_ptr(env: &mut VerifierEnv, state: &State, base: Reg) -> (r: bool)
    requires
        state.wf(),
    ensures
        final(env).cfg == old(env).cfg,
        r == atomics_forbidden(state@.ty(base)),
        final(env)@ == old(env)@.fail_if(r, atomics_error(state@)),
{
    let rejected: bool = match state.types.get(base) {
        RegType::PtrToCtx | RegType::PtrToPacket | RegType::PtrToPacketMeta
        | RegType::PtrToPacketEnd => true,
        RegType::PtrToBtfId { struct_name, .. } => text_eq(struct_name, "bpf_flow_keys"),
        _ => false,
    };
    if rejected {
        env.fail(
            VerificationError::UnsupportedModernFeature {
                pc: state.pc,
                feature: "BPF_ATOMIC (LOAD_ACQ / STORE_REL) against ctx/packet pointer",
            },
        );
    }
    rejected
}

/// The domain after a byte order conversion: the low bits remain; a conversion
/// of all 64 bits to the host's own order changes nothing.
pub open spec fn swapped(d: Numeric, dst: Reg, op: EndianOp, size: u32, width: Width) -> Numeric {
    let d = if size == 16 {
        d.and_imm(dst, 0xFFFF)
    } else if size == 32 {
        d.and_imm(dst, 0xFFFF_FFFF)
    } else if size == 64 && op is ToLe {
        d
    } else {
        d.forget(dst)
    };
    if width is W32 { d.and_imm(dst, 0xFFFF_FFFF) } else { d }
}

/// The state after a byte order conversion.
#[verifier::opaque]
pub open spec fn endian_step(s: Machine, dst: Reg, op: EndianOp, size: u32, width: Width) -> Machine {
    s.set_type(dst, RegType::ScalarValue).with_domain(
        swapped(s.domain, dst, op, size, width),
    ).at(s.pc + 1)
}

fn swap_bytes(domain: &mut NumericDomain, dst: Reg, op: EndianOp, size: u32, width: Width)
    requires
        old(domain).wf(),
        !dst.is_anchor(),
    ensures
        final(domain).wf(),
        final(domain)@ is Zone <==> old(domain)@ is Zone,
        final(domain)@ == swapped(old(domain)@, dst, op, size, width),
{
    match op {
        EndianOp::ToLe => match size {
            64 => {},
            32 => domain.apply_and_imm(dst, 0xFFFF_FFFF),
            16 => domain.apply_and_imm(dst, 0xFFFF),
            _ => domain.forget(dst),
        },
        EndianOp::ToBe | EndianOp::Bswap => match size {
            16 => domain.apply_and_imm(dst, 0xFFFF),
            32 => domain.apply_and_imm(dst, 0xFFFF_FFFF),
            _ => domain.forget(dst),
        },
    }
    if width == Width::W32 {
        domain.apply_and_imm(dst, 0xFFFF_FFFF);
    }
}

/// Converts the byte order of a register.
pub fn transfer_endian(state: State, dst: Reg, op: EndianOp, size: u32, width: Width) -> (r: Vec<
    State,
>)
    requires
        state.wf(),
        !dst.is_anchor(),
        state@.pc < usize::MAX,
    ensures
        yields(r@, Some(endian_step(state@, dst, op, size, width))),
{
    proof {
        reveal(endian_step);
    }
    let mut state: State = state;
    let pc: usize = state.pc;
    state.set_type(dst, RegType::ScalarValue);
    swap_bytes(&mut state.domain, dst, op, size, width);
    state.go(pc + 1);
    one(state)
}

/// The program returns something other than zero from an exception callback
/// that must return zero.
pub open spec fn bad_exception_return(cfg: EnvConfig, s: Machine) -> bool {
    cfg.analyzing_exception_cb && s.at_main_frame() && (reads(cfg.ctx.attach_flavor, "fentry")
        || reads(cfg.ctx.attach_flavor, "fexit")) && s.domain.range(Reg::R0) != (0i64, 0i64)
}

/// The value in R0 is not one that the program may return.
pub open spec fn bad_return_value(cfg: EnvConfig, s: Machine) -> bool {
    let (lo, hi) = s.domain.range(Reg::R0);
    let subtype = match cfg.ctx.attach_subtype {
        Some(t) => Some(t@),
        None => None,
    };
    match retval_rule(cfg.ctx.prog_kind, subtype) {
        Some(rule) => lo < rule.lo || hi > rule.hi || (rule.require_known && (lo != hi || !(s.ty(
            Reg::R0,
        ) is ScalarValue))),
        None => cfg.ctx.prog_kind.requires_strict_return_code() && (lo < 0 || hi > 1),
    }
}

fn is_bad_return_value(cfg: &EnvConfig, state: &State) -> (r: bool)
    requires
        state.wf(),
    ensures
        r == bad_return_value(*cfg, state@),
{
    let (lo, hi) = state.domain.get_interval(Reg::R0);
    let subtype: Option<&str> = match &cfg.ctx.attach_subtype {
        Some(t) => Some(t.as_str()),
        None => None,
    };
    match expected_retval_rule(cfg.ctx.prog_kind, subtype) {
        Some(rule) => lo < rule.lo || hi > rule.hi || (rule.require_known && (lo != hi
            || !matches!(state.types.get(Reg::R0), RegType::ScalarValue))),
        None => cfg.ctx.prog_kind.requires_strict_return_code() && (lo < 0 || hi > 1),
    }
}

/// What keeps a program or function from returning: a bad result, or something
/// it still holds.
pub open spec fn exit_fault(cfg: EnvConfig, s: Machine) -> Option<VerificationError> {
    let main = s.at_main_frame();
    let stack = s.current().stack;
    let baseline = if s.implicit_rcu_at_entry { 1int } else { 0int };
    if main && bad_return_value(cfg, s) {
        Some(VerificationError::InvalidReturnCode { pc: s.pc })
    } else if main && s.ty(Reg::R0) is NotInit && !cfg.ctx.entry_returns_void {
        Some(VerificationError::RegisterNotReadable { pc: s.pc, reg: Reg::R0 })
    } else if main && s.refs.len() > 0 {
        Some(VerificationError::UnreleasedReference)
    } else if stack.iters.len() > 0 {
        Some(VerificationError::UnreleasedIterator)
    } else if stack.leaks_dynptr() {
        Some(VerificationError::UnreleasedDynptr)
    } else if main && s.lock_depth > 0 {
        Some(VerificationError::UnreleasedLock)
    } else if s.rcu_read_depth > baseline {
        Some(VerificationError::UnreleasedRcuRead)
    } else if main && s.preempt_depth > 0 {
        Some(VerificationError::ExitInPreemptDisabled)
    } else if main && s.irq_depth > 0 {
        Some(
            VerificationError::IrqState {
                pc: s.pc,
                reason: "BPF_EXIT in main prog inside bpf_local_irq_save-ed region",
            },
        )
    } else if stack.irq_flags.len() > 0 {
        Some(
            VerificationError::IrqState {
                pc: s.pc,
                reason: "leaked irq flag stack slot at exit",
            },
        )
    } else if s.frames.len() > constants::BPF_MAX_CALL_FRAMES {
        Some(VerificationError::MaxCallDepthExceeded { pc: s.pc })
    } else if !main && s.ty(Reg::R0) is PtrToStack {
        Some(VerificationError::CannotReturnStackPointer { pc: s.pc })
    } else {
        None
    }
}

fn find_exit_fault(cfg: &EnvConfig, state: &State) -> (r: Option<VerificationError>)
    requires
        state.wf(),
    ensures
        r == exit_fault(*cfg, state@),
{
    let main: bool = state.at_main_frame();
    let pc: usize = state.pc;
    let r0: RegType = state.types.get(Reg::R0);
    let stack: &StackState = state.stack_at(state.current_frame_level());
    let baseline: u32 = if state.implicit_rcu_at_entry { 1 } else { 0 };
    if main && is_bad_return_value(cfg, state) {
        Some(VerificationError::InvalidReturnCode { pc })
    } else if main && matches!(r0, RegType::NotInit) && !cfg.ctx.entry_returns_void {
        Some(VerificationError::RegisterNotReadable { pc, reg: Reg::R0 })
    } else if main && state.active_refs.len() > 0 {
        Some(VerificationError::UnreleasedReference)
    } else if stack.has_active_iterators() {
        Some(VerificationError::UnreleasedIterator)
    } else if stack.has_unreleased_dynptr_refs() {
        Some(VerificationError::UnreleasedDynptr)
    } else if main && state.lock_depth > 0 {
        Some(VerificationError::UnreleasedLock)
    } else if state.rcu_read_depth > baseline {
        Some(VerificationError::UnreleasedRcuRead)
    } else if main && state.preempt_depth > 0 {
        Some(VerificationError::ExitInPreemptDisabled)
    } else if main && state.irq_depth > 0 {
        Some(
            VerificationError::IrqState {
                pc,
                reason: "BPF_EXIT in main prog inside bpf_local_irq_save-ed region",
            },
        )
    } else if stack.has_unreleased_irq_flags() {
        Some(VerificationError::IrqState { pc, reason: "leaked irq flag stack slot at exit" })
    } else if state.num_frames() > constants::BPF_MAX_CALL_FRAMES {
        Some(VerificationError::MaxCallDepthExceeded { pc })
    } else if !main && matches!(r0, RegType::PtrToStack { .. }) {
        Some(VerificationError::CannotReturnStackPointer { pc })
    } else {
        None
    }
}

/// The domain after a call returned a value in `[lo, hi]` that stands in a
/// known relation to a packet anchor.
pub open spec fn returned_domain(
    caller: Numeric,
    callee: Numeric,
    range: (i64, i64),
    anchor: (Option<Reg>, Option<i64>, Option<i64>),
) -> Numeric {
    let d = caller.adopt_anchors(callee).forget(Reg::R0).assign_interval(
        Reg::R0,
        range.0,
        range.1,
    );
    match anchor.0 {
        Some(a) => {
            let d = match anchor.2 {
                Some(h) => d.add_constraint(Reg::R0, a, h),
                None => d,
            };
            let d = match anchor.1 {
                Some(l) => d.add_constraint(a, Reg::R0, l),
                None => d,
            };
            d.close()
        },
        None => d,
    }
}

fn return_value(
    domain: &mut NumericDomain,
    callee: &NumericDomain,
    range: (i64, i64),
    anchor: (Option<Reg>, Option<i64>, Option<i64>),
)
    requires
        old(domain).wf(),
        callee.wf(),
        old(domain)@ is Zone <==> callee@ is Zone,
    ensures
        final(domain).wf(),
        final(domain)@ is Zone <==> old(domain)@ is Zone,
        final(domain)@ == returned_domain(old(domain)@, callee@, range, anchor),
{
    domain.preserve_anchor_constraints(callee);
    domain.forget(Reg::R0);
    domain.assign_interval(Reg::R0, range.0, range.1);
    if let Some(a) = anchor.0 {
        if let Some(h) = anchor.2 {
            domain.add_constraint(Reg::R0, a, h);
        }
        if let Some(l) = anchor.1 {
            domain.add_constraint(a, Reg::R0, l);
        }
        domain.close();
    }
}

/// The domain with a pointer's place relative to its anchor replaced.
pub open spec fn placed(d: Numeric, r: Reg, p: PtrOffset) -> Numeric {
    match d {
        Numeric::Zone(_) => d,
        Numeric::Interval(s) => Numeric::Interval(
            s.set(r, (RegInterval { ptr_offset: Some(p), ..s.reg(r) })),
        ),
    }
}

fn place(domain: &mut NumericDomain, r: Reg, p: PtrOffset)
    requires
        old(domain).wf(),
    ensures
        final(domain).wf(),
        final(domain)@ is Zone <==> old(domain)@ is Zone,
        final(domain)@ == placed(old(domain)@, r, p),
{
    match domain {
        NumericDomain::Zone(_) => {},
        NumericDomain::Interval(s) => s.set_ptr_offset(r, Some(p)),
    }
}

/// The returned packet pointer keeps its place.
pub open spec fn result_placed(d: Numeric, t: RegType, p: Option<PtrOffset>) -> Numeric {
    match p {
        Some(x) => if t.is_packet_ptr() {
            placed(d, Reg::R0, x)
        } else {
            d
        },
        None => d,
    }
}

fn restore_interval_ptr_offset_from_return(
    domain: &mut NumericDomain,
    t: RegType,
    p: Option<PtrOffset>,
)
    requires
        old(domain).wf(),
    ensures
        final(domain).wf(),
        final(domain)@ is Zone <==> old(domain)@ is Zone,
        final(domain)@ == result_placed(old(domain)@, t, p),
{
    if let Some(x) = p {
        if t.is_packet_ptr() {
            place(domain, Reg::R0, x);
        }
    }
}

/// Two places are the same, and the second is known to be safe further.
pub open spec fn spec_reaches_further(a: PtrOffset, b: PtrOffset) -> bool {
    a.anchor == b.anchor && a.off == b.off && a.var_off == b.var_off && a.id == b.id && match (
        a.range,
        b.range,
    ) {
        (Some(x), Some(y)) => y > x,
        (None, Some(_)) => true,
        _ => false,
    }
}

/// Whether two places are the same, and the second is known to be safe further.
#[verifier::when_used_as_spec(spec_reaches_further)]
pub fn reaches_further(a: PtrOffset, b: PtrOffset) -> (r: bool)
    ensures
        r == spec_reaches_further(a, b),
{
    a.anchor == b.anchor && a.off == b.off && a.var_off == b.var_off && a.id == b.id && match (
        a.range,
        b.range,
    ) {
        (Some(x), Some(y)) => y > x,
        (None, Some(_)) => true,
        _ => false,
    }
}

/// What a caller learns of a packet pointer from a callee that held the same
/// one in the same register.
pub open spec fn learned(
    d: Numeric,
    types: Seq<RegType>,
    r: Reg,
    callee_type: RegType,
    callee_place: Option<PtrOffset>,
) -> Numeric {
    match (d, callee_place) {
        (Numeric::Interval(s), Some(b)) => match s.reg(r).ptr_offset {
            Some(a) => if types[r.idx() as int].is_packet_ptr() && types[r.idx() as int]
                == callee_type && reaches_further(a, b) {
                placed(d, r, b)
            } else {
                d
            },
            None => d,
        },
        _ => d,
    }
}

fn restore_callee_interval_packet_info(
    domain: &mut NumericDomain,
    types: &TypeState,
    r: Reg,
    callee_type: RegType,
    callee_place: Option<PtrOffset>,
)
    requires
        old(domain).wf(),
        types.wf(),
    ensures
        final(domain).wf(),
        final(domain)@ is Zone <==> old(domain)@ is Zone,
        final(domain)@ == learned(old(domain)@, types@, r, callee_type, callee_place),
{
    if let Some(b) = callee_place {
        let mine: Option<PtrOffset> = match domain {
            NumericDomain::Zone(_) => None,
            NumericDomain::Interval(s) => match s.get_ptr_offset(r) {
                Some(p) => Some(*p),
                None => None,
            },
        };
        if let Some(a) = mine {
            let same: bool = match (types.get(r), callee_type) {
                (RegType::PtrToPacket, RegType::PtrToPacket) => true,
                (RegType::PtrToPacketMeta, RegType::PtrToPacketMeta) => true,
                (RegType::PtrToPacketEnd, RegType::PtrToPacketEnd) => true,
                _ => false,
            };
            if same && reaches_further(a, b) {
                place(domain, r, b);
            }
        }
    }
}

/// The caller's domain after a function returned.
#[verifier::opaque]
pub open spec fn domain_after_return(s: Machine, f: FrameView) -> Numeric {
    let d = returned_domain(
        f.caller_domain,
        s.domain,
        s.domain.range(Reg::R0),
        s.anchor_info(Reg::R0),
    );
    let d = result_placed(d, s.ty(Reg::R0), s.ptr_offset(Reg::R0));
    let types = f.caller_types.update(1, s.ty(Reg::R0));
    let d = learned(d, types, Reg::R6, s.ty(Reg::R6), s.ptr_offset(Reg::R6));
    let d = learned(d, types, Reg::R7, s.ty(Reg::R7), s.ptr_offset(Reg::R7));
    let d = learned(d, types, Reg::R8, s.ty(Reg::R8), s.ptr_offset(Reg::R8));
    learned(d, types, Reg::R9, s.ty(Reg::R9), s.ptr_offset(Reg::R9))
}

/// The caller's state after a function returned: its own registers, but for the
/// result, and its own frame.
pub open spec fn returned(s: Machine) -> Machine {
    let f = s.current();
    Machine {
        pc: f.return_pc,
        types: f.caller_types.update(1, s.ty(Reg::R0)).update(
            11,
            RegType::PtrToStack { frame_level: FrameLevel { index: (s.frames.len() - 2) as usize } },
        ),
        domain: domain_after_return(s, f),
        tnums: f.caller_tnums.update(1, s.tnums[1]),
        rcu_read_depth: match f.caller_rcu_read_depth_snapshot {
            Some(d) => d,
            None => s.rcu_read_depth,
        },
        frames: s.frames.drop_last(),
        ..s
    }
}

#[verifier::rlimit(60)]
fn return_from_function(state: State) -> (r: Option<State>)
    requires
        state.wf(),
    ensures
        match r {
            Some(t) => !state@.at_main_frame() && t.wf() && t@ == returned(state@),
            None => state@.at_main_frame(),
        },
{
    proof {
        reveal(domain_after_return);
    }
    let mut state: State = state;
    let ghost s = state@;
    match state.pop_frame() {
        Some(f) => {
            let f: Frame = f;
            let t0: RegType = state.types.get(Reg::R0);
            let n0: Tnum = state.get_tnum(Reg::R0);
            let range: (i64, i64) = state.domain.get_interval(Reg::R0);
            let anchor = state.save_anchor_info(Reg::R0);
            let p0: Option<PtrOffset> = state.save_interval_ptr_offset(Reg::R0);
            let t6: RegType = state.types.get(Reg::R6);
            let t7: RegType = state.types.get(Reg::R7);
            let t8: RegType = state.types.get(Reg::R8);
            let t9: RegType = state.types.get(Reg::R9);
            let p6: Option<PtrOffset> = state.save_interval_ptr_offset(Reg::R6);
            let p7: Option<PtrOffset> = state.save_interval_ptr_offset(Reg::R7);
            let p8: Option<PtrOffset> = state.save_interval_ptr_offset(Reg::R8);
            let p9: Option<PtrOffset> = state.save_interval_ptr_offset(Reg::R9);
            let ghost fv = f@;
            let mut types: TypeState = f.caller_types;
            types.set(Reg::R0, t0);
            let mut domain: NumericDomain = f.caller_domain;
            return_value(&mut domain, &state.domain, range, anchor);
            restore_interval_ptr_offset_from_return(&mut domain, t0, p0);
            restore_callee_interval_packet_info(&mut domain, &types, Reg::R6, t6, p6);
            restore_callee_interval_packet_info(&mut domain, &types, Reg::R7, t7, p7);
            restore_callee_interval_packet_info(&mut domain, &types, Reg::R8, t8, p8);
            restore_callee_interval_packet_info(&mut domain, &types, Reg::R9, t9, p9);
            assert(domain@ == domain_after_return(s, fv));
            let frame_level: FrameLevel = state.current_frame_level();
            types.set(Reg::R10, RegType::PtrToStack { frame_level });
            let mut tnums: Vec<Tnum> = f.caller_tnums;
            tnums[1] = n0;
            if let Some(d) = f.caller_rcu_read_depth_snapshot {
                state.rcu_read_depth = d;
            }
            state.types = types;
            state.domain = domain;
            state.tnums = tnums;
            state.pc = f.return_pc;
            Some(state)
        },
        None => None,
    }
}

/// A callback knows a frame that will be there once it returned.
pub open spec fn callback_returns(s: Machine) -> bool {
    s.current().callback matches Some(c) ==> (c.caller_level matches Some(i) ==> i + 1
        < s.frames.len())
}

/// A register holds a number of which nothing is known.
pub open spec fn number_unknown(s: Machine, r: Reg) -> Machine {
    s.set_type(r, RegType::ScalarValue).forget(r).set_tnum(r, Tnum::unknown()).set_note(
        r,
        Notes { scalar_id: None, ..s.note(r) },
    )
}

fn make_unknown(state: &mut State, r: Reg)
    requires
        old(state).wf(),
        !r.is_anchor(),
    ensures
        final(state).wf(),
        final(state)@ == number_unknown(old(state)@, r),
{
    state.set_type(r, RegType::ScalarValue);
    state.forget(r);
    state.set_tnum(r, Tnum::unknown());
    state.clear_scalar_id(r);
}

/// The caller's registers after a callback returned: R0 is the helper's result,
/// argument registers are numbers.
pub open spec fn callback_registers(s: Machine, f: FrameView) -> Machine {
    let c = f.callback->Some_0;
    let t = Machine {
        types: f.caller_types,
        domain: f.caller_domain,
        tnums: f.caller_tnums,
        frames: s.frames.drop_last(),
        ..s
    };
    let t = t.set_type(Reg::R0, RegType::ScalarValue).with_domain(
        t.domain.assign_interval(Reg::R0, c.result.0, c.result.1),
    ).set_tnum(Reg::R0, Tnum::unknown()).set_note(
        Reg::R0,
        Notes { scalar_id: None, ..t.note(Reg::R0) },
    );
    number_unknown(
        number_unknown(
            number_unknown(number_unknown(number_unknown(t, Reg::R1), Reg::R2), Reg::R3),
            Reg::R4,
        ),
        Reg::R5,
    )
}

/// The caller's stack after a callback that may run again: what it changed, or
/// may change, is not known.
pub open spec fn callback_stack(s: Machine, f: FrameView) -> Machine {
    let c = f.callback->Some_0;
    match (c.snapshot, c.caller_level) {
        (Some(snap), Some(i)) => if c.should_widen {
            let level = FrameLevel { index: i };
            s.with_stack(level, s.stack_at(level).blur_changed(snap).blur_all(c.writeable))
        } else {
            s
        },
        _ => s,
    }
}

/// The state after a callback returned to the helper that called it.
pub open spec fn callback_returned(s: Machine) -> Machine {
    let f = s.current();
    callback_stack(callback_registers(s, f), f).at(f.return_pc as int)
}

fn restore_callback_registers(state: &mut State, result: (i64, i64))
    requires
        old(state).wf(),
    ensures
        final(state).wf(),
        final(state)@ == ({
            let t = old(state)@;
            let t = t.set_type(Reg::R0, RegType::ScalarValue).with_domain(
                t.domain.assign_interval(Reg::R0, result.0, result.1),
            ).set_tnum(Reg::R0, Tnum::unknown()).set_note(
                Reg::R0,
                Notes { scalar_id: None, ..t.note(Reg::R0) },
            );
            number_unknown(
                number_unknown(
                    number_unknown(number_unknown(number_unknown(t, Reg::R1), Reg::R2), Reg::R3),
                    Reg::R4,
                ),
                Reg::R5,
            )
        }),
{
    state.set_type(Reg::R0, RegType::ScalarValue);
    state.domain.assign_interval(Reg::R0, result.0, result.1);
    state.set_tnum(Reg::R0, Tnum::unknown());
    state.clear_scalar_id(Reg::R0);
    make_unknown(state, Reg::R1);
    make_unknown(state, Reg::R2);
    make_unknown(state, Reg::R3);
    make_unknown(state, Reg::R4);
    make_unknown(state, Reg::R5);
}

fn blur_callback_writes(state: &mut State, level: FrameLevel, snap: &StackState, writeable: &Vec<i16>)
    requires
        old(state).wf(),
        snap.wf(),
        level.index < old(state)@.frames.len(),
    ensures
        final(state).wf(),
        final(state)@ == old(state)@.with_stack(
            level,
            old(state)@.stack_at(level).blur_changed(snap@).blur_all(writeable@),
        ),
{
    let mut stack: StackState = state.take_stack(level);
    stack.invalidate_changed(snap);
    let ghost before = stack@;
    let mut i: usize = 0;
    while i < writeable.len()
        invariant
            i <= writeable@.len(),
            stack.wf(),
            stack@ == before.blur_all(writeable@.take(i as int)),
        decreases writeable@.len() - i,
    {
        assert(writeable@.take(i + 1).drop_last() =~= writeable@.take(i as int));
        stack.invalidate_slot(writeable[i]);
        i = i + 1;
    }
    assert(writeable@.take(writeable@.len() as int) =~= writeable@);
    state.set_stack(level, stack);
    assert(state@.frames =~= old(state)@.with_stack(
        level,
        old(state)@.stack_at(level).blur_changed(snap@).blur_all(writeable@),
    ).frames);
}

/// Returns from a callback to the helper that called it. The second part says
/// against which explored state to widen.
pub fn cb_exit_propagate(cfg: &EnvConfig, state: State) -> (r: (Option<State>, Option<usize>))
    requires
        state.wf(),
        state@.current().callback is Some,
        callback_returns(state@),
    ensures
        match r.0 {
            Some(t) => !state@.at_main_frame() && t.wf() && t@ == callback_returned(state@),
            None => state@.at_main_frame(),
        },
        r.1 == if !state@.at_main_frame() && state@.current().callback->Some_0.should_widen {
            second_last(cfg.explored@, state@.current().return_pc)
        } else {
            None
        },
{
    let mut state: State = state;
    let ghost s = state@;
    match state.pop_frame() {
        Some(f) => {
            let f: Frame = f;
            let ghost fv = f@;
            let return_pc: usize = f.return_pc;
            state.types = f.caller_types;
            state.domain = f.caller_domain;
            state.tnums = f.caller_tnums;
            match f.callback {
                Some(c) => {
                    let c: Callback = c;
                    restore_callback_registers(&mut state, c.result);
                    assert(state@ == callback_registers(s, fv));
                    if c.should_widen {
                        if let Some(i) = c.caller_level {
                            if let Some(snap) = &c.snapshot {
                                blur_callback_writes(
                                    &mut state,
                                    FrameLevel { index: i },
                                    snap,
                                    &c.writeable,
                                );
                            }
                        }
                    }
                    let widen: Option<usize> = if c.should_widen {
                        previous_visit(&cfg.explored, return_pc)
                    } else {
                        None
                    };
                    state.go(return_pc);
                    (Some(state), widen)
                },
                None => (None, None),
            }
        },
        None => (None, None),
    }
}

/// Helpers whose callbacks may only return 0 or 1.
pub open spec fn callback_returns_flag(helper: u32) -> bool {
    helper == constants::BPF_LOOP || helper == constants::BPF_FOR_EACH_MAP_ELEM || helper
        == constants::BPF_USER_RINGBUF_DRAIN
}

/// A callback returns something it may not.
pub open spec fn bad_callback_return(s: Machine) -> bool {
    let (lo, hi) = s.domain.range(Reg::R0);
    callback_returns_flag(s.current().callback->Some_0.helper) && (lo < 0 || hi > 1)
}

/// The report that the exact value of R0 matters.
pub open spec fn result_marked(v: EnvView, s: Machine) -> EnvView {
    match s.history_idx {
        Some(h) => v.sink(h, s.parent_cache_id, Reg::R0),
        None => v,
    }
}

/// The effect of a return from a callback.
pub open spec fn callback_exit_step(cfg: EnvConfig, v: EnvView, s: Machine) -> (EnvView, Outcome) {
    let error = VerificationError::InvalidReturnCode { pc: s.pc };
    if !(s.ty(Reg::R0) is ScalarValue) {
        (v.fail(error), single(None))
    } else {
        let v = result_marked(v, s);
        if bad_callback_return(s) {
            (v.fail(error), single(None))
        } else if s.at_main_frame() {
            (v, single(None))
        } else {
            (
                v,
                Outcome::Next {
                    states: seq![callback_returned(s)],
                    widen_from: if s.current().callback->Some_0.should_widen {
                        second_last(cfg.explored@, s.current().return_pc)
                    } else {
                        None
                    },
                },
            )
        }
    }
}

/// The effect of a return.
#[verifier::opaque]
pub open spec fn exit_step(cfg: EnvConfig, v: EnvView, s: Machine) -> (EnvView, Outcome) {
    if bad_exception_return(cfg, s) {
        (v.fail(VerificationError::InvalidReturnCode { pc: s.pc }), single(None))
    } else {
        let v = if s.at_main_frame() { result_marked(v, s) } else { v };
        match exit_fault(cfg, s) {
            Some(e) => (v.fail(e), single(None)),
            None => if s.current().callback is Some {
                callback_exit_step(cfg, v, s)
            } else if s.at_main_frame() {
                (v, single(None))
            } else {
                (v, single(Some(returned(s))))
            },
        }
    }
}

fn next(states: Vec<State>) -> (r: Step)
    ensures
        r == (Step::Next { states, widen_from: None }),
{
    Step::Next { states, widen_from: None }
}

fn mark_result(env: &mut VerifierEnv, state: &State)
    ensures
        final(env).cfg == old(env).cfg,
        final(env)@ == result_marked(old(env)@, state@),
{
    if let Some(h) = state.history_idx {
        env.mark_chain_precision_backward(h, state.parent_cache_id, Reg::R0);
    }
}

fn exit_callback(env: &mut VerifierEnv, state: State, helper: u32) -> (r: Step)
    requires
        state.wf(),
        callback_returns(state@),
        state@.current().callback matches Some(c) && c.helper == helper,
    ensures
        final(env).cfg == old(env).cfg,
        final(env)@ == callback_exit_step(old(env).cfg, old(env)@, state@).0,
        amounts_to(r, callback_exit_step(old(env).cfg, old(env)@, state@).1),
{
    let pc: usize = state.pc;
    if !matches!(state.types.get(Reg::R0), RegType::ScalarValue) {
        env.fail(VerificationError::InvalidReturnCode { pc });
        return next(Vec::new());
    }
    mark_result(env, &state);
    if helper == constants::BPF_LOOP || helper == constants::BPF_FOR_EACH_MAP_ELEM || helper
        == constants::BPF_USER_RINGBUF_DRAIN {
        let (lo, hi) = state.domain.get_interval(Reg::R0);
        if lo < 0 || hi > 1 {
            env.fail(VerificationError::InvalidReturnCode { pc });
            return next(Vec::new());
        }
    }
    let (after, widen_from) = cb_exit_propagate(&env.cfg, state);
    match after {
        Some(t) => Step::Next { states: one(t), widen_from },
        None => next(Vec::new()),
    }
}

/// Returns from the program, a function or a callback.
pub fn transfer_exit(env: &mut VerifierEnv, state: State) -> (r: Step)
    requires
        state.wf(),
        callback_returns(state@),
    ensures
        final(env).cfg == old(env).cfg,
        final(env)@ == exit_step(old(env).cfg, old(env)@, state@).0,
        amounts_to(r, exit_step(old(env).cfg, old(env)@, state@).1),
{
    proof {
        reveal(exit_step);
    }
    let pc: usize = state.pc;
    let main: bool = state.at_main_frame();
    if env.cfg.analyzing_exception_cb && main && (text_is(&env.cfg.ctx.attach_flavor, "fentry")
        || text_is(&env.cfg.ctx.attach_flavor, "fexit")) {
        let (lo, hi) = state.domain.get_interval(Reg::R0);
        if lo != 0 || hi != 0 {
            env.fail(VerificationError::InvalidReturnCode { pc });
            return next(Vec::new());
        }
    }
    if main {
        mark_result(env, &state);
    }
    if let Some(e) = find_exit_fault(&env.cfg, &state) {
        env.fail(e);
        return next(Vec::new());
    }
    let helper: Option<u32> = match &state.frames[state.frames.len() - 1].callback {
        Some(c) => Some(c.helper),
        None => None,
    };
    if let Some(h) = helper {
        return exit_callback(env, state, h);
    }
    match return_from_function(state) {
        Some(t) => next(one(t)),
        None => next(Vec::new()),
    }
}

/// The state after one of the bounded jumps of a program was counted.
pub open spec fn counted(s: Machine, pc: int, budget: int) -> Machine {
    Machine {
        goto_budget: budget as u32,
        may_goto_depth: if s.may_goto_depth == u32::MAX {
            u32::MAX
        } else {
            (s.may_goto_depth + 1) as u32
        },
        ..s
    }.at(pc)
}

/// The outcome of a bounded jump: both ways, or only the way on once the budget
/// is used up.
#[verifier::opaque]
pub open spec fn may_goto_step(cfg: EnvConfig, s: Machine, target: usize) -> Outcome {
    let widen_from = second_last(cfg.explored@, s.pc);
    if s.goto_budget == 0 {
        Outcome::Next { states: seq![counted(s, s.pc + 1, 0)], widen_from }
    } else {
        Outcome::Next {
            states: seq![
                counted(s, target as int, s.goto_budget - 1),
                counted(s, s.pc + 1, s.goto_budget - 1),
            ],
            widen_from,
        }
    }
}

fn count_jump(state: &mut State, pc: usize, budget: u32)
    requires
        old(state).wf(),
    ensures
        final(state).wf(),
        final(state)@ == counted(old(state)@, pc as int, budget as int),
{
    state.pc = pc;
    state.goto_budget = budget;
    state.may_goto_depth = if state.may_goto_depth == u32::MAX {
        u32::MAX
    } else {
        state.may_goto_depth + 1
    };
}

fn transfer_may_goto(cfg: &EnvConfig, state: State, target: usize) -> (r: Step)
    requires
        state.wf(),
        state@.pc < usize::MAX,
    ensures
        amounts_to(r, may_goto_step(*cfg, state@, target)),
{
    proof {
        reveal(may_goto_step);
    }
    let mut fall: State = state;
    let pc: usize = fall.pc;
    let widen_from: Option<usize> = previous_visit(&cfg.explored, pc);
    if fall.goto_budget == 0 {
        count_jump(&mut fall, pc + 1, 0);
        return Step::Next { states: one(fall), widen_from };
    }
    let budget: u32 = fall.goto_budget - 1;
    let mut taken: State = fall.clone();
    count_jump(&mut taken, target, budget);
    count_jump(&mut fall, pc + 1, budget);
    let mut states: Vec<State> = Vec::new();
    states.push(taken);
    states.push(fall);
    Step::Next { states, widen_from }
}

/// The report that an instruction was reached.
pub open spec fn reached(v: EnvView, s: Machine) -> EnvView {
    if s.pc < v.seen.len() {
        EnvView { seen: v.seen.update(s.pc as int, true), ..v }
    } else {
        v
    }
}

/// What an instruction makes of a state, and what it reports.
pub open spec fn instr_step(cfg: EnvConfig, v: EnvView, s: Machine, i: Instr) -> (EnvView, Outcome) {
    let v = reached(v, s);
    let pending = |work: Work| Outcome::Pending { state: s, work };
    match i {
        Instr::Alu { width, op, dst, src } => (v, pending(Work::Alu { width, op, dst, src })),
        Instr::MovSx { width, src_bits, dst, src } => (
            v,
            pending(Work::MovSx { width, src_bits, dst, src }),
        ),
        Instr::If { width, left, op, right, target } => (
            v,
            pending(Work::If { width, left, op, right, target }),
        ),
        Instr::Call { kind: CallKind::Helper { id } } => (v, pending(Work::Helper { id })),
        Instr::Call { kind: CallKind::Kfunc { btf_id, .. } } => (v, pending(Work::Kfunc { btf_id })),
        Instr::CallRel { target } => (v, pending(Work::CallRel { target })),
        Instr::Endian { dst, op, size, width } => (
            v,
            single(Some(endian_step(s, dst, op, size, width))),
        ),
        Instr::Load { size, dst, base, off } => {
            let (v, t) = load_step(cfg, v, s, size, dst, base, off);
            (v, single(t))
        },
        Instr::LoadSx { size, dst, base, off } => {
            let (v, t) = load_sx_step(cfg, v, s, size, dst, base, off);
            (v, single(t))
        },
        Instr::Store { size, base, off, src } => {
            let (v, t) = store_step(cfg, v, s, size, base, off, src);
            (v, single(t))
        },
        Instr::LoadAcq { size, dst, base, off } => if atomics_forbidden(s.ty(base)) {
            (v.fail(atomics_error(s)), single(None))
        } else {
            let (v, t) = load_step(cfg, v, s, size, dst, base, off);
            (v, single(t))
        },
        Instr::StoreRel { size, base, off, src } => if atomics_forbidden(s.ty(base)) {
            (v.fail(atomics_error(s)), single(None))
        } else {
            let (v, t) = store_step(cfg, v, s, size, base, off, Operand::Reg(src));
            (v, single(t))
        },
        Instr::LoadPacket { size, mode, src, .. } => {
            let (v, t) = packet_load_step(v, s, size, mode, src);
            (v, single(t))
        },
        Instr::LoadMap { dst, kind, .. } => {
            let (v, t) = map_load_step(cfg, v, s, dst, kind);
            (v, single(t))
        },
        Instr::Atomic { op, size, fetch, base, off, src } => {
            let (v, t) = atomic_step(cfg, v, s, op, fetch, size, base, off, src);
            (v, single(t))
        },
        Instr::Jmp { target } => (v, single(Some(s.at(target as int)))),
        Instr::MayGoto { target } => (v, may_goto_step(cfg, s, target)),
        Instr::Exit => exit_step(cfg, v, s),
    }
}

/// An instruction writes only registers of the machine, and its memory operand,
/// if it points into a stack, points into a frame that exists.
pub open spec fn applicable(s: Machine, i: Instr) -> bool {
    match i {
        Instr::Endian { dst, .. } => !dst.is_anchor(),
        Instr::Load { dst, base, .. } => !dst.is_anchor() && s.has_frame(base),
        Instr::LoadSx { dst, base, .. } => !dst.is_anchor() && s.has_frame(base),
        Instr::LoadAcq { dst, base, .. } => !dst.is_anchor() && s.has_frame(base),
        Instr::Store { base, .. } => s.has_frame(base),
        Instr::StoreRel { base, .. } => s.has_frame(base),
        Instr::LoadMap { dst, .. } => !dst.is_anchor(),
        Instr::Atomic { base, src, .. } => !src.is_anchor() && s.has_frame(base),
        Instr::Exit => callback_returns(s),
        _ => true,
    }
}

/// Applies an instruction to a state.
#[verifier::rlimit(60)]
pub fn transfer(env: &mut VerifierEnv, state: State, instr: Instr) -> (r: Step)
    requires
        state.wf(),
        applicable(state@, instr),
        state@.pc + 2 <= usize::MAX,
    ensures
        final(env).cfg == old(env).cfg,
        final(env)@ == instr_step(old(env).cfg, old(env)@, state@, instr).0,
        amounts_to(r, instr_step(old(env).cfg, old(env)@, state@, instr).1),
{
    let pc: usize = state.pc;
    if pc < env.seen.len() {
        env.seen[pc] = true;
    }
    match instr {
        Instr::Alu { width, op, dst, src } => Step::Pending {
            state,
            work: Work::Alu { width, op, dst, src },
        },
        Instr::MovSx { width, src_bits, dst, src } => Step::Pending {
            state,
            work: Work::MovSx { width, src_bits, dst, src },
        },
        Instr::If { width, left, op, right, target } => Step::Pending {
            state,
            work: Work::If { width, left, op, right, target },
        },
        Instr::Call { kind: CallKind::Helper { id } } => Step::Pending {
            state,
            work: Work::Helper { id },
        },
        Instr::Call { kind: CallKind::Kfunc { btf_id, .. } } => Step::Pending {
            state,
            work: Work::Kfunc { btf_id },
        },
        Instr::CallRel { target } => Step::Pending { state, work: Work::CallRel { target } },
        Instr::Endian { dst, op, size, width } => next(
            transfer_endian(state, dst, op, size, width),
        ),
        Instr::Load { size, dst, base, off } => next(
            transfer_load(env, state, size, dst, base, off),
        ),
        Instr::LoadSx { size, dst, base, off } => next(
            transfer_load_sx(env, state, size, dst, base, off),
        ),
        Instr::Store { size, base, off, src } => next(
            transfer_store(env, state, size, base, off, src),
        ),
        Instr::LoadAcq { size, dst, base, off } => {
            if reject_atomic_on_typed_ptr(env, &state, base) {
                return next(Vec::new());
            }
            next(transfer_load(env, state, size, dst, base, off))
        },
        Instr::StoreRel { size, base, off, src } => {
            if reject_atomic_on_typed_ptr(env, &state, base) {
                return next(Vec::new());
            }
            next(transfer_store(env, state, size, base, off, Operand::Reg(src)))
        },
        Instr::LoadPacket { size, mode, src, .. } => next(
            transfer_packet_load(env, state, size, mode, src),
        ),
        Instr::LoadMap { dst, kind, .. } => next(transfer_map_load(env, state, dst, kind)),
        Instr::Atomic { op, size, fetch, base, off, src } => next(
            transfer_atomic(env, state, op, fetch, size, base, off, src),
        ),
        Instr::Jmp { target } => {
            let mut state: State = state;
            state.go(target);
            next(one(state))
        },
        Instr::MayGoto { target } => transfer_may_goto(&env.cfg, state, target),
        Instr::Exit => transfer_exit(env, state),
    }
}

/// A program that returns while it holds a reference, a lock, an iterator, a
/// dynamic pointer or an irq flag is always reported, and goes no further.
pub proof fn law_nothing_is_held_at_exit(cfg: EnvConfig, v: EnvView, s: Machine)
    requires
        s.at_main_frame(),
        s.refs.len() > 0 || s.lock_depth > 0 || s.current().stack.iters.len() > 0
            || s.current().stack.leaks_dynptr() || s.current().stack.irq_flags.len() > 0
            || s.preempt_depth > 0 || s.irq_depth > 0,
    ensures
        exit_step(cfg, v, s).0.failures.len() > v.failures.len(),
        exit_step(cfg, v, s).1 == single(None),
{
    reveal(exit_step);
}

/// A program that returns has a result the kernel accepts: if nothing is
/// reported at its exit, every value R0 can have is in the range that holds for
/// the program's type.
pub proof fn law_accepted_results_are_in_range(
    cfg: EnvConfig,
    v: EnvView,
    s: Machine,
    rule: RetvalRule,
)
    requires
        s.at_main_frame(),
        retval_rule(
            cfg.ctx.prog_kind,
            match cfg.ctx.attach_subtype {
                Some(t) => Some(t@),
                None => None,
            },
        ) == Some(rule),
        exit_step(cfg, v, s).0.failures == v.failures,
    ensures
        rule.lo <= s.domain.range(Reg::R0).0,
        s.domain.range(Reg::R0).1 <= rule.hi,
        rule.require_known ==> s.domain.range(Reg::R0).0 == s.domain.range(Reg::R0).1,
{
    reveal(exit_step);
    assert forall|w: EnvView, e: VerificationError| w.failures == v.failures implies #[trigger] w.fail(
        e,
    ).failures != v.failures by {
        assert(w.fail(e).failures.len() == v.failures.len() + 1);
    }
}

/// A function's return leaves the caller exactly the frames it had.
pub proof fn law_return_restores_the_caller(s: Machine)
    requires
        s.frames.len() > 1,
        s.current().caller_types.len() == DBM_DIM,
    ensures
        returned(s).frames == s.frames.drop_last(),
        returned(s).pc == s.current().return_pc,
        forall|i: int|
            0 <= i < s.current().caller_types.len() && i != 1 && i != 11 ==> (#[trigger] returned(
                s,
            ).types[i]) == s.current().caller_types[i],
{
}

/// Bounded jumps end: each one lowers the budget until only the way on is left.
pub proof fn law_bounded_jumps_end(cfg: EnvConfig, s: Machine, target: usize)
    ensures
        may_goto_step(cfg, s, target) matches Outcome::Next { states, .. } && if s.goto_budget == 0 {
            states.len() == 1 && states[0].pc == (s.pc + 1) as usize
        } else {
            states.len() == 2 && states[0].goto_budget < s.goto_budget && states[1].goto_budget
                < s.goto_budget
        },
{
    reveal(may_goto_step);
}

} // verus!
