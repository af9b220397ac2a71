//! What each instruction comes to.
use crate::ast::instr::{CallKind, Instr};
use crate::ast::{MemSize, Operand};
use crate::domains::interval::state::Intervals;
use crate::domains::meaning::lie_within;
use crate::domains::numeric::Numeric;
use crate::machine::env::{EnvConfig, EnvView};
use crate::machine::reg::Reg;
use crate::machine::reg_types::RegType;
use crate::machine::state::Machine;
use crate::transfer::exits::{faulted, lemma_faults_are_heard, silent};
use crate::transfer::map_access::{map_rw_checked, targets};
use crate::transfer::memory::{load_step, store_step};
use crate::transfer::step::{exit_step, instr_step, reached, Outcome, Work};
use vstd::prelude::*;

verus! {

/// An instruction that was reached is remembered, and nothing else of the
/// report changes by that.
pub proof fn law_reached_instructions_are_remembered(v: EnvView, s: Machine, i: int)
    requires
        0 <= i < v.seen.len(),
    ensures
        reached(v, s).seen.len() == v.seen.len(),
        reached(v, s).seen[i] == (v.seen[i] || i == s.pc),
        silent(v, reached(v, s)),
        reached(v, s).ids == v.ids,
{
}

/// A jump only changes where the program goes on. What is left to others is
/// handed on as it is, in the state it was met in.
pub proof fn law_instructions_are_handed_on(cfg: EnvConfig, v: EnvView, s: Machine, i: Instr)
    ensures
        i matches Instr::Jmp { target } ==> (instr_step(cfg, v, s, i).1 matches Outcome::Next {
            states,
            widen_from,
        } && states.len() == 1 && states[0] == (Machine { pc: target, ..s }) && widen_from is None),
        i matches Instr::Alu { width, op, dst, src } ==> (instr_step(
            cfg,
            v,
            s,
            i,
        ).1 matches Outcome::Pending { state, work } && state == s && work == (Work::Alu {
            width,
            op,
            dst,
            src,
        })),
        i matches Instr::If { width, left, op, right, target } ==> (instr_step(
            cfg,
            v,
            s,
            i,
        ).1 matches Outcome::Pending { state, work } && state == s && work == (Work::If {
            width,
            left,
            op,
            right,
            target,
        })),
        i matches Instr::CallRel { target } ==> (instr_step(
            cfg,
            v,
            s,
            i,
        ).1 matches Outcome::Pending { state, work } && state == s && work == (Work::CallRel {
            target,
        })),
        i matches Instr::Call { kind: CallKind::Helper { id } } ==> (instr_step(
            cfg,
            v,
            s,
            i,
        ).1 matches Outcome::Pending { state, work } && state == s && work == (Work::Helper { id })),
        i is Exit ==> instr_step(cfg, v, s, i) == exit_step(cfg, reached(v, s), s),
        i is Alu || i is If || i is Call || i is CallRel || i is Jmp || i is MovSx || i is Endian
            || i is MayGoto ==> silent(v, instr_step(cfg, v, s, i).0),
{
    reveal(instr_step);
}

/// Ordered loads and stores never go to the context, the packet or the keys of
/// a flow; elsewhere they do what plain ones do.
pub proof fn law_ordered_accesses_stay_off_packets(
    cfg: EnvConfig,
    v: EnvView,
    s: Machine,
    size: MemSize,
    dst: Reg,
    base: Reg,
    off: i16,
    src: Reg,
)
    ensures
        ({
            let t = s.ty(base);
            let off_limits = t is PtrToCtx || t is PtrToPacket || t is PtrToPacketMeta
                || t is PtrToPacketEnd || match t {
                RegType::PtrToBtfId { struct_name, .. } => struct_name@ == "bpf_flow_keys"@,
                _ => false,
            };
            let load = instr_step(cfg, v, s, Instr::LoadAcq { size, dst, base, off });
            let store = instr_step(cfg, v, s, Instr::StoreRel { size, base, off, src });
            &&& off_limits ==> faulted(v, load.0) && faulted(v, store.0)
            &&& off_limits ==> (load.1 matches Outcome::Next { states, .. } && states.len() == 0)
            &&& off_limits ==> (store.1 matches Outcome::Next { states, .. } && states.len() == 0)
            &&& !off_limits ==> load == instr_step(cfg, v, s, Instr::Load { size, dst, base, off })
            &&& !off_limits ==> store == instr_step(
                cfg,
                v,
                s,
                Instr::Store { size, base, off, src: Operand::Reg(src) },
            )
        }),
{
    reveal(instr_step);
    lemma_faults_are_heard(v);
}

/// A load or a store leads to the one state that its check and its effect leave,
/// or nowhere.
pub proof fn law_accesses_lead_to_one_state(
    cfg: EnvConfig,
    v: EnvView,
    s: Machine,
    size: MemSize,
    dst: Reg,
    base: Reg,
    off: i16,
    src: Operand,
)
    ensures
        ({
            let (w, o) = instr_step(cfg, v, s, Instr::Load { size, dst, base, off });
            let (x, t) = load_step(cfg, reached(v, s), s, size, dst, base, off);
            &&& w == x
            &&& t matches Some(m) ==> (o matches Outcome::Next { states, .. } && states == seq![m])
            &&& t is None ==> (o matches Outcome::Next { states, .. } && states.len() == 0)
        }),
        ({
            let (w, o) = instr_step(cfg, v, s, Instr::Store { size, base, off, src });
            let (x, t) = store_step(cfg, reached(v, s), s, size, base, off, src);
            &&& w == x
            &&& t matches Some(m) ==> (o matches Outcome::Next { states, .. } && states == seq![m])
            &&& t is None ==> (o matches Outcome::Next { states, .. } && states.len() == 0)
        }),
{
    reveal(instr_step);
}

/// A helper does not write to a map that is read-only for programs, nor read
/// one that is write-only, and a map that is not there is reported.
pub proof fn law_helpers_respect_map_flags(
    cfg: EnvConfig,
    v: EnvView,
    idx: usize,
    pc: usize,
    is_write: bool,
)
    ensures
        idx >= cfg.ctx.map_defs@.len() ==> faulted(v, map_rw_checked(cfg, v, idx, pc, is_write)),
        idx < cfg.ctx.map_defs@.len() ==> (silent(v, map_rw_checked(cfg, v, idx, pc, is_write))
            <==> cfg.ctx.map_defs@[idx as int].map_flags != if is_write { 0x80u32 } else { 0x100 }),
{
    lemma_faults_are_heard(v);
}

/// What an access depends on is the pointer, if its place varies, and the
/// size, if it is not known.
pub proof fn law_accesses_depend_on_what_varies(s: Machine, base: Reg, size_reg: Option<Reg>, r: Reg)
    ensures
        targets(s, base, size_reg).contains(r) <==> (r == base && (s.ptr_offset(base) matches Some(
            p,
        ) && p.off != p.max_offset())) || (size_reg == Some(r) && s.domain.fixed(r) is None),
{
    let t = targets(s, base, size_reg);
    let a = if s.ptr_offset(base) matches Some(p) && p.off != p.max_offset() {
        seq![base]
    } else {
        Seq::<Reg>::empty()
    };
    if s.ptr_offset(base) matches Some(p) && p.off != p.max_offset() {
        assert(t[0] == base);
    }
    if let Some(q) = size_reg {
        if s.domain.fixed(q) is None {
            assert(t =~= a.push(q));
            assert(t[t.len() - 1] == q);
        }
    }
}

/// A program starts in one frame with an empty stack, holds nothing, and knows
/// nothing but what it is given.
pub proof fn law_programs_start_with_nothing(d: Numeric, types: Seq<RegType>)
    ensures
        ({
            let s = Machine::at_entry(d, types);
            &&& s.pc == 0
            &&& s.types == types
            &&& s.domain == d
            &&& s.frames.len() == 1
            &&& s.frames[0].stack.slots.dom() =~= Set::empty()
            &&& s.frames[0].stack.dynptrs.len() == 0
            &&& s.frames[0].stack.iters.len() == 0
            &&& s.frames[0].stack.irq_flags.len() == 0
            &&& s.frames[0].depth == 0
            &&& s.frames[0].callback is None
            &&& s.refs.len() == 0
            &&& s.lock_depth == 0
            &&& s.rcu_read_depth == 0
            &&& s.preempt_depth == 0
            &&& s.irq_depth == 0
            &&& forall|i: int| 0 <= i < 15 ==> (#[trigger] s.tnums[i]).mask == u64::MAX
            &&& s.tnums.len() == 15
        }),
{
}

/// At entry the intervals allow all values.
pub proof fn law_intervals_start_with_nothing(v: spec_fn(int) -> int)
    requires
        v(0) == 0,
        forall|i: int| 1 <= i < 15 ==> i64::MIN <= #[trigger] v(i) <= i64::MAX,
    ensures
        lie_within(Intervals::initial(), v),
{
    let s = Intervals::initial();
    assert forall|i: int|
        #![trigger s.regs[i]]
        1 <= i < 15 implies i64::MIN <= v(i) <= i64::MAX
        && crate::domains::interval::laws::admits(s.regs[i].bounds, v(i) as i64) && (
    s.regs[i].ptr_offset matches Some(p) ==> (crate::domains::meaning::has_a_place(p.anchor)
        ==> crate::domains::meaning::stands_at(p, v(i) - v(p.anchor.idx() as int)))) by {
        crate::domains::interval::laws::law_unknown_and_constant(0, v(i) as i64);
        assert(i64::MIN <= v(i) <= i64::MAX);
    }
    assert(s.regs[0].bounds == crate::domains::interval::state::ScalarBounds::constant(0));
}

} // verus!
