//! What is known of a program, a function or a callback that may return.
use crate::machine::env::{EnvConfig, EnvView};
use crate::machine::error::VerificationError;
use crate::machine::reg::Reg;
use crate::machine::reg_types::RegType;
use crate::machine::state::Machine;
use crate::transfer::step::{exit_step, Outcome};
use vstd::prelude::*;

verus! {

/// The check reported nothing.
pub open spec fn silent(before: EnvView, after: EnvView) -> bool {
    after.failures == before.failures
}

/// The check reported exactly one fault, after all earlier ones.
pub open spec fn faulted(before: EnvView, after: EnvView) -> bool {
    &&& after.failures.len() == before.failures.len() + 1
    &&& after.failures.drop_last() == before.failures
}

/// A reported fault is never silent.
pub proof fn lemma_faults_are_heard(v: EnvView)
    ensures
        forall|w: EnvView, e: VerificationError|
            w.failures == v.failures ==> faulted(v, #[trigger] w.fail(e)),
        forall|w: EnvView| #[trigger] faulted(v, w) ==> !silent(v, w),
{
    assert forall|w: EnvView, e: VerificationError| w.failures == v.failures implies faulted(
        v,
        #[trigger] w.fail(e),
    ) by {
        assert(w.fail(e).failures.drop_last() =~= v.failures);
    }
}

/// Every value R0 can have lies from `lo` to `hi`.
pub open spec fn result_within(s: Machine, lo: int, hi: int) -> bool {
    lo <= s.domain.range(Reg::R0).0 && s.domain.range(Reg::R0).1 <= hi
}

/// The part of the section name that refines the program's type begins with
/// the letters of `start`.
pub open spec fn subtype_begins(cfg: EnvConfig, start: Seq<char>) -> bool {
    match cfg.ctx.attach_subtype {
        Some(t) => t@.len() >= start.len() && forall|i: int|
            0 <= i < start.len() ==> t@[i] == start[i],
        None => false,
    }
}

/// The part of the section name that refines the program's type is `name`.
pub open spec fn subtype_is(cfg: EnvConfig, name: Seq<char>) -> bool {
    match cfg.ctx.attach_subtype {
        Some(t) => t@ == name,
        None => false,
    }
}

/// A cgroup program on packets or sockets, or on socket addresses with no
/// attach point of its own, that returns without a report returns 0 or 1.
pub proof fn law_strict_results_are_flags(cfg: EnvConfig, v: EnvView, s: Machine)
    requires
        s.frames.len() == 1,
        cfg.ctx.prog_kind is CgroupSkb || cfg.ctx.prog_kind is CgroupSock || (
        cfg.ctx.prog_kind is CgroupSockAddr && cfg.ctx.attach_subtype is None),
    ensures
        silent(v, exit_step(cfg, v, s).0) ==> 0 <= s.domain.range(Reg::R0).0 && s.domain.range(
            Reg::R0,
        ).1 <= 1,
        !result_within(s, 0, 1) ==> faulted(v, exit_step(cfg, v, s).0),
{
    reveal(exit_step);
    lemma_faults_are_heard(v);
}

/// What each kind of program returns if nothing is reported: 1 where an
/// address is only looked at, up to 3 where it is bound, else 0 or 1; an error
/// number or 0 from a security hook on memory protection; one known verdict
/// from a netfilter program; 0 or 1 from a probe session.
pub proof fn law_results_fit_the_attach_point(cfg: EnvConfig, v: EnvView, s: Machine)
    requires
        s.frames.len() == 1,
        silent(v, exit_step(cfg, v, s).0),
    ensures
        cfg.ctx.prog_kind is CgroupSockAddr && (subtype_begins(cfg, "recvmsg"@) || subtype_begins(
            cfg,
            "getpeername"@,
        ) || subtype_begins(cfg, "getsockname"@)) ==> result_within(s, 1, 1),
        cfg.ctx.prog_kind is CgroupSockAddr && subtype_begins(cfg, "bind"@) ==> result_within(
            s,
            0,
            3,
        ),
        cfg.ctx.prog_kind is CgroupSockAddr && !subtype_begins(cfg, "bind"@) ==> result_within(
            s,
            0,
            1,
        ),
        cfg.ctx.prog_kind is Lsm && subtype_is(cfg, "file_mprotect"@) ==> result_within(
            s,
            -4095,
            0,
        ),
        cfg.ctx.prog_kind is Lsm && subtype_is(cfg, "audit_rule_known"@) ==> result_within(
            s,
            0,
            1,
        ),
        cfg.ctx.prog_kind is Netfilter ==> s.ty(Reg::R0) is ScalarValue && (s.domain.range(Reg::R0)
            == (0i64, 0i64) || s.domain.range(Reg::R0) == (1i64, 1i64)),
        cfg.ctx.prog_kind is Kprobe && subtype_is(cfg, "session"@) ==> result_within(s, 0, 1),
{
    reveal(exit_step);
    lemma_faults_are_heard(v);
    reveal_strlit("bind");
    reveal_strlit("recvmsg");
    reveal_strlit("getpeername");
    reveal_strlit("getsockname");
    reveal_strlit("file_mprotect");
    reveal_strlit("audit_rule_known");
    reveal_strlit("file_free_security");
    reveal_strlit("task_free");
    reveal_strlit("inode_free_security");
    reveal_strlit("session");
    assert("bind"@[0] == 'b' && "recvmsg"@[0] == 'r' && "getpeername"@[0] == 'g'
        && "getsockname"@[0] == 'g');
    assert("file_mprotect"@[1] == 'i' && "audit_rule_known"@[1] == 'u');
    assert("file_mprotect"@.len() == 13 && "file_free_security"@.len() == 18 && "task_free"@.len()
        == 9 && "inode_free_security"@.len() == 19);
}

/// Nothing is in use that a returning program or function would leave behind.
pub open spec fn nothing_held(s: Machine) -> bool {
    let stack = s.frames.last().stack;
    &&& s.refs.len() == 0
    &&& s.lock_depth == 0
    &&& s.preempt_depth == 0
    &&& s.irq_depth == 0
    &&& s.rcu_read_depth <= if s.implicit_rcu_at_entry { 1int } else { 0int }
    &&& stack.iters.len() == 0
    &&& !stack.leaks_dynptr()
    &&& stack.irq_flags.len() == 0
}

/// A program that returns without a report holds nothing, has set its result,
/// and is done.
pub proof fn law_silent_exits_are_clean(cfg: EnvConfig, v: EnvView, s: Machine)
    requires
        s.frames.len() == 1,
        silent(v, exit_step(cfg, v, s).0),
    ensures
        nothing_held(s),
        s.ty(Reg::R0) is NotInit ==> cfg.ctx.entry_returns_void,
        exit_step(cfg, v, s).1 matches Outcome::Next { states, widen_from } && states.len() == 0
            && widen_from is None,
{
    reveal(exit_step);
    lemma_faults_are_heard(v);
}

/// A program that holds nothing and returns a known 0 is let go, unless only
/// 1 may be returned.
pub proof fn law_clean_exits_are_let_go(cfg: EnvConfig, v: EnvView, s: Machine)
    requires
        s.frames.len() == 1,
        nothing_held(s),
        s.frames.last().callback is None,
        s.ty(Reg::R0) is ScalarValue,
        s.domain.range(Reg::R0) == (0i64, 0i64),
        cfg.ctx.prog_kind is CgroupSockAddr ==> !subtype_begins(cfg, "recvmsg"@)
            && !subtype_begins(cfg, "getpeername"@) && !subtype_begins(cfg, "getsockname"@),
    ensures
        silent(v, exit_step(cfg, v, s).0),
{
    reveal(exit_step);
    lemma_faults_are_heard(v);
}

/// The kinds of programs whose result is not looked at may return anything.
pub proof fn law_other_results_are_free(cfg: EnvConfig, v: EnvView, s: Machine)
    requires
        s.frames.len() == 1,
        nothing_held(s),
        s.frames.last().callback is None,
        !(s.ty(Reg::R0) is NotInit),
        !cfg.analyzing_exception_cb,
        !(cfg.ctx.prog_kind is CgroupSkb),
        !(cfg.ctx.prog_kind is CgroupSock),
        !(cfg.ctx.prog_kind is CgroupSockAddr),
        !(cfg.ctx.prog_kind is Netfilter),
        !(cfg.ctx.prog_kind is Lsm),
        !(cfg.ctx.prog_kind is Kprobe),
    ensures
        silent(v, exit_step(cfg, v, s).0),
{
    reveal(exit_step);
}

/// A handler of exceptions in a program that traces a function's entry or exit
/// returns 0 if nothing is reported.
pub proof fn law_exception_handlers_return_zero(cfg: EnvConfig, v: EnvView, s: Machine)
    requires
        s.frames.len() == 1,
        cfg.analyzing_exception_cb,
        cfg.ctx.attach_flavor matches Some(f) && (f@ == "fentry"@ || f@ == "fexit"@),
        silent(v, exit_step(cfg, v, s).0),
    ensures
        result_within(s, 0, 0),
{
    reveal(exit_step);
    lemma_faults_are_heard(v);
}

/// A called function that returns without a report leaves no iterator, dynamic
/// pointer, irq flag or read lock behind, was called at most seven deep, and
/// returns no pointer into its own stack. Its caller goes on, at the address
/// and in the frame it called from, with its own registers and a result of the
/// type that was returned.
pub proof fn law_functions_return_to_their_callers(cfg: EnvConfig, v: EnvView, s: Machine)
    requires
        s.frames.len() > 1,
        s.frames.last().callback is None,
        s.frames.last().caller_types.len() == 15,
        s.frames.last().caller_tnums.len() == 15,
        silent(v, exit_step(cfg, v, s).0),
    ensures
        s.frames.len() <= 8,
        !(s.ty(Reg::R0) is PtrToStack),
        s.frames.last().stack.iters.len() == 0,
        !s.frames.last().stack.leaks_dynptr(),
        s.frames.last().stack.irq_flags.len() == 0,
        s.rcu_read_depth <= if s.implicit_rcu_at_entry { 1int } else { 0int },
        exit_step(cfg, v, s).1 matches Outcome::Next { states, widen_from } && states.len() == 1
            && widen_from is None && back_in_the_caller(s, states[0]),
{
    reveal(exit_step);
    lemma_faults_are_heard(v);
}

/// The caller of the function that runs goes on after the call.
pub open spec fn back_in_the_caller(s: Machine, t: Machine) -> bool {
    let f = s.frames.last();
    &&& t.pc == f.return_pc
    &&& t.frames == s.frames.drop_last()
    &&& t.ty(Reg::R0) == s.ty(Reg::R0)
    &&& forall|i: int| 2 <= i <= 10 ==> #[trigger] t.types[i] == f.caller_types[i]
    &&& t.ty(Reg::R10) matches RegType::PtrToStack { frame_level } && frame_level.index
        == s.frames.len() - 2
    &&& t.refs == s.refs
    &&& t.lock_depth == s.lock_depth
    &&& t.preempt_depth == s.preempt_depth
    &&& t.irq_depth == s.irq_depth
    &&& t.tnums[1] == s.tnums[1]
}

/// A callback returns a number, and returns 0 or 1 if it is run in a loop, over
/// the elements of a map or over the samples of a ring buffer.
pub proof fn law_callbacks_return_flags(cfg: EnvConfig, v: EnvView, s: Machine)
    requires
        s.frames.len() > 0,
        s.frames.last().callback is Some,
        silent(v, exit_step(cfg, v, s).0),
    ensures
        s.ty(Reg::R0) is ScalarValue,
        s.frames.last().callback matches Some(c) ==> (c.helper == 181 || c.helper == 164 || c.helper
            == 209 ==> result_within(s, 0, 1)),
{
    reveal(exit_step);
    lemma_faults_are_heard(v);
}

} // verus!
