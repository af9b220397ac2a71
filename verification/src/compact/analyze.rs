//! The analysis of a program: states are propagated along the edges of the
//! program until none changes.
use crate::compact::alu::computed;
use crate::compact::ast::{Instr, Program};
use crate::compact::branch::{branch_types, refine_branch_types};
use crate::compact::context::{all_wf, nexts, AnalysisStats, ExecContext, Next, Successor};
use crate::compact::domain::{
    below, dbm_equals, join, joined, joined_types, law_join_is_an_upper_bound, join_reg_type, no_types,
    small, type_of, unconstrained, with_type, Reg, RegType, RegTypeState, NUM_REGS, NUM_VARS,
};
use crate::compact::exec::{
    edges, flowed, ids_after_flow, law_values_do_not_depend_on_types, step, transfer_instr,
    update_reg_types_for_instr,
};
use crate::compact::memory::{load_is_safe, store_is_safe};
use crate::sums::{lemma_sum_bound, lemma_sum_le, lemma_sum_lt, sum_of};
use crate::domains::zone::dbm::{Dbm, Zone};
use crate::machine::ids::IdCounter;
use std::collections::VecDeque;
use vstd::prelude::*;

verus! {

/// The state of an analysis: values and types at each instruction that was
/// reached, and the instructions whose successors are to be visited.
#[verifier::ext_equal]
pub ghost struct Progress {
    pub states: Seq<Option<Zone>>,
    pub types: Seq<Option<Seq<RegType>>>,
    pub work: Seq<usize>,
    pub ids: IdCounter,
    pub stats: AnalysisStats,
}

impl Progress {
    /// Everything belongs to `n` instructions, and what is to be visited was
    /// reached.
    pub open spec fn wf(self, n: nat) -> bool {
        &&& self.states.len() == n
        &&& forall|i: int|
            0 <= i < n && (#[trigger] self.states[i]) is Some ==> self.states[i]->0.sized(
                NUM_VARS as int,
            )
        &&& forall|i: int|
            0 <= i < n && (#[trigger] self.types[i]) is Some ==> self.types[i]->0.len() == NUM_REGS
        &&& self.ready()
    }

    /// Where there are values there are types, and what is to be visited was
    /// reached.
    pub open spec fn ready(self) -> bool {
        &&& self.types.len() == self.states.len()
        &&& forall|i: int|
            0 <= i < self.states.len() ==> ((#[trigger] self.states[i]) is Some
                <==> self.types[i] is Some)
        &&& forall|i: int|
            0 <= i < self.work.len() ==> (#[trigger] self.work[i]) < self.states.len()
                && self.states[self.work[i] as int] is Some
    }

    /// Nothing is left to be done.
    pub open spec fn finished(self) -> bool {
        self.work.len() == 0 || self.stats.abort
    }
}

/// The types at the start of a program.
pub open spec fn entry_types(ctx: &ExecContext) -> Seq<RegType> {
    with_type(
        with_type(with_type(no_types(), Reg::R1, RegType::PtrToCtx), ctx.r10, RegType::PtrToStack),
        Reg::R0,
        RegType::ScalarValue,
    )
}

/// Where an analysis starts: only the first instruction was reached.
pub open spec fn start(ctx: &ExecContext, n: nat, entry: Zone, stats: AnalysisStats) -> Progress {
    Progress {
        states: Seq::new(
            n,
            |i: int|
                if i == 0 {
                    Some(entry)
                } else {
                    None
                },
        ),
        types: Seq::new(
            n,
            |i: int|
                if i == 0 {
                    Some(entry_types(ctx))
                } else {
                    None
                },
        ),
        work: seq![0usize],
        ids: IdCounter { next: 1 },
        stats,
    }
}

/// A state reached along an edge of `instr` is taken in: it is joined with what
/// was known there, and a change is to be visited. A map whose address
/// `instr` loads is the one listed for the place that the edge leads to.
pub open spec fn absorbed(
    ctx: &ExecContext,
    instr: Instr,
    in_types: Seq<RegType>,
    p: Progress,
    n: Next,
) -> Progress {
    if n.pc >= p.states.len() {
        p
    } else {
        let at = n.pc as int;
        let edge = branch_types(instr, n.pc, flowed(ctx, instr, in_types, n.pc, p.ids));
        let ids = ids_after_flow(instr, in_types, p.ids);
        match p.states[at] {
            None => Progress {
                states: p.states.update(at, Some(n.zone)),
                types: p.types.update(at, Some(edge)),
                work: p.work.push(n.pc),
                ids,
                ..p
            },
            Some(z) => {
                let t = p.types[at]->0;
                let both = joined(z, n.zone);
                let moved = both.m != z.m;
                Progress {
                    states: if moved {
                        p.states.update(at, Some(both))
                    } else {
                        p.states
                    },
                    types: p.types.update(at, Some(joined_types(t, edge))),
                    work: if moved || joined_types(t, edge) != t {
                        p.work.push(n.pc)
                    } else {
                        p.work
                    },
                    ids,
                    ..p
                }
            },
        }
    }
}

/// The first `k` states are taken in.
pub open spec fn absorbed_all(
    ctx: &ExecContext,
    instr: Instr,
    in_types: Seq<RegType>,
    p: Progress,
    ns: Seq<Next>,
    k: nat,
) -> Progress
    decreases k,
{
    if k == 0 {
        p
    } else {
        absorbed(
            ctx,
            instr,
            in_types,
            absorbed_all(ctx, instr, in_types, p, ns, (k - 1) as nat),
            ns[k - 1],
        )
    }
}

/// The next instruction was visited.
pub open spec fn advanced(ctx: &ExecContext, instrs: Seq<Instr>, p: Progress) -> Progress {
    if p.finished() {
        p
    } else {
        let pc = p.work[0];
        let instr = instrs[pc as int];
        let t = p.types[pc as int]->0;
        let s = step(ctx, p.states[pc as int]->0, pc, instr, p.stats, t, p.ids);
        let q = Progress {
            work: p.work.subrange(1, p.work.len() as int),
            ids: s.ids,
            stats: s.stats,
            ..p
        };
        if s.stats.abort {
            q
        } else {
            absorbed_all(ctx, instr, t, q, s.nexts, s.nexts.len())
        }
    }
}

/// The analysis after `k` visits.
pub open spec fn run(ctx: &ExecContext, instrs: Seq<Instr>, p: Progress, k: nat) -> Progress
    decreases k,
{
    if k == 0 { p } else { advanced(ctx, instrs, run(ctx, instrs, p, (k - 1) as nat)) }
}

/// Every edge out of an instruction leads to a state that allows what it
/// brings.
pub open spec fn covered(ctx: &ExecContext, instrs: Seq<Instr>, states: Seq<Option<Zone>>, pc: int) -> bool {
    let e = edges(ctx, states[pc]->0, pc as usize, instrs[pc]);
    forall|i: int| 0 <= i < e.len() ==> reaches(states, #[trigger] e[i])
}

/// The state at an edge's end allows what the edge brings.
pub open spec fn reaches(states: Seq<Option<Zone>>, e: (usize, Zone)) -> bool {
    e.0 < states.len() ==> states[e.0 as int] is Some && below(e.1, states[e.0 as int]->0)
}

/// What is wrong with an instruction in its state was found.
pub open spec fn accounted(ctx: &ExecContext, instrs: Seq<Instr>, p: Progress, pc: int) -> bool {
    let z = p.states[pc]->0;
    let t = p.types[pc]->0;
    match instrs[pc] {
        Instr::Load { size, base, off, .. } => p.stats.unsafe_stack_load || load_is_safe(
            ctx,
            z,
            t,
            base,
            type_of(t, base),
            off,
            size,
        ),
        Instr::Store { size, base, off, .. } => store_is_safe(ctx, z, t, base, off, size),
        Instr::Alu { width, op, dst, src } => p.stats.dbm_inconsistent || !computed(
            ctx,
            z,
            width,
            op,
            dst,
            src,
        ).inconsistent(),
        _ => true,
    }
}

/// Every instruction that was reached is covered and accounted for, or to be
/// visited.
pub open spec fn stable(ctx: &ExecContext, instrs: Seq<Instr>, p: Progress) -> bool {
    forall|pc: int|
        0 <= pc < p.states.len() && (#[trigger] p.states[pc]) is Some ==> p.work.contains(
            pc as usize,
        ) || covered(ctx, instrs, p.states, pc) && accounted(ctx, instrs, p, pc)
}

/// What was found stays found.
pub open spec fn found_more(a: AnalysisStats, b: AnalysisStats) -> bool {
    &&& a.unsafe_stack_load ==> b.unsafe_stack_load
    &&& a.dbm_inconsistent ==> b.dbm_inconsistent
}

/// States only grow.
pub open spec fn grown(a: Seq<Option<Zone>>, b: Seq<Option<Zone>>) -> bool {
    &&& a.len() == b.len()
    &&& forall|i: int|
        0 <= i < a.len() && (#[trigger] a[i]) is Some ==> b[i] is Some && below(a[i]->0, b[i]->0)
}

proof fn lemma_absorb_grows(
    ctx: &ExecContext,
    instr: Instr,
    in_types: Seq<RegType>,
    p: Progress,
    n: Next,
)
    requires
        p.ready(),
    ensures
        ({
            let q = absorbed(ctx, instr, in_types, p, n);
            &&& grown(p.states, q.states)
            &&& reaches(q.states, (n.pc, n.zone))
            &&& q.ready()
            &&& q.stats == p.stats
            &&& forall|i: int|
                0 <= i < p.states.len() ==> ((#[trigger] q.states[i]) == p.states[i] && q.types[i]
                    == p.types[i]) || q.work.contains(i as usize)
            &&& forall|x: usize| p.work.contains(x) ==> #[trigger] q.work.contains(x)
        }),
{
    let q = absorbed(ctx, instr, in_types, p, n);
    if n.pc < p.states.len() {
        let at = n.pc as int;
        if let Some(z) = p.states[at] {
            law_join_is_an_upper_bound(z, n.zone);
            let both = joined(z, n.zone);
            if both.m == z.m {
                assert(below(n.zone, z)) by {
                    assert forall|i: int, j: int|
                        0 <= i < NUM_VARS && 0 <= j < NUM_VARS implies #[trigger] n.zone.m[i][j]
                        <= z.m[i][j] by {
                        assert(n.zone.m[i][j] <= both.m[i][j]);
                    }
                }
            }
        }
        assert forall|x: usize| p.work.contains(x) implies #[trigger] q.work.contains(x) by {
            let k = choose|k: int| 0 <= k < p.work.len() && p.work[k] == x;
            assert(q.work[k] == x);
        }
        if q.work != p.work {
            assert(q.work[p.work.len() as int] == n.pc);
        }
    }
}

proof fn lemma_below_is_transitive(a: Zone, b: Zone, c: Zone)
    requires
        below(a, b),
        below(b, c),
    ensures
        below(a, c),
{
    assert forall|i: int, j: int| 0 <= i < NUM_VARS && 0 <= j < NUM_VARS implies #[trigger] a.m[i][j]
        <= c.m[i][j] by {
        assert(a.m[i][j] <= b.m[i][j]);
        assert(b.m[i][j] <= c.m[i][j]);
    }
}

proof fn lemma_reaches_grows(a: Seq<Option<Zone>>, b: Seq<Option<Zone>>, e: (usize, Zone))
    requires
        grown(a, b),
        reaches(a, e),
    ensures
        reaches(b, e),
{
    if e.0 < a.len() {
        lemma_below_is_transitive(e.1, a[e.0 as int]->0, b[e.0 as int]->0);
    }
}

proof fn lemma_grown_is_transitive(a: Seq<Option<Zone>>, b: Seq<Option<Zone>>, c: Seq<Option<Zone>>)
    requires
        grown(a, b),
        grown(b, c),
    ensures
        grown(a, c),
{
    assert forall|i: int| 0 <= i < a.len() && (#[trigger] a[i]) is Some implies c[i] is Some && below(
        a[i]->0,
        c[i]->0,
    ) by {
        assert(b[i] is Some);
        lemma_below_is_transitive(a[i]->0, b[i]->0, c[i]->0);
    }
}

proof fn lemma_grown_refl(a: Seq<Option<Zone>>)
    ensures
        grown(a, a),
{
}

proof fn lemma_absorb_all_grows(
    ctx: &ExecContext,
    instr: Instr,
    in_types: Seq<RegType>,
    p: Progress,
    ns: Seq<Next>,
    k: nat,
)
    requires
        p.ready(),
        k <= ns.len(),
    ensures
        ({
            let q = absorbed_all(ctx, instr, in_types, p, ns, k);
            &&& grown(p.states, q.states)
            &&& forall|i: int|
                0 <= i < k ==> reaches(q.states, (#[trigger] ns[i].pc, ns[i].zone))
            &&& q.ready()
            &&& q.stats == p.stats
            &&& forall|i: int|
                0 <= i < p.states.len() ==> ((#[trigger] q.states[i]) == p.states[i] && q.types[i]
                    == p.types[i]) || q.work.contains(i as usize)
            &&& forall|x: usize| p.work.contains(x) ==> #[trigger] q.work.contains(x)
        }),
    decreases k,
{
    if k == 0 {
        lemma_grown_refl(p.states);
    } else {
        let m = absorbed_all(ctx, instr, in_types, p, ns, (k - 1) as nat);
        let q = absorbed_all(ctx, instr, in_types, p, ns, k);
        lemma_absorb_all_grows(ctx, instr, in_types, p, ns, (k - 1) as nat);
        lemma_absorb_grows(ctx, instr, in_types, m, ns[k - 1]);
        lemma_grown_is_transitive(p.states, m.states, q.states);
        assert forall|i: int| 0 <= i < k implies reaches(
            q.states,
            (#[trigger] ns[i].pc, ns[i].zone),
        ) by {
            if i < k - 1 {
                lemma_reaches_grows(m.states, q.states, (ns[i].pc, ns[i].zone));
            }
        }
        assert forall|i: int| 0 <= i < p.states.len() implies ((#[trigger] q.states[i])
            == p.states[i] && q.types[i] == p.types[i]) || q.work.contains(i as usize) by {
            let at = i as usize;
            assert(m.states[i] == p.states[i] && m.types[i] == p.types[i] || m.work.contains(at));
            assert(q.states[i] == m.states[i] && q.types[i] == m.types[i] || q.work.contains(at));
            if m.work.contains(at) {
                assert(q.work.contains(at));
            }
        }
        assert forall|x: usize| p.work.contains(x) implies #[trigger] q.work.contains(x) by {
            assert(m.work.contains(x));
        }
    }
}

proof fn lemma_advance_keeps_stable(ctx: &ExecContext, instrs: Seq<Instr>, p: Progress)
    requires
        p.ready(),
        stable(ctx, instrs, p),
        p.states.len() == instrs.len(),
        instrs.len() <= usize::MAX,
    ensures
        ({
            let q = advanced(ctx, instrs, p);
            &&& q.ready()
            &&& grown(p.states, q.states)
            &&& found_more(p.stats, q.stats)
            &&& !q.stats.abort ==> stable(ctx, instrs, q)
        }),
{
    let q = advanced(ctx, instrs, p);
    if p.finished() {
        lemma_grown_refl(p.states);
    } else {
        let pc = p.work[0];
        let instr = instrs[pc as int];
        let t = p.types[pc as int]->0;
        let z = p.states[pc as int]->0;
        let s = step(ctx, z, pc, instr, p.stats, t, p.ids);
        let m = Progress {
            work: p.work.subrange(1, p.work.len() as int),
            ids: s.ids,
            stats: s.stats,
            ..p
        };
        assert(m.ready()) by {
            assert forall|i: int| 0 <= i < m.work.len() implies (#[trigger] m.work[i])
                < m.states.len() && m.states[m.work[i] as int] is Some by {
                assert(m.work[i] == p.work[i + 1]);
            }
        }
        lemma_grown_refl(p.states);
        if !s.stats.abort {
            let ns = s.nexts;
            lemma_absorb_all_grows(ctx, instr, t, m, ns, ns.len());
            law_values_do_not_depend_on_types(ctx, z, pc, instr, p.stats, t, p.ids);
            let e = edges(ctx, z, pc, instr);
            assert forall|x: int| 0 <= x < q.states.len() && (#[trigger] q.states[x]) is Some implies
                q.work.contains(x as usize) || covered(ctx, instrs, q.states, x) && accounted(
                ctx,
                instrs,
                q,
                x,
            ) by {
                if !q.work.contains(x as usize) {
                    assert(q.states[x] == m.states[x] && q.types[x] == m.types[x]);
                    if x == pc {
                        assert forall|i: int| 0 <= i < e.len() implies reaches(
                            q.states,
                            #[trigger] e[i],
                        ) by {
                            let lead = Seq::new(ns.len(), |i: int| (ns[i].pc, ns[i].zone));
                            assert(lead[i] == (ns[i].pc, ns[i].zone));
                            assert(e[i] == (ns[i].pc, ns[i].zone));
                        }
                        assert(accounted(ctx, instrs, q, x));
                    } else {
                        if p.work.contains(x as usize) {
                            let k = choose|k: int| 0 <= k < p.work.len() && p.work[k] == x as usize;
                            assert(m.work[k - 1] == x as usize);
                            assert(m.work.contains(x as usize));
                        }
                        assert(covered(ctx, instrs, p.states, x));
                        let f = edges(ctx, p.states[x]->0, x as usize, instrs[x]);
                        assert forall|i: int| 0 <= i < f.len() implies reaches(
                            q.states,
                            #[trigger] f[i],
                        ) by {
                            lemma_reaches_grows(p.states, q.states, f[i]);
                        }
                        assert(accounted(ctx, instrs, p, x));
                    }
                }
            }
        }
    }
}

proof fn lemma_run_is_stable(ctx: &ExecContext, instrs: Seq<Instr>, p: Progress, k: nat)
    requires
        p.ready(),
        stable(ctx, instrs, p),
        p.states.len() == instrs.len(),
        instrs.len() <= usize::MAX,
        !run(ctx, instrs, p, k).stats.abort,
    ensures
        run(ctx, instrs, p, k).ready(),
        stable(ctx, instrs, run(ctx, instrs, p, k)),
        grown(p.states, run(ctx, instrs, p, k).states),
    decreases k,
{
    if k == 0 {
        lemma_grown_refl(p.states);
    } else {
        let q = run(ctx, instrs, p, (k - 1) as nat);
        assert(!q.stats.abort);
        lemma_run_is_stable(ctx, instrs, p, (k - 1) as nat);
        lemma_advance_keeps_stable(ctx, instrs, q);
        lemma_grown_is_transitive(p.states, q.states, run(ctx, instrs, p, k).states);
    }
}

/// An analysis that ends without stopping early has states that allow whatever
/// a run of the program brings: the first state allows the entry state, and
/// each instruction that was reached leads, along each of its edges, to a state
/// that allows what the edge brings.
pub proof fn law_finished_analyses_are_inductive(
    ctx: &ExecContext,
    instrs: Seq<Instr>,
    entry: Zone,
    stats: AnalysisStats,
    k: nat,
)
    requires
        0 < instrs.len() <= usize::MAX,
        run(ctx, instrs, start(ctx, instrs.len(), entry, stats), k).finished(),
        !run(ctx, instrs, start(ctx, instrs.len(), entry, stats), k).stats.abort,
    ensures
        ({
            let states = run(ctx, instrs, start(ctx, instrs.len(), entry, stats), k).states;
            &&& states.len() == instrs.len()
            &&& states[0] is Some
            &&& below(entry, states[0]->0)
            &&& forall|pc: int|
                0 <= pc < states.len() && (#[trigger] states[pc]) is Some ==> covered(
                    ctx,
                    instrs,
                    states,
                    pc,
                )
        }),
{
    lemma_finished(ctx, instrs, entry, stats, k);
}

/// Whatever is wrong with an instruction that was reached was found: in an
/// analysis that ends without stopping early, each store is known to be safe in
/// its state, and so is each load unless an unsafe one was found.
pub proof fn law_finished_analyses_find_everything(
    ctx: &ExecContext,
    instrs: Seq<Instr>,
    entry: Zone,
    stats: AnalysisStats,
    k: nat,
)
    requires
        0 < instrs.len() <= usize::MAX,
        run(ctx, instrs, start(ctx, instrs.len(), entry, stats), k).finished(),
        !run(ctx, instrs, start(ctx, instrs.len(), entry, stats), k).stats.abort,
    ensures
        ({
            let p = run(ctx, instrs, start(ctx, instrs.len(), entry, stats), k);
            forall|pc: int|
                0 <= pc < p.states.len() && (#[trigger] p.states[pc]) is Some ==> accounted(
                    ctx,
                    instrs,
                    p,
                    pc,
                )
        }),
{
    lemma_finished(ctx, instrs, entry, stats, k);
}

/// An analysis has one result: however many visits are counted, what is there
/// once nothing is left to be done is the same.
pub proof fn law_finished_analyses_are_unique(
    ctx: &ExecContext,
    instrs: Seq<Instr>,
    p: Progress,
    j: nat,
    k: nat,
)
    requires
        run(ctx, instrs, p, j).finished(),
        run(ctx, instrs, p, k).finished(),
    ensures
        run(ctx, instrs, p, j) == run(ctx, instrs, p, k),
{
    if j < k {
        lemma_finished_stays(ctx, instrs, p, j, k);
    } else {
        lemma_finished_stays(ctx, instrs, p, k, j);
    }
}

proof fn lemma_finished_stays(ctx: &ExecContext, instrs: Seq<Instr>, p: Progress, j: nat, k: nat)
    requires
        j <= k,
        run(ctx, instrs, p, j).finished(),
    ensures
        run(ctx, instrs, p, k) == run(ctx, instrs, p, j),
    decreases k,
{
    if j < k {
        lemma_finished_stays(ctx, instrs, p, j, (k - 1) as nat);
    }
}

proof fn lemma_finished(
    ctx: &ExecContext,
    instrs: Seq<Instr>,
    entry: Zone,
    stats: AnalysisStats,
    k: nat,
)
    requires
        0 < instrs.len() <= usize::MAX,
        run(ctx, instrs, start(ctx, instrs.len(), entry, stats), k).finished(),
        !run(ctx, instrs, start(ctx, instrs.len(), entry, stats), k).stats.abort,
    ensures
        ({
            let p = run(ctx, instrs, start(ctx, instrs.len(), entry, stats), k);
            &&& p.work.len() == 0
            &&& p.states.len() == instrs.len()
            &&& p.states[0] is Some
            &&& below(entry, p.states[0]->0)
            &&& stable(ctx, instrs, p)
        }),
{
    let p = start(ctx, instrs.len(), entry, stats);
    assert(p.work[0] == 0);
    assert(p.work.contains(0));
    assert(stable(ctx, instrs, p));
    lemma_run_is_stable(ctx, instrs, p, k);
    let q = run(ctx, instrs, p, k);
    assert(p.states[0] is Some);
}

/// How much looser a bound can become.
pub open spec fn entry_room(row: Seq<i64>) -> spec_fn(int) -> nat {
    |j: int| (i64::MAX - row[j]) as nat
}

pub open spec fn row_room(m: Seq<Seq<i64>>) -> spec_fn(int) -> nat {
    |i: int| sum_of(NUM_VARS as nat, entry_room(m[i]))
}

/// How far the type of a register can still fall.
pub open spec fn type_room(t: RegType) -> nat {
    match t {
        RegType::Unknown => 0,
        RegType::NotInit => 0x1_0000_0000_0000_0001,
        RegType::PtrToPacket { range, .. } => (range + 1) as nat,
        _ => 1,
    }
}

pub open spec fn types_room(t: Seq<RegType>) -> spec_fn(int) -> nat {
    |i: int| type_room(t[i])
}

/// How much a state can still grow.
pub open spec fn room(z: Option<Zone>, t: Option<Seq<RegType>>) -> nat {
    match z {
        None => 1 + 144 * 0xffff_ffff_ffff_ffff + 11 * 0x1_0000_0000_0000_0001,
        Some(z) => sum_of(NUM_VARS as nat, row_room(z.m)) + sum_of(
            NUM_REGS as nat,
            types_room(t->0),
        ),
    }
}

pub open spec fn rooms(p: Progress) -> spec_fn(int) -> nat {
    |i: int| room(p.states[i], p.types[i])
}

/// How much all states together can still grow.
pub open spec fn slack(p: Progress) -> nat {
    sum_of(p.states.len(), rooms(p))
}

proof fn lemma_room_is_bounded(z: Zone, t: Seq<RegType>)
    ensures
        room(Some(z), Some(t)) < room(None, None),
{
    let f = row_room(z.m);
    assert forall|i: int| 0 <= i < NUM_VARS implies #[trigger] f(i) <= 12 * 0xffff_ffff_ffff_ffff by {
        lemma_sum_bound(NUM_VARS as nat, entry_room(z.m[i]), 0xffff_ffff_ffff_ffff);
    }
    lemma_sum_bound(NUM_VARS as nat, f, 12 * 0xffff_ffff_ffff_ffff);
    let g = types_room(t);
    assert forall|i: int| 0 <= i < NUM_REGS implies #[trigger] g(i) <= 0x1_0000_0000_0000_0001 by {}
    lemma_sum_bound(NUM_REGS as nat, g, 0x1_0000_0000_0000_0001);
}

proof fn lemma_zone_room(a: Zone, b: Zone)
    requires
        a.sized(NUM_VARS as int),
    ensures
        sum_of(NUM_VARS as nat, row_room(joined(a, b).m)) <= sum_of(NUM_VARS as nat, row_room(a.m)),
        joined(a, b).m != a.m ==> sum_of(NUM_VARS as nat, row_room(joined(a, b).m)) < sum_of(
            NUM_VARS as nat,
            row_room(a.m),
        ),
{
    let j = joined(a, b);
    let f = row_room(a.m);
    let g = row_room(j.m);
    assert forall|i: int| 0 <= i < NUM_VARS implies #[trigger] g(i) <= f(i) by {
        assert forall|k: int| 0 <= k < NUM_VARS implies #[trigger] entry_room(j.m[i])(k)
            <= entry_room(a.m[i])(k) by {}
        lemma_sum_le(NUM_VARS as nat, entry_room(a.m[i]), entry_room(j.m[i]));
    }
    lemma_sum_le(NUM_VARS as nat, f, g);
    if j.m != a.m {
        if forall|i: int| 0 <= i < NUM_VARS ==> j.m[i] == a.m[i] {
            assert(j.m =~= a.m);
        }
        let i = choose|i: int| 0 <= i < NUM_VARS && j.m[i] != a.m[i];
        if forall|k: int| 0 <= k < NUM_VARS ==> j.m[i][k] == a.m[i][k] {
            assert(j.m[i] =~= a.m[i]);
        }
        let k = choose|k: int| 0 <= k < NUM_VARS && j.m[i][k] != a.m[i][k];
        assert forall|k: int| 0 <= k < NUM_VARS implies #[trigger] entry_room(j.m[i])(k)
            <= entry_room(a.m[i])(k) by {}
        lemma_sum_lt(NUM_VARS as nat, entry_room(a.m[i]), entry_room(j.m[i]), k);
        lemma_sum_lt(NUM_VARS as nat, f, g, i);
    }
}

proof fn lemma_types_room(a: Seq<RegType>, b: Seq<RegType>)
    requires
        a.len() == NUM_REGS,
    ensures
        sum_of(NUM_REGS as nat, types_room(joined_types(a, b))) <= sum_of(
            NUM_REGS as nat,
            types_room(a),
        ),
        joined_types(a, b) != a ==> sum_of(NUM_REGS as nat, types_room(joined_types(a, b)))
            < sum_of(NUM_REGS as nat, types_room(a)),
{
    let j = joined_types(a, b);
    let f = types_room(a);
    let g = types_room(j);
    assert forall|i: int| 0 <= i < NUM_REGS implies #[trigger] g(i) <= f(i) by {
        assert(j[i] == join_reg_type(a[i], b[i]));
    }
    lemma_sum_le(NUM_REGS as nat, f, g);
    if j != a {
        if forall|i: int| 0 <= i < NUM_REGS ==> j[i] == a[i] {
            assert(j =~= a);
        }
        let i = choose|i: int| 0 <= i < NUM_REGS && j[i] != a[i];
        assert(j[i] == join_reg_type(a[i], b[i]));
        lemma_sum_lt(NUM_REGS as nat, f, g, i);
    }
}

/// Taking in a state uses up slack if there is more to visit afterwards.
proof fn lemma_absorb_uses_slack(
    ctx: &ExecContext,
    instr: Instr,
    in_types: Seq<RegType>,
    p: Progress,
    n: Next,
)
    requires
        p.wf(p.states.len()),
    ensures
        ({
            let q = absorbed(ctx, instr, in_types, p, n);
            &&& slack(q) <= slack(p)
            &&& q.work == p.work || slack(q) < slack(p)
        }),
{
    let q = absorbed(ctx, instr, in_types, p, n);
    if n.pc < p.states.len() {
        let at = n.pc as int;
        let f = rooms(p);
        let g = rooms(q);
        match p.states[at] {
            None => {
                lemma_room_is_bounded(q.states[at]->0, q.types[at]->0);
            },
            Some(z) => {
                lemma_zone_room(z, n.zone);
                lemma_types_room(
                    p.types[at]->0,
                    branch_types(instr, n.pc, flowed(ctx, instr, in_types, n.pc, p.ids)),
                );
            },
        }
        assert(g(at) <= f(at));
        assert forall|i: int| 0 <= i < p.states.len() implies #[trigger] g(i) <= f(i) by {
            if i != at {
                assert(q.states[i] == p.states[i]);
                assert(q.types[i] == p.types[i]);
            }
        }
        lemma_sum_le(p.states.len(), f, g);
        if q.work != p.work {
            assert(g(at) < f(at));
            lemma_sum_lt(p.states.len(), f, g, at);
        }
    }
}

/// The values of a list of states.
pub open spec fn zones(v: Seq<Option<Dbm>>) -> Seq<Option<Zone>> {
    Seq::new(
        v.len(),
        |i: int|
            match v[i] {
                Some(d) => Some(d@),
                None => None,
            },
    )
}

/// An analysis in progress.
#[derive(Debug)]
struct Analysis {
    states: Vec<Option<Dbm>>,
    types: Vec<Option<RegTypeState>>,
    work: VecDeque<usize>,
    ids: IdCounter,
    stats: AnalysisStats,
}

impl Analysis {
    spec fn view(&self) -> Progress {
        Progress {
            states: zones(self.states@),
            types: Seq::new(
                self.types@.len(),
                |i: int|
                    match self.types@[i] {
                        Some(t) => Some(t@),
                        None => None,
                    },
            ),
            work: self.work@,
            ids: self.ids,
            stats: self.stats,
        }
    }

    spec fn wf(&self) -> bool {
        self@.wf(self.states@.len())
    }

    fn begin(ctx: &ExecContext, n: usize, entry: Dbm, stats: AnalysisStats) -> (r: Self)
        requires
            0 < n,
            small(&entry),
        ensures
            r.wf(),
            r@ == start(ctx, n as nat, entry@, stats),
    {
        let ghost z = entry@;
        let mut t: RegTypeState = RegTypeState::new_not_init();
        t.set(Reg::R1, RegType::PtrToCtx);
        t.set(ctx.r10, RegType::PtrToStack);
        t.set(Reg::R0, RegType::ScalarValue);
        let mut states: Vec<Option<Dbm>> = Vec::new();
        let mut types: Vec<Option<RegTypeState>> = Vec::new();
        states.push(Some(entry));
        types.push(Some(t));
        let mut i: usize = 1;
        while i < n
            invariant
                1 <= i <= n,
                states@.len() == i,
                types@.len() == i,
                states@[0] == Some(entry),
                types@[0] == Some(t),
                forall|k: int| 1 <= k < i ==> (#[trigger] states@[k]) is None,
                forall|k: int| 1 <= k < i ==> (#[trigger] types@[k]) is None,
            decreases n - i,
        {
            states.push(None);
            types.push(None);
            i = i + 1;
        }
        let mut work: VecDeque<usize> = VecDeque::new();
        work.push_back(0);
        let r = Analysis { states, types, work, ids: IdCounter::new(), stats };
        assert(r@ =~= start(ctx, n as nat, z, stats));
        r
    }

    /// Takes in a state.
    fn absorb(&mut self, ctx: &ExecContext, instr: &Instr, in_types: &RegTypeState, succ: Successor)
        requires
            old(self).wf(),
            in_types.wf(),
            succ.wf(),
        ensures
            final(self).wf(),
            final(self)@ == absorbed(ctx, *instr, in_types@, old(self)@, succ@),
            final(self).states@.len() == old(self).states@.len(),
            slack(final(self)@) <= slack(old(self)@),
            final(self).work@ == old(self).work@ || slack(final(self)@) < slack(old(self)@),
    {
        let ghost p = self@;
        let ghost n = succ@;
        let ghost want = absorbed(ctx, *instr, in_types@, p, n);
        proof {
            lemma_absorb_uses_slack(ctx, *instr, in_types@, p, n);
            lemma_absorb_grows(ctx, *instr, in_types@, p, n);
        }
        let at: usize = succ.pc;
        if at >= self.states.len() {
            return ;
        }
        let mut edge: RegTypeState = in_types.clone();
        update_reg_types_for_instr(ctx, instr, &mut edge, at, &mut self.ids);
        refine_branch_types(instr, at, &mut edge);
        assert(p.states[at as int] is Some <==> p.types[at as int] is Some);
        let known: Option<(Dbm, RegTypeState)> = match (&self.states[at], &self.types[at]) {
            (Some(d), Some(t)) => Some((d.clone(), t.clone())),
            _ => None,
        };
        match known {
            None => {
                self.states[at] = Some(succ.dbm);
                self.types[at] = Some(edge);
                self.work.push_back(at);
            },
            Some((existing, mut types)) => {
                let both: Dbm = join(&existing, &succ.dbm);
                let moved: bool = !dbm_equals(&existing, &both);
                let changed: bool = types.join_in_place(&edge);
                if moved {
                    self.states[at] = Some(both);
                }
                self.types[at] = Some(types);
                if moved || changed {
                    self.work.push_back(at);
                }
            },
        }
        assert(self@.states =~= want.states);
        assert(self@.types =~= want.types);
        assert(self@.work =~= want.work);
        assert(self@ =~= want);
    }

    /// Visits the next instruction.
    fn advance(&mut self, ctx: &ExecContext, prog: &Program)
        requires
            old(self).wf(),
            old(self).states@.len() == prog.instrs@.len(),
            old(self).work@.len() > 0,
            !old(self).stats.abort,
        ensures
            final(self).wf(),
            final(self).states@.len() == prog.instrs@.len(),
            final(self)@ == advanced(ctx, prog.instrs@, old(self)@),
            slack(final(self)@) <= slack(old(self)@),
            final(self).work@.len() < old(self).work@.len() || slack(final(self)@) < slack(
                old(self)@,
            ),
    {
        let ghost p = self@;
        let ghost n = self.states@.len();
        let pc: usize = match self.work.pop_front() {
            Some(pc) => pc,
            None => {
                return ;
            },
        };
        assert(p.work[0] == pc);
        assert(p.states[pc as int] is Some && p.types[pc as int] is Some);
        assert(self@.ready()) by {
            assert forall|i: int| 0 <= i < self.work@.len() implies (#[trigger] self.work@[i])
                < self.states@.len() && self@.states[self.work@[i] as int] is Some by {
                assert(self.work@[i] == p.work[i + 1]);
            }
        }
        let total: usize = prog.instrs.len();
        assert(pc < total);
        let instr: Instr = prog.instrs[pc];
        let (in_dbm, in_types): (Dbm, RegTypeState) = match (&self.states[pc], &self.types[pc]) {
            (Some(d), Some(t)) => (d.clone(), t.clone()),
            _ => {
                return ;
            },
        };
        let mut succs: Vec<Successor> = transfer_instr(
            ctx,
            &in_dbm,
            pc,
            &instr,
            &mut self.stats,
            &in_types,
            &mut self.ids,
        );
        let ghost s = step(ctx, in_dbm@, pc, instr, p.stats, in_types@, p.ids);
        let ghost q = self@;
        assert(q =~= (Progress {
            work: p.work.subrange(1, p.work.len() as int),
            ids: s.ids,
            stats: s.stats,
            ..p
        }));
        assert(slack(q) == slack(p)) by {
            assert(rooms(q) =~= rooms(p));
        }
        if self.stats.abort {
            return ;
        }
        let count: usize = succs.len();
        let ghost all = succs@;
        let mut i: usize = 0;
        while i < count
            invariant
                i <= count,
                count == all.len(),
                count == succs@.len() + i,
                succs@ == all.subrange(i as int, count as int),
                all_wf(all),
                nexts(all) == s.nexts,
                in_types.wf(),
                self.wf(),
                self.states@.len() == n,
                self@ == absorbed_all(ctx, instr, in_types@, q, s.nexts, i as nat),
                slack(self@) <= slack(q),
                self.work@ == q.work || slack(self@) < slack(q),
            decreases count - i,
        {
            let succ: Successor = succs.remove(0);
            assert(succ == all[i as int]);
            assert(s.nexts[i as int] == succ@);
            self.absorb(ctx, &instr, &in_types, succ);
            assert(succs@ =~= all.subrange(i + 1, count as int));
            i = i + 1;
        }
    }
}

/// The states of a program at each instruction that can be reached from the
/// entry state, as far as the analysis can tell. The analysis ends, and the
/// states are those of a finished run of it.
pub fn analyze_states(ctx: &ExecContext, prog: &Program, entry_dbm: Dbm, stats: &mut AnalysisStats) -> (r:
    Vec<Option<Dbm>>)
    requires
        prog.instrs@.len() > 0,
        small(&entry_dbm),
    ensures
        r@.len() == prog.instrs@.len(),
        forall|i: int| 0 <= i < r@.len() ==> ((#[trigger] r@[i]) matches Some(d) ==> small(&d)),
        exists|k: nat|
            {
                let p = #[trigger] run(
                    ctx,
                    prog.instrs@,
                    start(ctx, prog.instrs@.len(), entry_dbm@, *old(stats)),
                    k,
                );
                &&& p.finished()
                &&& p.wf(prog.instrs@.len())
                &&& zones(r@) == p.states
                &&& *final(stats) == p.stats
            },
{
    let n: usize = prog.instrs.len();
    let mut a: Analysis = Analysis::begin(ctx, n, entry_dbm, *stats);
    let ghost p0 = a@;
    let ghost mut k: nat = 0;
    while a.work.len() > 0 && !a.stats.abort
        invariant
            n == prog.instrs@.len(),
            a.wf(),
            a.states@.len() == n,
            a@ == run(ctx, prog.instrs@, p0, k),
        decreases slack(a@), a.work@.len(),
    {
        a.advance(ctx, prog);
        proof {
            k = k + 1;
        }
    }
    *stats = a.stats;
    proof {
        assert(run(ctx, prog.instrs@, p0, k).finished());
        assert forall|i: int| 0 <= i < a.states@.len() implies ((#[trigger] a.states@[i]) matches Some(
            d,
        ) ==> small(&d)) by {
            if a.states@[i] is Some {
                assert(a@.states[i] is Some);
            }
        }
    }
    a.states
}

/// What is known at an instruction: its state, or nothing if it was not
/// reached.
pub open spec fn or_top(z: Option<Zone>) -> Zone {
    match z {
        Some(z) => z,
        None => Zone::top(NUM_VARS as nat),
    }
}

/// The states of a program at each instruction; one that cannot be reached is
/// unconstrained.
pub fn analyze_program(ctx: &ExecContext, prog: &Program, entry_dbm: Dbm, stats: &mut AnalysisStats) -> (r:
    Vec<Dbm>)
    requires
        prog.instrs@.len() > 0,
        small(&entry_dbm),
    ensures
        r@.len() == prog.instrs@.len(),
        forall|i: int| 0 <= i < r@.len() ==> small(&#[trigger] r@[i]),
        exists|k: nat|
            {
                let p = #[trigger] run(
                    ctx,
                    prog.instrs@,
                    start(ctx, prog.instrs@.len(), entry_dbm@, *old(stats)),
                    k,
                );
                &&& p.finished()
                &&& p.wf(prog.instrs@.len())
                &&& forall|i: int| 0 <= i < r@.len() ==> (#[trigger] r@[i])@ == or_top(p.states[i])
                &&& *final(stats) == p.stats
            },
{
    let ghost p0 = start(ctx, prog.instrs@.len(), entry_dbm@, *stats);
    let states: Vec<Option<Dbm>> = analyze_states(ctx, prog, entry_dbm, stats);
    let mut r: Vec<Dbm> = Vec::new();
    let mut i: usize = 0;
    while i < states.len()
        invariant
            i <= states@.len(),
            r@.len() == i,
            forall|k: int|
                0 <= k < states@.len() ==> ((#[trigger] states@[k]) matches Some(d) ==> small(&d)),
            forall|k: int| 0 <= k < i ==> small(&#[trigger] r@[k]),
            forall|k: int| 0 <= k < i ==> (#[trigger] r@[k])@ == or_top(zones(states@)[k]),
        decreases states@.len() - i,
    {
        match &states[i] {
            Some(d) => r.push(d.clone()),
            None => r.push(unconstrained()),
        }
        i = i + 1;
    }
    r
}

} // verus!
