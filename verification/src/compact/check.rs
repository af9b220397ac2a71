//! Checking that a certificate fits a program: every step from a state leads
//! to a state that allows what it brings.
use crate::compact::ast::{Instr, Program};
use crate::compact::context::{all_wf, nexts, AnalysisStats, ExecContext, Successor};
use crate::compact::domain::{all_regs, below, small, Reg, RegEnv, RegTypeState, NUM_VARS};
use crate::compact::exec::{edges, law_values_do_not_depend_on_types, step, transfer_instr};
use crate::domains::zone::dbm::{clamp_spec, clamp_upper_bound, Dbm, Zone};
use crate::machine::ids::IdCounter;
use crate::text::{dec, owned, push_dec, push_nat};
use vstd::prelude::*;

verus! {

/// Why a certificate does not fit a program.
#[derive(Debug)]
pub struct CheckError {
    pub pc: usize,
    pub succ: usize,
    pub msg: String,
}

/// The model of an error.
#[verifier::ext_equal]
pub ghost struct Misfit {
    pub pc: usize,
    pub succ: usize,
    pub msg: Seq<char>,
}

impl CheckError {
    pub open spec fn view(&self) -> Misfit {
        Misfit { pc: self.pc, succ: self.succ, msg: self.msg@ }
    }

    /// The error in words.
    pub fn format(&self) -> (r: String)
        ensures
            r@ == "pc "@ + dec(self.pc as int) + " -> "@ + dec(self.succ as int) + ": "@ + self.msg@,
    {
        let mut s: String = String::new();
        s.append("pc ");
        push_nat(&mut s, self.pc as u64);
        s.append(" -> ");
        push_nat(&mut s, self.succ as u64);
        s.append(": ");
        s.append(self.msg.as_str());
        assert(s@ =~= "pc "@ + dec(self.pc as int) + " -> "@ + dec(self.succ as int) + ": "@
            + self.msg@);
        s
    }
}

/// An entry at which one matrix is not included in another.
#[derive(Debug, Clone, Copy, PartialEq, Eq, Structural)]
pub struct InclusionFailure {
    pub post: i64,
    pub cert: i64,
    pub xi: Reg,
    pub xj: Reg,
}

/// An entry is at most the other's, as far as both say something.
pub open spec fn fits(a: Zone, b: Zone, i: int, j: int) -> bool {
    clamp_spec(a.m[i][j] as int) <= clamp_spec(b.m[i][j] as int)
}

/// All entries are at most the other's.
pub open spec fn included(a: Zone, b: Zone) -> bool {
    forall|i: int, j: int| 0 <= i < NUM_VARS && 0 <= j < NUM_VARS ==> #[trigger] fits(a, b, i, j)
}

/// The first entry of a row, from `j` on, that does not fit.
pub open spec fn row_excess(a: Zone, b: Zone, i: int, j: int) -> Option<int>
    decreases NUM_VARS - j,
{
    if j >= NUM_VARS {
        None
    } else if !fits(a, b, i, j) {
        Some(j)
    } else {
        row_excess(a, b, i, j + 1)
    }
}

/// The first entry, from row `i` on, that does not fit.
pub open spec fn excess(a: Zone, b: Zone, i: int) -> Option<(int, int)>
    decreases NUM_VARS - i,
{
    if i >= NUM_VARS {
        None
    } else {
        match row_excess(a, b, i, 0) {
            Some(j) => Some((i, j)),
            None => excess(a, b, i + 1),
        }
    }
}

/// The failure at an entry.
pub open spec fn failure(a: Zone, b: Zone, at: (int, int)) -> InclusionFailure {
    InclusionFailure {
        post: clamp_spec(a.m[at.0][at.1] as int),
        cert: clamp_spec(b.m[at.0][at.1] as int),
        xi: all_regs()[at.0],
        xj: all_regs()[at.1],
    }
}

/// Whether one matrix is included in another, or the first entry at which it
/// is not.
pub fn check_included(post: &Dbm, cert: &Dbm) -> (r: Result<(), InclusionFailure>)
    requires
        small(post),
        small(cert),
    ensures
        r == match excess(post@, cert@, 0) {
            None => Ok::<(), InclusionFailure>(()),
            Some(at) => Err(failure(post@, cert@, at)),
        },
{
    let n: usize = post.dim();
    let mut i: usize = 0;
    while i < n
        invariant
            n == NUM_VARS,
            i <= n,
            small(post),
            small(cert),
            excess(post@, cert@, 0) == excess(post@, cert@, i as int),
        decreases n - i,
    {
        let mut j: usize = 0;
        while j < n
            invariant
                n == NUM_VARS,
                i < n,
                j <= n,
                small(post),
                small(cert),
                excess(post@, cert@, 0) == excess(post@, cert@, i as int),
                row_excess(post@, cert@, i as int, 0) == row_excess(
                    post@,
                    cert@,
                    i as int,
                    j as int,
                ),
            decreases n - j,
        {
            let post_v: i64 = clamp_upper_bound(post.raw(i, j));
            let cert_v: i64 = clamp_upper_bound(cert.raw(i, j));
            if post_v > cert_v {
                assert(!fits(post@, cert@, i as int, j as int));
                return Err(
                    InclusionFailure {
                        post: post_v,
                        cert: cert_v,
                        xi: RegEnv.var_of_index(i),
                        xj: RegEnv.var_of_index(j),
                    },
                );
            }
            assert(fits(post@, cert@, i as int, j as int));
            j = j + 1;
        }
        i = i + 1;
    }
    Ok(())
}

/// A failure in words.
pub open spec fn failure_text(f: InclusionFailure) -> Seq<char> {
    "violated constraint at entry ("@ + f.xi.name()@ + ", "@ + f.xj.name()@ + "): "@ + f.xi.name()@
        + " - "@ + f.xj.name()@ + " <= "@ + dec(f.cert as int) + "\n  post has "@ + dec(
        f.post as int,
    ) + "\n  cert has "@ + dec(f.cert as int)
}

/// A failure in words.
pub fn format_inclusion_failure(f: &InclusionFailure) -> (r: String)
    ensures
        r@ == failure_text(*f),
{
    let mut s: String = String::new();
    s.append("violated constraint at entry (");
    s.append(f.xi.name());
    s.append(", ");
    s.append(f.xj.name());
    s.append("): ");
    s.append(f.xi.name());
    s.append(" - ");
    s.append(f.xj.name());
    s.append(" <= ");
    push_dec(&mut s, f.cert);
    s.append("\n  post has ");
    push_dec(&mut s, f.post);
    s.append("\n  cert has ");
    push_dec(&mut s, f.cert);
    assert(s@ =~= failure_text(*f));
    s
}

/// The models of some edges.
pub open spec fn pairs(v: Seq<(usize, Dbm)>) -> Seq<(usize, Zone)> {
    Seq::new(v.len(), |i: int| (v[i].0, v[i].1@))
}

/// Where one instruction leads from a state, and with which values.
pub fn transfer_one_kernel(ctx: &ExecContext, pc: usize, instr: &Instr, pre: &Dbm) -> (r: Vec<
    (usize, Dbm),
>)
    requires
        small(pre),
        pc < usize::MAX,
    ensures
        pairs(r@) == edges(ctx, pre@, pc, *instr),
        forall|i: int| 0 <= i < r@.len() ==> small(&(#[trigger] r@[i]).1),
{
    let mut out: Vec<(usize, Dbm)> = Vec::new();
    if let Instr::Store { .. } = *instr {
        out.push((pc + 1, pre.clone()));
        assert(pairs(out@) =~= edges(ctx, pre@, pc, *instr));
        return out;
    }
    let mut stats: AnalysisStats = AnalysisStats::default();
    let mut ids: IdCounter = IdCounter::new();
    let ghost ids0 = ids;
    let types: RegTypeState = RegTypeState::new_not_init();
    let succs: Vec<Successor> = transfer_instr(ctx, pre, pc, instr, &mut stats, &types, &mut ids);
    let ghost s = step(ctx, pre@, pc, *instr, AnalysisStats::clean(), types@, ids0).nexts;
    proof {
        law_values_do_not_depend_on_types(
            ctx,
            pre@,
            pc,
            *instr,
            AnalysisStats::clean(),
            types@,
            ids0,
        );
    }
    let mut i: usize = 0;
    while i < succs.len()
        invariant
            i <= succs@.len(),
            nexts(succs@) == s,
            all_wf(succs@),
            pairs(out@) == Seq::new(i as nat, |k: int| (s[k].pc, s[k].zone)),
            out@.len() == i,
            forall|k: int| 0 <= k < out@.len() ==> small(&(#[trigger] out@[k]).1),
        decreases succs@.len() - i,
    {
        assert(s[i as int] == succs@[i as int]@);
        let ghost before = out@;
        out.push((succs[i].pc, succs[i].dbm.clone()));
        assert(pairs(out@) =~= pairs(before).push((s[i as int].pc, s[i as int].zone)));
        assert(pairs(out@) =~= Seq::new((i + 1) as nat, |k: int| (s[k].pc, s[k].zone)));
        i = i + 1;
    }
    out
}

/// The matrices of a certificate.
pub open spec fn claims(v: Seq<Dbm>) -> Seq<Zone> {
    Seq::new(v.len(), |i: int| v[i]@)
}

/// What is wrong with an edge, if anything is.
pub open spec fn fault(cert: Seq<Zone>, e: (usize, Zone)) -> Option<Seq<char>> {
    if e.0 >= cert.len() {
        Some("successor out of bounds"@)
    } else if e.1.inconsistent() {
        Some("local transfer produced inconsistent DBM"@)
    } else {
        match excess(e.1, cert[e.0 as int], 0) {
            Some(at) => Some(
                "inclusion check failed\n"@ + failure_text(failure(e.1, cert[e.0 as int], at)),
            ),
            None => None,
        }
    }
}

/// The first edge, from `k` on, with which something is wrong.
pub open spec fn edge_fault(cert: Seq<Zone>, es: Seq<(usize, Zone)>, k: int) -> Option<
    (usize, Seq<char>),
>
    decreases es.len() - k,
{
    if k >= es.len() {
        None
    } else {
        match fault(cert, es[k]) {
            Some(msg) => Some((es[k].0, msg)),
            None => edge_fault(cert, es, k + 1),
        }
    }
}

/// The first instruction, from `pc` on, that does not fit.
pub open spec fn misfit(ctx: &ExecContext, instrs: Seq<Instr>, cert: Seq<Zone>, pc: int) -> Option<
    Misfit,
>
    decreases instrs.len() - pc,
{
    if pc >= instrs.len() {
        None
    } else {
        match edge_fault(cert, edges(ctx, cert[pc], pc as usize, instrs[pc]), 0) {
            Some((succ, msg)) => Some(Misfit { pc: pc as usize, succ, msg }),
            None => misfit(ctx, instrs, cert, pc + 1),
        }
    }
}

/// What is wrong with a certificate, if anything is.
pub open spec fn verdict(ctx: &ExecContext, instrs: Seq<Instr>, cert: Seq<Zone>) -> Option<Misfit> {
    if cert.len() != instrs.len() {
        Some(
            Misfit {
                pc: 0,
                succ: 0,
                msg: "certificate length "@ + dec(cert.len() as int) + " != program length "@ + dec(
                    instrs.len() as int,
                ),
            },
        )
    } else {
        misfit(ctx, instrs, cert, 0)
    }
}

fn find_fault(cert: &Vec<Dbm>, succ: usize, post: &Dbm) -> (r: Option<String>)
    requires
        small(post),
        forall|i: int| 0 <= i < cert@.len() ==> small(&#[trigger] cert@[i]),
    ensures
        match r {
            Some(s) => fault(claims(cert@), (succ, post@)) == Some(s@),
            None => fault(claims(cert@), (succ, post@)) is None,
        },
{
    if succ >= cert.len() {
        return Some(owned("successor out of bounds"));
    }
    if post.is_inconsistent() {
        return Some(owned("local transfer produced inconsistent DBM"));
    }
    assert(claims(cert@)[succ as int] == cert@[succ as int]@);
    match check_included(post, &cert[succ]) {
        Ok(()) => None,
        Err(f) => {
            let mut msg: String = owned("inclusion check failed\n");
            let detail: String = format_inclusion_failure(&f);
            msg.append(detail.as_str());
            Some(msg)
        },
    }
}

/// Checks a certificate against a program.
pub fn check_certificate_against_kernel_sim(ctx: &ExecContext, prog: &Program, cert: &Vec<Dbm>) -> (r:
    Result<(), CheckError>)
    requires
        forall|i: int| 0 <= i < cert@.len() ==> small(&#[trigger] cert@[i]),
    ensures
        match r {
            Ok(()) => verdict(ctx, prog.instrs@, claims(cert@)) is None,
            Err(e) => verdict(ctx, prog.instrs@, claims(cert@)) == Some(e@),
        },
{
    let n: usize = prog.instrs.len();
    let ghost zs = claims(cert@);
    if cert.len() != n {
        let mut msg: String = owned("certificate length ");
        push_nat(&mut msg, cert.len() as u64);
        msg.append(" != program length ");
        push_nat(&mut msg, n as u64);
        return Err(CheckError { pc: 0, succ: 0, msg });
    }
    let mut pc: usize = 0;
    while pc < n
        invariant
            pc <= n,
            n == prog.instrs@.len(),
            n == cert@.len(),
            zs == claims(cert@),
            forall|i: int| 0 <= i < cert@.len() ==> small(&#[trigger] cert@[i]),
            verdict(ctx, prog.instrs@, zs) == misfit(ctx, prog.instrs@, zs, pc as int),
        decreases n - pc,
    {
        let instr: Instr = prog.instrs[pc];
        let outs: Vec<(usize, Dbm)> = transfer_one_kernel(ctx, pc, &instr, &cert[pc]);
        let ghost es = edges(ctx, zs[pc as int], pc, instr);
        assert(zs[pc as int] == cert@[pc as int]@);
        let mut k: usize = 0;
        while k < outs.len()
            invariant
                k <= outs@.len(),
                pc < n,
                n == prog.instrs@.len(),
                n == cert@.len(),
                zs == claims(cert@),
                forall|i: int| 0 <= i < cert@.len() ==> small(&#[trigger] cert@[i]),
                forall|i: int| 0 <= i < outs@.len() ==> small(&(#[trigger] outs@[i]).1),
                pairs(outs@) == es,
                es == edges(ctx, zs[pc as int], pc, prog.instrs@[pc as int]),
                verdict(ctx, prog.instrs@, zs) == misfit(ctx, prog.instrs@, zs, pc as int),
                edge_fault(zs, es, 0) == edge_fault(zs, es, k as int),
            decreases outs@.len() - k,
        {
            assert(es[k as int] == (outs@[k as int].0, outs@[k as int].1@));
            match find_fault(cert, outs[k].0, &outs[k].1) {
                Some(msg) => {
                    return Err(CheckError { pc, succ: outs[k].0, msg });
                },
                None => {},
            }
            k = k + 1;
        }
        pc = pc + 1;
    }
    Ok(())
}

proof fn lemma_row_excess(a: Zone, b: Zone, i: int, j: int)
    requires
        0 <= j <= NUM_VARS,
    ensures
        match row_excess(a, b, i, j) {
            Some(k) => j <= k < NUM_VARS && !fits(a, b, i, k) && forall|q: int|
                j <= q < k ==> #[trigger] fits(a, b, i, q),
            None => forall|q: int| j <= q < NUM_VARS ==> #[trigger] fits(a, b, i, q),
        },
    decreases NUM_VARS - j,
{
    if j < NUM_VARS && fits(a, b, i, j) {
        lemma_row_excess(a, b, i, j + 1);
    }
}

proof fn lemma_excess(a: Zone, b: Zone, i: int)
    requires
        0 <= i <= NUM_VARS,
    ensures
        match excess(a, b, i) {
            Some((p, q)) => i <= p < NUM_VARS && 0 <= q < NUM_VARS && !fits(a, b, p, q),
            None => forall|p: int, q: int|
                i <= p < NUM_VARS && 0 <= q < NUM_VARS ==> #[trigger] fits(a, b, p, q),
        },
    decreases NUM_VARS - i,
{
    if i < NUM_VARS {
        lemma_row_excess(a, b, i, 0);
        if row_excess(a, b, i, 0) is None {
            lemma_excess(a, b, i + 1);
        }
    }
}

/// A matrix is included in another exactly if no entry is found at which it is
/// not; and the entry that is found is one at which it is not.
pub proof fn law_inclusion_is_decided(a: Zone, b: Zone)
    ensures
        excess(a, b, 0) is None <==> included(a, b),
        excess(a, b, 0) matches Some(at) ==> failure(a, b, at).post > failure(a, b, at).cert,
{
    lemma_excess(a, b, 0);
    if excess(a, b, 0) is Some {
        let at = excess(a, b, 0)->0;
        assert(!fits(a, b, at.0, at.1));
    }
}

/// Inclusion is a preorder, and holds where every entry is at most the other's.
pub proof fn law_inclusion_is_a_preorder(a: Zone, b: Zone, c: Zone)
    ensures
        included(a, a),
        included(a, b) && included(b, c) ==> included(a, c),
        below(a, b) ==> included(a, b),
{
    if included(a, b) && included(b, c) {
        assert forall|i: int, j: int| 0 <= i < NUM_VARS && 0 <= j < NUM_VARS implies #[trigger] fits(
            a,
            c,
            i,
            j,
        ) by {
            assert(fits(a, b, i, j));
            assert(fits(b, c, i, j));
        }
    }
    if below(a, b) {
        assert forall|i: int, j: int| 0 <= i < NUM_VARS && 0 <= j < NUM_VARS implies #[trigger] fits(
            a,
            b,
            i,
            j,
        ) by {
            assert(a.m[i][j] <= b.m[i][j]);
        }
    }
}

proof fn lemma_edge_fault(cert: Seq<Zone>, es: Seq<(usize, Zone)>, k: int)
    requires
        0 <= k <= es.len(),
    ensures
        edge_fault(cert, es, k) is None <==> (forall|i: int|
            k <= i < es.len() ==> fault(cert, #[trigger] es[i]) is None),
    decreases es.len() - k,
{
    if k < es.len() {
        lemma_edge_fault(cert, es, k + 1);
        if fault(cert, es[k]) is Some {
            assert(!(fault(cert, es[k]) is None));
        }
    }
}

/// The edge leads to a state that allows what it brings, and brings something.
pub open spec fn edge_fits(cert: Seq<Zone>, e: (usize, Zone)) -> bool {
    e.0 < cert.len() && !e.1.inconsistent() && included(e.1, cert[e.0 as int])
}

proof fn lemma_misfit(ctx: &ExecContext, instrs: Seq<Instr>, cert: Seq<Zone>, pc: int)
    requires
        0 <= pc <= instrs.len() <= usize::MAX,
        cert.len() == instrs.len(),
    ensures
        misfit(ctx, instrs, cert, pc) is None <==> (forall|p: int, k: int|
            pc <= p < instrs.len() && 0 <= k < edges(ctx, cert[p], p as usize, instrs[p]).len()
                ==> edge_fits(cert, #[trigger] edges(ctx, cert[p], p as usize, instrs[p])[k])),
    decreases instrs.len() - pc,
{
    if pc < instrs.len() {
        let es = edges(ctx, cert[pc], pc as usize, instrs[pc]);
        lemma_misfit(ctx, instrs, cert, pc + 1);
        lemma_edge_fault(cert, es, 0);
        assert forall|i: int| 0 <= i < es.len() implies (fault(cert, #[trigger] es[i]) is None
            <==> edge_fits(cert, es[i])) by {
            if es[i].0 < cert.len() {
                law_inclusion_is_decided(es[i].1, cert[es[i].0 as int]);
            }
        }
        if misfit(ctx, instrs, cert, pc) is None {
            assert forall|p: int, k: int|
                pc <= p < instrs.len() && 0 <= k < edges(
                    ctx,
                    cert[p],
                    p as usize,
                    instrs[p],
                ).len() implies edge_fits(
                cert,
                #[trigger] edges(ctx, cert[p], p as usize, instrs[p])[k],
            ) by {
                if p == pc {
                    assert(fault(cert, es[k]) is None);
                }
            }
        } else if edge_fault(cert, es, 0) is Some {
            let i = choose|i: int| 0 <= i < es.len() && fault(cert, #[trigger] es[i]) is Some;
            assert(!edge_fits(cert, edges(ctx, cert[pc], pc as usize, instrs[pc])[i]));
        } else {
            let (p, k) = choose|p: int, k: int|
                pc + 1 <= p < instrs.len() && 0 <= k < edges(
                    ctx,
                    cert[p],
                    p as usize,
                    instrs[p],
                ).len() && !edge_fits(
                    cert,
                    #[trigger] edges(ctx, cert[p], p as usize, instrs[p])[k],
                );
            assert(!edge_fits(cert, edges(ctx, cert[p], p as usize, instrs[p])[k]));
        }
    }
}

/// A certificate is accepted exactly if it has a state for each instruction
/// and every step from a state leads to a state that allows what it brings.
pub proof fn law_accepted_certificates_are_inductive(
    ctx: &ExecContext,
    instrs: Seq<Instr>,
    cert: Seq<Zone>,
)
    requires
        instrs.len() <= usize::MAX,
    ensures
        verdict(ctx, instrs, cert) is None <==> cert.len() == instrs.len() && (forall|
            pc: int,
            k: int,
        |
            0 <= pc < instrs.len() && 0 <= k < edges(ctx, cert[pc], pc as usize, instrs[pc]).len()
                ==> edge_fits(cert, #[trigger] edges(ctx, cert[pc], pc as usize, instrs[pc])[k])),
{
    if cert.len() == instrs.len() {
        lemma_misfit(ctx, instrs, cert, 0);
    }
}

} // verus!
