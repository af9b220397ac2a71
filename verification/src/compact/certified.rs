//! What an accepted certificate promises of every run.
use crate::compact::ast::Instr;
use crate::compact::cert::{read_bound, read_state, read_words, CertError, Claim};
use crate::compact::check::{
    fits, included, law_accepted_certificates_are_inductive, verdict, edge_fits,
};
use crate::compact::context::ExecContext;
use crate::compact::exec::edges;
use crate::domains::zone::dbm::{Zone, INF};
use crate::domains::zone::laws::models;
use vstd::prelude::*;

verus! {

/// A zone over the twelve variables whose entries are kept as they are or say
/// nothing.
pub open spec fn kept_as_is(z: Zone) -> bool {
    &&& z.sized(12)
    &&& forall|i: int, j: int|
        0 <= i < 12 && 0 <= j < 12 ==> -0xFFF_FFFF_FFFF_FFFF <= #[trigger] z.m[i][j] && (z.m[i][j]
            <= 0xFFF_FFFF_FFFF_FFFF || z.m[i][j] == INF)
}

/// What is included in a zone allows no values that the zone does not.
pub proof fn law_included_zones_allow_no_more(a: Zone, b: Zone, w: spec_fn(int) -> int)
    requires
        a.sized(12),
        kept_as_is(b),
        included(a, b),
        models(a.m, w),
    ensures
        models(b.m, w),
{
    assert forall|i: int, j: int|
        0 <= i < b.m.len() && 0 <= j < b.m.len() && #[trigger] b.m[i][j] < INF implies w(i) - w(j)
        <= b.m[i][j] by {
        assert(fits(a, b, i, j));
        assert(a.m[i][j] < INF);
    }
}

/// A zone with a looser bound than another is not included in it.
pub proof fn law_looser_zones_are_not_included(a: Zone, b: Zone, i: int, j: int)
    requires
        kept_as_is(a),
        kept_as_is(b),
        0 <= i < 12,
        0 <= j < 12,
        a.m[i][j] > b.m[i][j],
    ensures
        !included(a, b),
{
    assert(!fits(a, b, i, j));
}

/// An accepted certificate has a state for each instruction, and each step from
/// one state leads to a state that allows all values the step brings.
pub proof fn law_accepted_certificates_allow_every_step(
    ctx: &ExecContext,
    instrs: Seq<Instr>,
    cert: Seq<Zone>,
    pc: int,
    k: int,
    w: spec_fn(int) -> int,
)
    requires
        instrs.len() <= usize::MAX,
        verdict(ctx, instrs, cert) is None,
        forall|i: int| 0 <= i < cert.len() ==> kept_as_is(#[trigger] cert[i]),
        0 <= pc < instrs.len(),
        0 <= k < edges(ctx, cert[pc], pc as usize, instrs[pc]).len(),
        ({
            let e = edges(ctx, cert[pc], pc as usize, instrs[pc])[k];
            e.1.sized(12) && models(e.1.m, w)
        }),
    ensures
        cert.len() == instrs.len(),
        ({
            let e = edges(ctx, cert[pc], pc as usize, instrs[pc])[k];
            e.0 < instrs.len() && models(cert[e.0 as int].m, w)
        }),
{
    law_accepted_certificates_are_inductive(ctx, instrs, cert);
    let e = edges(ctx, cert[pc], pc as usize, instrs[pc])[k];
    assert(edge_fits(cert, e));
    law_included_zones_allow_no_more(e.1, cert[e.0 as int], w);
}

/// A certificate that has no state for some instruction, or that a step leads
/// out of, is refused.
pub proof fn law_incomplete_certificates_are_refused(
    ctx: &ExecContext,
    instrs: Seq<Instr>,
    cert: Seq<Zone>,
    pc: int,
    k: int,
)
    requires
        instrs.len() <= usize::MAX,
        0 <= pc < instrs.len(),
    ensures
        cert.len() != instrs.len() ==> verdict(ctx, instrs, cert) is Some,
        0 <= k < edges(ctx, cert[pc], pc as usize, instrs[pc]).len() && edges(
            ctx,
            cert[pc],
            pc as usize,
            instrs[pc],
        )[k].0 >= instrs.len() ==> verdict(ctx, instrs, cert) is Some,
        0 <= k < edges(ctx, cert[pc], pc as usize, instrs[pc]).len() && edges(
            ctx,
            cert[pc],
            pc as usize,
            instrs[pc],
        )[k].1.inconsistent() ==> verdict(ctx, instrs, cert) is Some,
{
    law_accepted_certificates_are_inductive(ctx, instrs, cert);
    if verdict(ctx, instrs, cert) is None && 0 <= k < edges(
        ctx,
        cert[pc],
        pc as usize,
        instrs[pc],
    ).len() {
        assert(edge_fits(cert, edges(ctx, cert[pc], pc as usize, instrs[pc])[k]));
    }
}

/// What is wrong with a certificate is told: words that are missing, and words
/// that are neither a tag nor a number.
pub proof fn law_bad_certificates_are_told(t: Seq<Seq<char>>, at: int, dim: nat)
    requires
        0 <= at,
    ensures
        t.len() == 0 ==> read_words(t) == Err::<Claim, CertError>(CertError::MissingPcs),
        t.len() == 1 && read_words(t) is Err ==> read_words(t) == Err::<Claim, CertError>(
            CertError::BadPcs,
        ) || read_words(t) == Err::<Claim, CertError>(CertError::MissingDim),
        t.len() == 1 ==> read_words(t) is Err,
        at >= t.len() ==> read_state(t, at, dim) == Err::<
            (Option<Seq<Seq<i64>>>, int),
            CertError,
        >(CertError::MissingTag),
        at < t.len() && t[at] != "U"@ && t[at] != "R"@ ==> read_state(t, at, dim) == Err::<
            (Option<Seq<Seq<i64>>>, int),
            CertError,
        >(CertError::BadTag),
        at < t.len() && t[at] == "U"@ ==> (read_state(t, at, dim) matches Ok((s, next)) && s
            is None && next == at + 1),
        read_bound("INF"@) == Some(INF),
        forall|s: Seq<char>|
            s != "INF"@ ==> ((#[trigger] read_bound(s)) matches Some(n) ==> -0x8000_0000 <= n
                <= 0x7FFF_FFFF),
{
    assert forall|s: Seq<char>| s != "INF"@ implies ((#[trigger] read_bound(s)) matches Some(n)
        ==> -0x8000_0000 <= n <= 0x7FFF_FFFF) by {
    }
}

} // verus!
