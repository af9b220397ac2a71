//! Results by source program, and in the order of a report.
use crate::benchmark::{before, law_texts_are_ordered, text_before, FileResult};
use crate::text::text_eq;
use vstd::prelude::*;

verus! {

/// The results for one source program, by their places among all results.
#[derive(Debug)]
pub struct Group {
    pub source: String,
    pub runs: Vec<usize>,
}

/// The places, among the first `n` results, of those for a source program.
pub open spec fn places_of(v: Seq<FileResult>, source: Seq<char>, n: nat) -> Seq<usize>
    decreases n,
{
    if n == 0 {
        Seq::empty()
    } else {
        let p = places_of(v, source, (n - 1) as nat);
        if v[n - 1].source_prog@ == source { p.push((n - 1) as usize) } else { p }
    }
}

/// The groups are the source programs of the first `n` results, each once and
/// in the order of a dictionary, with all their results in order.
pub open spec fn grouped(v: Seq<FileResult>, n: nat, g: Seq<Group>) -> bool {
    &&& forall|i: int, j: int|
        0 <= i < j < g.len() ==> before((#[trigger] g[i]).source@, (#[trigger] g[j]).source@)
    &&& forall|i: int|
        0 <= i < g.len() ==> (#[trigger] g[i]).runs@ == places_of(v, g[i].source@, n)
    &&& forall|i: int| 0 <= i < g.len() ==> (#[trigger] g[i]).runs@.len() > 0
    &&& forall|k: int| 0 <= k < n ==> has_group(g, (#[trigger] v[k]).source_prog@)
}

/// There is a group for a source program.
pub open spec fn has_group(g: Seq<Group>, source: Seq<char>) -> bool {
    exists|i: int| 0 <= i < g.len() && (#[trigger] g[i]).source@ == source
}

fn copy_text(s: &String) -> (r: String)
    ensures
        r@ == s@,
{
    let mut t: String = String::new();
    t.append(s.as_str());
    assert(t@ =~= s@);
    t
}

proof fn lemma_no_places(v: Seq<FileResult>, source: Seq<char>, n: nat)
    requires
        n <= v.len(),
        forall|k: int| 0 <= k < n ==> (#[trigger] v[k]).source_prog@ != source,
    ensures
        places_of(v, source, n) == Seq::<usize>::empty(),
    decreases n,
{
    if n > 0 {
        lemma_no_places(v, source, (n - 1) as nat);
    }
}

/// The results by source program.
pub fn group_by_source(v: &Vec<FileResult>) -> (r: Vec<Group>)
    ensures
        grouped(v@, v@.len(), r@),
{
    let mut g: Vec<Group> = Vec::new();
    let mut k: usize = 0;
    while k < v.len()
        invariant
            k <= v@.len(),
            grouped(v@, k as nat, g@),
        decreases v@.len() - k,
    {
        let key: &String = &v[k].source_prog;
        let ghost old_g = g@;
        let mut p: usize = 0;
        while p < g.len() && text_before(g[p].source.as_str(), key.as_str())
            invariant
                p <= g@.len(),
                g@ == old_g,
                forall|i: int| 0 <= i < p ==> before((#[trigger] old_g[i]).source@, key@),
            decreases g@.len() - p,
        {
            p = p + 1;
        }
        if p < g.len() && text_eq(g[p].source.as_str(), key.as_str()) {
            let mut one: Group = g.remove(p);
            one.runs.push(k);
            g.insert(p, one);
            proof {
                lemma_added(v@, k as nat, old_g, g@, p as int);
            }
        } else {
            let mut runs: Vec<usize> = Vec::new();
            runs.push(k);
            let one: Group = Group { source: copy_text(key), runs };
            g.insert(p, one);
            proof {
                if p < old_g.len() {
                    law_texts_are_ordered(old_g[p as int].source@, key@, key@);
                }
                lemma_opened(v@, k as nat, old_g, g@, p as int);
            }
        }
        k = k + 1;
    }
    g
}

proof fn lemma_added(v: Seq<FileResult>, k: nat, a: Seq<Group>, b: Seq<Group>, p: int)
    requires
        k < v.len(),
        grouped(v, k, a),
        0 <= p < a.len(),
        a[p].source@ == v[k as int].source_prog@,
        b.len() == a.len(),
        forall|i: int| 0 <= i < a.len() && i != p ==> #[trigger] b[i] == a[i],
        b[p].source@ == a[p].source@,
        b[p].runs@ == a[p].runs@.push(k as usize),
        k <= usize::MAX,
    ensures
        grouped(v, k + 1, b),
{
    let key = v[k as int].source_prog@;
    assert forall|i: int, j: int| 0 <= i < j < b.len() implies before(
        (#[trigger] b[i]).source@,
        (#[trigger] b[j]).source@,
    ) by {
        assert(before(a[i].source@, a[j].source@));
        assert(b[i].source@ == a[i].source@ && b[j].source@ == a[j].source@);
    }
    assert forall|i: int| 0 <= i < b.len() implies (#[trigger] b[i]).runs@ == places_of(
        v,
        b[i].source@,
        k + 1,
    ) && b[i].runs@.len() > 0 by {
        assert(a[i].runs@ == places_of(v, a[i].source@, k));
        assert(b[i].source@ == a[i].source@);
        if i != p {
            assert(b[i].source@ != key) by {
                if i < p {
                    assert(before(a[i].source@, a[p].source@));
                } else {
                    assert(before(a[p].source@, a[i].source@));
                }
                law_texts_are_ordered(key, key, key);
            }
        }
    }
    assert forall|q: int| 0 <= q < k + 1 implies has_group(b, (#[trigger] v[q]).source_prog@) by {
        if q < k {
            assert(has_group(a, v[q].source_prog@));
            let i = choose|i: int|
                0 <= i < a.len() && (#[trigger] a[i]).source@ == v[q].source_prog@;
            assert(b[i].source@ == v[q].source_prog@);
        } else {
            assert(b[p].source@ == key);
        }
    }
}

proof fn lemma_opened(v: Seq<FileResult>, k: nat, a: Seq<Group>, b: Seq<Group>, p: int)
    requires
        k < v.len(),
        k <= usize::MAX,
        grouped(v, k, a),
        0 <= p <= a.len(),
        forall|i: int| 0 <= i < p ==> before((#[trigger] a[i]).source@, v[k as int].source_prog@),
        p < a.len() ==> before(v[k as int].source_prog@, a[p].source@),
        b.len() == a.len() + 1,
        forall|i: int| 0 <= i < p ==> #[trigger] b[i] == a[i],
        forall|i: int| p < i < b.len() ==> #[trigger] b[i] == a[i - 1],
        b[p].source@ == v[k as int].source_prog@,
        b[p].runs@ == seq![k as usize],
    ensures
        grouped(v, k + 1, b),
{
    let key = v[k as int].source_prog@;
    assert forall|i: int| p <= i < a.len() implies before(key, (#[trigger] a[i]).source@) by {
        if i > p {
            assert(before(a[p].source@, a[i].source@));
            law_texts_are_ordered(key, a[p].source@, a[i].source@);
        }
    }
    assert forall|i: int, j: int| 0 <= i < j < b.len() implies before(
        (#[trigger] b[i]).source@,
        (#[trigger] b[j]).source@,
    ) by {
        let x = if i < p { i } else { i - 1 };
        let y = if j < p { j } else { j - 1 };
        if i != p && j != p {
            assert(before(a[x].source@, a[y].source@));
        } else if i == p {
            assert(before(key, a[y].source@));
        } else {
            assert(before(a[x].source@, key));
        }
    }
    assert forall|q: int| 0 <= q < k implies (#[trigger] v[q]).source_prog@ != key by {
        assert(has_group(a, v[q].source_prog@));
        let i = choose|i: int| 0 <= i < a.len() && (#[trigger] a[i]).source@ == v[q].source_prog@;
        law_texts_are_ordered(key, key, key);
        if i < p {
            assert(before(a[i].source@, key));
        } else {
            assert(before(key, a[i].source@));
        }
    }
    lemma_no_places(v, key, k);
    assert forall|i: int| 0 <= i < b.len() implies (#[trigger] b[i]).runs@ == places_of(
        v,
        b[i].source@,
        k + 1,
    ) && b[i].runs@.len() > 0 by {
        if i == p {
            assert(places_of(v, key, k + 1) =~= seq![k as usize]);
        } else {
            let x = if i < p { i } else { i - 1 };
            assert(b[i] == a[x]);
            assert(a[x].runs@ == places_of(v, a[x].source@, k));
            law_texts_are_ordered(key, key, key);
            if x < p {
                assert(before(a[x].source@, key));
            } else {
                assert(before(key, a[x].source@));
            }
        }
    }
    assert forall|q: int| 0 <= q < k + 1 implies has_group(b, (#[trigger] v[q]).source_prog@) by {
        if q < k {
            assert(has_group(a, v[q].source_prog@));
            let i = choose|i: int|
                0 <= i < a.len() && (#[trigger] a[i]).source@ == v[q].source_prog@;
            let x = if i < p { i } else { i + 1 };
            assert(b[x].source@ == v[q].source_prog@);
        } else {
            assert(b[p].source@ == key);
        }
    }
}

/// The order of results in a report: by project, compiler and optimization,
/// then by place.
pub open spec fn reported_before(v: Seq<FileResult>, a: usize, b: usize) -> bool {
    let x = v[a as int];
    let y = v[b as int];
    if x.project@ != y.project@ {
        before(x.project@, y.project@)
    } else if x.compiler@ != y.compiler@ {
        before(x.compiler@, y.compiler@)
    } else if x.opt@ != y.opt@ {
        before(x.opt@, y.opt@)
    } else {
        a < b
    }
}

fn is_reported_before(v: &Vec<FileResult>, a: usize, b: usize) -> (r: bool)
    requires
        a < v@.len(),
        b < v@.len(),
    ensures
        r == reported_before(v@, a, b),
{
    let x: &FileResult = &v[a];
    let y: &FileResult = &v[b];
    if !text_eq(x.project.as_str(), y.project.as_str()) {
        text_before(x.project.as_str(), y.project.as_str())
    } else if !text_eq(x.compiler.as_str(), y.compiler.as_str()) {
        text_before(x.compiler.as_str(), y.compiler.as_str())
    } else if !text_eq(x.opt.as_str(), y.opt.as_str()) {
        text_before(x.opt.as_str(), y.opt.as_str())
    } else {
        a < b
    }
}

/// The order of results in a report is a strict total order.
pub proof fn law_reports_are_ordered(v: Seq<FileResult>, a: usize, b: usize, c: usize)
    ensures
        !reported_before(v, a, a),
        reported_before(v, a, b) ==> !reported_before(v, b, a),
        reported_before(v, a, b) && reported_before(v, b, c) ==> reported_before(v, a, c),
        a != b ==> reported_before(v, a, b) || reported_before(v, b, a),
{
    let x = v[a as int];
    let y = v[b as int];
    let z = v[c as int];
    law_texts_are_ordered(x.project@, y.project@, z.project@);
    law_texts_are_ordered(x.compiler@, y.compiler@, z.compiler@);
    law_texts_are_ordered(x.opt@, y.opt@, z.opt@);
}

/// The places are in the order of a report.
pub open spec fn in_report_order(v: Seq<FileResult>, r: Seq<usize>) -> bool {
    forall|i: int, j: int|
        0 <= i < j < r.len() ==> reported_before(v, #[trigger] r[i], #[trigger] r[j])
}

/// Places of results in the order of a report.
pub fn sorted_runs(v: &Vec<FileResult>, runs: &Vec<usize>) -> (r: Vec<usize>)
    requires
        forall|i: int| 0 <= i < runs@.len() ==> (#[trigger] runs@[i]) < v@.len(),
        runs@.no_duplicates(),
    ensures
        in_report_order(v@, r@),
        r@.len() == runs@.len(),
        forall|x: usize| r@.contains(x) <==> runs@.contains(x),
{
    let mut out: Vec<usize> = Vec::new();
    let mut k: usize = 0;
    while k < runs.len()
        invariant
            k <= runs@.len(),
            forall|i: int| 0 <= i < runs@.len() ==> (#[trigger] runs@[i]) < v@.len(),
            runs@.no_duplicates(),
            in_report_order(v@, out@),
            out@.len() == k,
            forall|i: int| 0 <= i < out@.len() ==> (#[trigger] out@[i]) < v@.len(),
            forall|x: usize| out@.contains(x) <==> runs@.take(k as int).contains(x),
        decreases runs@.len() - k,
    {
        let x: usize = runs[k];
        let ghost old_out = out@;
        let mut p: usize = 0;
        while p < out.len() && is_reported_before(v, out[p], x)
            invariant
                p <= out@.len(),
                out@ == old_out,
                x < v@.len(),
                forall|i: int| 0 <= i < out@.len() ==> (#[trigger] out@[i]) < v@.len(),
                forall|i: int| 0 <= i < p ==> reported_before(v@, #[trigger] old_out[i], x),
            decreases out@.len() - p,
        {
            p = p + 1;
        }
        out.insert(p, x);
        proof {
            assert(!old_out.contains(x)) by {
                if old_out.contains(x) {
                    let t = runs@.take(k as int);
                    let i = choose|i: int| 0 <= i < t.len() && t[i] == x;
                    assert(runs@[i] == runs@[k as int]);
                }
            }
            if p < old_out.len() {
                assert(old_out[p as int] != x) by {
                    if old_out[p as int] == x {
                        assert(old_out.contains(x));
                    }
                }
                law_reports_are_ordered(v@, old_out[p as int], x, x);
            }
            lemma_inserted(v@, old_out, p as int, x);
            assert forall|y: usize| out@.contains(y) <==> runs@.take(k + 1).contains(y) by {
                lemma_contains_inserted(old_out, p as int, x, y);
                let t = runs@.take(k as int);
                assert(runs@.take(k + 1) =~= t.push(x));
                lemma_contains_inserted(t, t.len() as int, x, y);
                assert(t.insert(t.len() as int, x) =~= t.push(x));
            }
        }
        k = k + 1;
    }
    assert(runs@.take(runs@.len() as int) =~= runs@);
    out
}

proof fn lemma_contains_inserted(s: Seq<usize>, p: int, x: usize, y: usize)
    requires
        0 <= p <= s.len(),
    ensures
        s.insert(p, x).contains(y) <==> s.contains(y) || y == x,
{
    let t = s.insert(p, x);
    if t.contains(y) {
        let i = choose|i: int| 0 <= i < t.len() && t[i] == y;
        if i < p {
            assert(s[i] == y);
        } else if i > p {
            assert(s[i - 1] == y);
        }
    }
    if s.contains(y) {
        let i = choose|i: int| 0 <= i < s.len() && s[i] == y;
        let j = if i < p { i } else { i + 1 };
        assert(t[j] == y);
    }
    if y == x {
        assert(t[p] == y);
    }
}

proof fn lemma_inserted(v: Seq<FileResult>, s: Seq<usize>, p: int, x: usize)
    requires
        in_report_order(v, s),
        0 <= p <= s.len(),
        forall|i: int| 0 <= i < p ==> reported_before(v, #[trigger] s[i], x),
        p < s.len() ==> reported_before(v, x, s[p]),
    ensures
        in_report_order(v, s.insert(p, x)),
{
    let t = s.insert(p, x);
    assert forall|i: int, j: int| 0 <= i < j < t.len() implies reported_before(
        v,
        #[trigger] t[i],
        #[trigger] t[j],
    ) by {
        let a = if i < p { i } else { i - 1 };
        let b = if j < p { j } else { j - 1 };
        if i != p && j != p {
            assert(t[i] == s[a] && t[j] == s[b]);
        } else if i == p {
            assert(t[j] == s[b]);
            if b > p {
                assert(reported_before(v, s[p], s[b]));
                law_reports_are_ordered(v, x, s[p], s[b]);
            }
        } else {
            assert(t[i] == s[a]);
        }
    }
}

proof fn lemma_group_has_a_result(v: Seq<FileResult>, source: Seq<char>, n: nat)
    requires
        n <= v.len(),
        places_of(v, source, n).len() > 0,
    ensures
        exists|k: int| 0 <= k < n && (#[trigger] v[k]).source_prog@ == source,
    decreases n,
{
    if n > 0 && v[n - 1].source_prog@ != source {
        lemma_group_has_a_result(v, source, (n - 1) as nat);
    } else {
        assert(v[n - 1].source_prog@ == source);
    }
}

proof fn lemma_sources_below(v: Seq<FileResult>, g: Seq<Group>, h: Seq<Group>, i: int)
    requires
        grouped(v, v.len(), g),
        grouped(v, v.len(), h),
        0 <= i < g.len(),
        i <= h.len(),
        forall|k: int| 0 <= k < i ==> (#[trigger] g[k]).source@ == h[k].source@,
    ensures
        i < h.len(),
        !before(g[i].source@, h[i].source@),
{
    let s = g[i].source@;
    assert(g[i].runs@ == places_of(v, s, v.len()));
    assert(g[i].runs@.len() > 0);
    lemma_group_has_a_result(v, s, v.len());
    let k = choose|k: int| 0 <= k < v.len() && (#[trigger] v[k]).source_prog@ == s;
    assert(has_group(h, v[k].source_prog@));
    let j = choose|j: int| 0 <= j < h.len() && (#[trigger] h[j]).source@ == s;
    law_texts_are_ordered(s, s, s);
    if j < i {
        assert(g[j].source@ == h[j].source@);
        assert(before(g[j].source@, g[i].source@));
    } else if j > i {
        assert(before(h[i].source@, h[j].source@));
        law_texts_are_ordered(g[i].source@, h[i].source@, h[j].source@);
    }
}

proof fn lemma_same_sources(v: Seq<FileResult>, g: Seq<Group>, h: Seq<Group>, n: nat)
    requires
        grouped(v, v.len(), g),
        grouped(v, v.len(), h),
        n <= g.len(),
    ensures
        n <= h.len(),
        forall|k: int| 0 <= k < n ==> (#[trigger] g[k]).source@ == h[k].source@,
    decreases n,
{
    if n > 0 {
        lemma_same_sources(v, g, h, (n - 1) as nat);
        let i = n - 1;
        lemma_sources_below(v, g, h, i);
        assert forall|k: int| 0 <= k < i implies (#[trigger] h[k]).source@ == g[k].source@ by {
            assert(g[k].source@ == h[k].source@);
        }
        lemma_sources_below(v, h, g, i);
        law_texts_are_ordered(g[i].source@, h[i].source@, h[i].source@);
    }
}

/// There is one way to group results.
pub proof fn law_grouping_is_unique(v: Seq<FileResult>, g: Seq<Group>, h: Seq<Group>)
    requires
        grouped(v, v.len(), g),
        grouped(v, v.len(), h),
    ensures
        g.len() == h.len(),
        forall|i: int|
            0 <= i < g.len() ==> (#[trigger] g[i]).source@ == h[i].source@ && g[i].runs@
                == h[i].runs@,
{
    lemma_same_sources(v, g, h, g.len());
    lemma_same_sources(v, h, g, h.len());
    assert forall|i: int| 0 <= i < g.len() implies (#[trigger] g[i]).source@ == h[i].source@
        && g[i].runs@ == h[i].runs@ by {
        assert(g[i].runs@ == places_of(v, g[i].source@, v.len()));
        assert(h[i].runs@ == places_of(v, h[i].source@, v.len()));
    }
}

proof fn lemma_place_below(v: Seq<FileResult>, a: Seq<usize>, b: Seq<usize>, i: int)
    requires
        in_report_order(v, a),
        in_report_order(v, b),
        forall|x: usize| a.contains(x) ==> b.contains(x),
        0 <= i < a.len(),
        i <= b.len(),
        forall|k: int| 0 <= k < i ==> a[k] == b[k],
    ensures
        i < b.len(),
        !reported_before(v, a[i], b[i]),
{
    assert(a.contains(a[i]));
    let j = choose|j: int| 0 <= j < b.len() && b[j] == a[i];
    law_reports_are_ordered(v, a[i], a[i], a[i]);
    if j < i {
        assert(reported_before(v, a[j], a[i]));
    } else if j > i {
        assert(reported_before(v, b[i], b[j]));
        law_reports_are_ordered(v, a[i], b[i], b[j]);
    }
}

proof fn lemma_same_places(v: Seq<FileResult>, a: Seq<usize>, b: Seq<usize>, n: nat)
    requires
        in_report_order(v, a),
        in_report_order(v, b),
        forall|x: usize| a.contains(x) <==> b.contains(x),
        n <= a.len(),
    ensures
        n <= b.len(),
        forall|k: int| 0 <= k < n ==> a[k] == b[k],
    decreases n,
{
    if n > 0 {
        lemma_same_places(v, a, b, (n - 1) as nat);
        let i = n - 1;
        lemma_place_below(v, a, b, i);
        lemma_place_below(v, b, a, i);
        law_reports_are_ordered(v, a[i], b[i], b[i]);
    }
}

/// There is one order of places in a report.
pub proof fn law_report_order_is_unique(v: Seq<FileResult>, a: Seq<usize>, b: Seq<usize>)
    requires
        in_report_order(v, a),
        in_report_order(v, b),
        forall|x: usize| a.contains(x) <==> b.contains(x),
    ensures
        a == b,
{
    lemma_same_places(v, a, b, a.len());
    lemma_same_places(v, b, a, b.len());
    assert(a =~= b);
}

} // verus!
