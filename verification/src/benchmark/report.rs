//! Reports in writing: as text and as JSON.
use crate::benchmark::groups::{
    group_by_source, grouped, in_report_order, places_of, sorted_runs, Group,
};
use crate::benchmark::{AnalysisResult, BenchFilters, BenchTotals, FileResult, SectionResult};
use crate::text::{dec, push_nat};
use vstd::prelude::*;

verus! {

/// A line for a filter that is set.
pub open spec fn filter_line(label: Seq<char>, f: Option<String>) -> Seq<char> {
    match f {
        Some(t) => label + t@ + "\n"@,
        None => Seq::empty(),
    }
}

fn push_filter(out: &mut String, label: &str, f: &Option<String>)
    ensures
        final(out)@ == old(out)@ + filter_line(label@, *f),
{
    if let Some(t) = f {
        out.append(label);
        out.append(t.as_str());
        out.append("\n");
    }
    assert(out@ =~= old(out)@ + filter_line(label@, *f));
}

/// What is measured outside: when the report was made, how long the analysis
/// took, and the shares that passed, in percent.
#[derive(Debug)]
pub struct Measured {
    pub date: u64,
    pub duration: String,
    pub program_rate: String,
    pub section_rate: String,
}

/// The head of a report.
pub open spec fn head_text(f: &BenchFilters, m: &Measured, t: BenchTotals) -> Seq<char> {
    "BPF Verifier Benchmark Report\n=============================\nDate:       "@ + dec(
        m.date as int,
    ) + "\nDuration:   "@ + m.duration@ + "\n"@ + filter_line("Filter [Project]:  "@, f.project)
        + filter_line("Filter [Compiler]: "@, f.compiler)
        + "\n--- Program Statistics ---\nTotal Files Found: "@ + dec(t.files as int)
        + "\nFiles Passing:     "@ + dec(t.files_passed as int) + " ("@ + m.program_rate@
        + "%)\n\n--- Section Statistics ---\nTotal Sections:    "@ + dec(t.sections as int)
        + "\nSections Passing:  "@ + dec(t.sections_passed as int) + " ("@ + m.section_rate@
        + "%)\n\n--- Breakdown by Source Program ---\n"@
}

fn push_head(out: &mut String, f: &BenchFilters, m: &Measured, t: BenchTotals)
    ensures
        final(out)@ == old(out)@ + head_text(f, m, t),
{
    out.append("BPF Verifier Benchmark Report\n=============================\nDate:       ");
    push_nat(out, m.date);
    out.append("\nDuration:   ");
    out.append(m.duration.as_str());
    out.append("\n");
    push_filter(out, "Filter [Project]:  ", &f.project);
    push_filter(out, "Filter [Compiler]: ", &f.compiler);
    out.append("\n--- Program Statistics ---\nTotal Files Found: ");
    push_nat(out, t.files);
    out.append("\nFiles Passing:     ");
    push_nat(out, t.files_passed);
    out.append(" (");
    out.append(m.program_rate.as_str());
    out.append("%)\n\n--- Section Statistics ---\nTotal Sections:    ");
    push_nat(out, t.sections);
    out.append("\nSections Passing:  ");
    push_nat(out, t.sections_passed);
    out.append(" (");
    out.append(m.section_rate.as_str());
    out.append("%)\n\n--- Breakdown by Source Program ---\n");
    assert(out@ =~= old(out)@ + head_text(f, m, t));
}

/// Lines for those of the first `n` sections that did not pass.
pub open spec fn failures_text(v: Seq<SectionResult>, n: nat) -> Seq<char>
    decreases n,
{
    if n == 0 {
        Seq::empty()
    } else {
        let s = v[n - 1];
        failures_text(v, (n - 1) as nat) + if s.result.is_pass() {
            Seq::empty()
        } else {
            "      - "@ + s.section@ + ": "@ + s.result.reason() + "\n"@
        }
    }
}

fn push_failures(out: &mut String, v: &Vec<SectionResult>)
    ensures
        final(out)@ == old(out)@ + failures_text(v@, v@.len()),
{
    let ghost start = out@;
    let mut i: usize = 0;
    assert(out@ =~= start + failures_text(v@, 0));
    while i < v.len()
        invariant
            i <= v@.len(),
            out@ == start + failures_text(v@, i as nat),
        decreases v@.len() - i,
    {
        let s: &SectionResult = &v[i];
        if !s.result.is_pass() {
            out.append("      - ");
            out.append(s.section.as_str());
            out.append(": ");
            match &s.result {
                AnalysisResult::Fail(e) => out.append(e.as_str()),
                AnalysisResult::LoadError(e) => out.append(e.as_str()),
                AnalysisResult::Pass => {},
            }
            out.append("\n");
        }
        assert(out@ =~= start + failures_text(v@, (i + 1) as nat));
        i = i + 1;
    }
}

/// The lines for a file.
pub open spec fn run_text(r: FileResult) -> Seq<char> {
    "  ["@ + (if r.passed { "PASS"@ } else { "FAIL"@ }) + "] ["@ + r.project@ + "] "@ + r.compiler@
        + " "@ + r.opt@ + ": "@ + r.file_name@ + "\n"@ + if r.passed {
        Seq::empty()
    } else {
        failures_text(r.details@, r.details@.len())
    }
}

fn push_run(out: &mut String, r: &FileResult)
    ensures
        final(out)@ == old(out)@ + run_text(*r),
{
    out.append("  [");
    out.append(if r.passed { "PASS" } else { "FAIL" });
    out.append("] [");
    out.append(r.project.as_str());
    out.append("] ");
    out.append(r.compiler.as_str());
    out.append(" ");
    out.append(r.opt.as_str());
    out.append(": ");
    out.append(r.file_name.as_str());
    out.append("\n");
    if !r.passed {
        push_failures(out, &r.details);
    }
    assert(out@ =~= old(out)@ + run_text(*r));
}

/// The lines for the files at the first `n` places.
pub open spec fn runs_text(v: Seq<FileResult>, places: Seq<usize>, n: nat) -> Seq<char>
    decreases n,
{
    if n == 0 {
        Seq::empty()
    } else {
        runs_text(v, places, (n - 1) as nat) + run_text(v[places[n - 1] as int])
    }
}

/// The places of a group in the order of a report.
pub open spec fn ordered(v: Seq<FileResult>, g: Group, order: Seq<usize>) -> bool {
    &&& in_report_order(v, order)
    &&& order.len() == g.runs@.len()
    &&& forall|x: usize| order.contains(x) <==> g.runs@.contains(x)
}

/// The part of a report for a source program.
pub open spec fn group_text(v: Seq<FileResult>, g: Group, order: Seq<usize>) -> Seq<char> {
    "\nSource: "@ + g.source@ + "\n"@ + runs_text(v, order, order.len())
}

/// The parts of a report for the first `n` source programs.
pub open spec fn groups_text(
    v: Seq<FileResult>,
    g: Seq<Group>,
    orders: Seq<Seq<usize>>,
    n: nat,
) -> Seq<char>
    decreases n,
{
    if n == 0 {
        Seq::empty()
    } else {
        groups_text(v, g, orders, (n - 1) as nat) + group_text(v, g[n - 1], orders[n - 1])
    }
}

/// The order of the files of each source program is that of a report.
pub open spec fn all_ordered(v: Seq<FileResult>, g: Seq<Group>, orders: Seq<Seq<usize>>) -> bool {
    orders.len() == g.len() && forall|i: int|
        0 <= i < g.len() ==> ordered(v, #[trigger] g[i], orders[i])
}

proof fn lemma_places(v: Seq<FileResult>, source: Seq<char>, n: nat)
    requires
        n <= v.len(),
        n <= usize::MAX,
    ensures
        places_of(v, source, n).no_duplicates(),
        forall|i: int|
            0 <= i < places_of(v, source, n).len() ==> (#[trigger] places_of(v, source, n)[i]) < n,
    decreases n,
{
    if n > 0 {
        lemma_places(v, source, (n - 1) as nat);
    }
}

fn push_group(out: &mut String, v: &Vec<FileResult>, order: &Vec<usize>, source: &String)
    requires
        forall|i: int| 0 <= i < order@.len() ==> (#[trigger] order@[i]) < v@.len(),
    ensures
        final(out)@ == old(out)@ + ("\nSource: "@ + source@ + "\n"@ + runs_text(
            v@,
            order@,
            order@.len(),
        )),
{
    let ghost start = out@;
    out.append("\nSource: ");
    out.append(source.as_str());
    out.append("\n");
    let ghost head = "\nSource: "@ + source@ + "\n"@;
    let mut i: usize = 0;
    assert(out@ =~= start + (head + runs_text(v@, order@, 0)));
    while i < order.len()
        invariant
            i <= order@.len(),
            forall|k: int| 0 <= k < order@.len() ==> (#[trigger] order@[k]) < v@.len(),
            out@ == start + (head + runs_text(v@, order@, i as nat)),
        decreases order@.len() - i,
    {
        push_run(out, &v[order[i]]);
        assert(out@ =~= start + (head + runs_text(v@, order@, (i + 1) as nat)));
        i = i + 1;
    }
}

/// The report as text. There is one way to group the results and one order of
/// the files of a group, so there is one text.
pub fn report_text(v: &Vec<FileResult>, f: &BenchFilters, m: &Measured, t: BenchTotals) -> (r: String)
    ensures
        exists|g: Seq<Group>, orders: Seq<Seq<usize>>| #[trigger]
            all_ordered(v@, g, orders) && grouped(v@, v@.len(), g) && r@ == head_text(f, m, t)
                + groups_text(v@, g, orders, g.len()),
{
    let mut out: String = String::new();
    push_head(&mut out, f, m, t);
    assert(out@ =~= head_text(f, m, t));
    let total: usize = v.len();
    let g: Vec<Group> = group_by_source(v);
    let ghost mut orders: Seq<Seq<usize>> = Seq::empty();
    let mut i: usize = 0;
    assert(out@ =~= head_text(f, m, t) + groups_text(v@, g@, orders, 0));
    while i < g.len()
        invariant
            i <= g@.len(),
            total == v@.len(),
            grouped(v@, v@.len(), g@),
            orders.len() == i,
            forall|k: int| 0 <= k < i ==> ordered(v@, #[trigger] g@[k], orders[k]),
            out@ == head_text(f, m, t) + groups_text(v@, g@, orders, i as nat),
        decreases g@.len() - i,
    {
        proof {
            lemma_places(v@, g@[i as int].source@, v@.len());
        }
        let one: &Group = &g[i];
        assert(one.runs@ == places_of(v@, one.source@, v@.len()));
        let order: Vec<usize> = sorted_runs(v, &one.runs);
        assert forall|k: int| 0 <= k < order@.len() implies (#[trigger] order@[k]) < v@.len() by {
            assert(order@.contains(order@[k]));
            assert(one.runs@.contains(order@[k]));
            let q = choose|q: int| 0 <= q < one.runs@.len() && one.runs@[q] == order@[k];
            assert(one.runs@[q] < v@.len());
        }
        push_group(&mut out, v, &order, &one.source);
        proof {
            let was = orders;
            orders = orders.push(order@);
            lemma_groups_prefix(v@, g@, was, orders, i as nat);
            assert(out@ =~= head_text(f, m, t) + groups_text(v@, g@, orders, (i + 1) as nat));
        }
        i = i + 1;
    }
    assert(all_ordered(v@, g@, orders));
    out
}

proof fn lemma_groups_prefix(
    v: Seq<FileResult>,
    g: Seq<Group>,
    a: Seq<Seq<usize>>,
    b: Seq<Seq<usize>>,
    n: nat,
)
    requires
        n <= a.len(),
        n <= b.len(),
        forall|k: int| 0 <= k < n ==> a[k] == b[k],
    ensures
        groups_text(v, g, a, n) == groups_text(v, g, b, n),
    decreases n,
{
    if n > 0 {
        lemma_groups_prefix(v, g, a, b, (n - 1) as nat);
    }
}

/// The entry of a filter that is set.
pub open spec fn filter_entry(label: Seq<char>, f: Option<String>, end: Seq<char>) -> Seq<char> {
    match f {
        Some(t) => label + t@ + end,
        None => Seq::empty(),
    }
}

fn push_entry(out: &mut String, label: &str, f: &Option<String>, end: &str)
    ensures
        final(out)@ == old(out)@ + filter_entry(label@, *f, end@),
{
    if let Some(t) = f {
        out.append(label);
        out.append(t.as_str());
        out.append(end);
    }
    assert(out@ =~= old(out)@ + filter_entry(label@, *f, end@));
}

/// The summary in JSON.
pub open spec fn json_head(f: &BenchFilters, t: BenchTotals, seconds: Seq<char>) -> Seq<char> {
    "{\n  \"summary\": {\n    \"filters\": {\n"@ + filter_entry(
        "      \"project\": \""@,
        f.project,
        "\",\n"@,
    ) + filter_entry("      \"compiler\": \""@, f.compiler, "\",\n"@) + filter_entry(
        "      \"opt\": \""@,
        f.opt,
        "\",\n"@,
    ) + filter_entry("      \"source\": \""@, f.source, "\"\n"@)
        + "      \"none\": null\n    },\n    \"files_processed\": "@ + dec(t.files as int)
        + ",\n    \"files_passed\": "@ + dec(t.files_passed as int)
        + ",\n    \"sections_processed\": "@ + dec(t.sections as int)
        + ",\n    \"sections_passed\": "@ + dec(t.sections_passed as int)
        + ",\n    \"duration_secs\": "@ + seconds + "\n  },\n  \"results_by_source\": {\n"@
}

fn push_json_head(out: &mut String, f: &BenchFilters, t: BenchTotals, seconds: &str)
    ensures
        final(out)@ == old(out)@ + json_head(f, t, seconds@),
{
    out.append("{\n  \"summary\": {\n    \"filters\": {\n");
    push_entry(out, "      \"project\": \"", &f.project, "\",\n");
    push_entry(out, "      \"compiler\": \"", &f.compiler, "\",\n");
    push_entry(out, "      \"opt\": \"", &f.opt, "\",\n");
    push_entry(out, "      \"source\": \"", &f.source, "\"\n");
    out.append("      \"none\": null\n    },\n    \"files_processed\": ");
    push_nat(out, t.files);
    out.append(",\n    \"files_passed\": ");
    push_nat(out, t.files_passed);
    out.append(",\n    \"sections_processed\": ");
    push_nat(out, t.sections);
    out.append(",\n    \"sections_passed\": ");
    push_nat(out, t.sections_passed);
    out.append(",\n    \"duration_secs\": ");
    out.append(seconds);
    out.append("\n  },\n  \"results_by_source\": {\n");
    assert(out@ =~= old(out)@ + json_head(f, t, seconds@));
}

/// A file in JSON.
pub open spec fn json_run(r: FileResult) -> Seq<char> {
    "      {\n        \"project\": \""@ + r.project@ + "\",\n        \"compiler\": \""@ + r.compiler@
        + "\",\n        \"opt\": \""@ + r.opt@ + "\",\n        \"passed\": "@ + (if r.passed {
        "true"@
    } else {
        "false"@
    }) + ",\n        \"file\": \""@ + r.file_name@ + "\"\n      }"@
}

fn push_json_run(out: &mut String, r: &FileResult)
    ensures
        final(out)@ == old(out)@ + json_run(*r),
{
    out.append("      {\n        \"project\": \"");
    out.append(r.project.as_str());
    out.append("\",\n        \"compiler\": \"");
    out.append(r.compiler.as_str());
    out.append("\",\n        \"opt\": \"");
    out.append(r.opt.as_str());
    out.append("\",\n        \"passed\": ");
    out.append(if r.passed { "true" } else { "false" });
    out.append(",\n        \"file\": \"");
    out.append(r.file_name.as_str());
    out.append("\"\n      }");
    assert(out@ =~= old(out)@ + json_run(*r));
}

/// What is behind the entry at `i` of `n` in a list.
pub open spec fn list_end(i: int, n: nat) -> Seq<char> {
    if i < n - 1 { ",\n"@ } else { "\n"@ }
}

fn list_sep(i: usize, n: usize) -> (r: &'static str)
    requires
        i < n,
    ensures
        r@ == list_end(i as int, n as nat),
{
    if i < n - 1 {
        ",\n"
    } else {
        "\n"
    }
}

/// The files at the first `n` places in JSON.
pub open spec fn json_runs(v: Seq<FileResult>, places: Seq<usize>, n: nat) -> Seq<char>
    decreases n,
{
    if n == 0 {
        Seq::empty()
    } else {
        json_runs(v, places, (n - 1) as nat) + json_run(v[places[n - 1] as int]) + list_end(
            n - 1,
            places.len(),
        )
    }
}

/// A source program in JSON.
pub open spec fn json_group(v: Seq<FileResult>, g: Group) -> Seq<char> {
    "    \""@ + g.source@ + "\": [\n"@ + json_runs(v, g.runs@, g.runs@.len()) + "    ]"@
}

fn push_json_group(out: &mut String, v: &Vec<FileResult>, g: &Group)
    requires
        forall|i: int| 0 <= i < g.runs@.len() ==> (#[trigger] g.runs@[i]) < v@.len(),
    ensures
        final(out)@ == old(out)@ + json_group(v@, *g),
{
    let ghost start = out@;
    out.append("    \"");
    out.append(g.source.as_str());
    out.append("\": [\n");
    let ghost head = "    \""@ + g.source@ + "\": [\n"@;
    let n: usize = g.runs.len();
    let mut i: usize = 0;
    assert(out@ =~= start + head + json_runs(v@, g.runs@, 0));
    while i < n
        invariant
            i <= n,
            n == g.runs@.len(),
            forall|k: int| 0 <= k < g.runs@.len() ==> (#[trigger] g.runs@[k]) < v@.len(),
            out@ == start + head + json_runs(v@, g.runs@, i as nat),
        decreases n - i,
    {
        push_json_run(out, &v[g.runs[i]]);
        out.append(list_sep(i, n));
        assert(out@ =~= start + head + json_runs(v@, g.runs@, (i + 1) as nat));
        i = i + 1;
    }
    out.append("    ]");
    assert(out@ =~= start + json_group(v@, *g));
}

/// The first `n` source programs in JSON.
pub open spec fn json_groups(v: Seq<FileResult>, g: Seq<Group>, n: nat) -> Seq<char>
    decreases n,
{
    if n == 0 {
        Seq::empty()
    } else {
        json_groups(v, g, (n - 1) as nat) + json_group(v, g[n - 1]) + list_end(n - 1, g.len())
    }
}

/// The results in JSON. There is one way to group the results, so there is one
/// text.
pub fn json_text(v: &Vec<FileResult>, f: &BenchFilters, t: BenchTotals, seconds: &str) -> (r: String)
    ensures
        exists|g: Seq<Group>| #[trigger]
            grouped(v@, v@.len(), g) && r@ == json_head(f, t, seconds@) + json_groups(
                v@,
                g,
                g.len(),
            ) + "  }\n}\n"@,
{
    let mut out: String = String::new();
    push_json_head(&mut out, f, t, seconds);
    let ghost head = json_head(f, t, seconds@);
    assert(out@ =~= head);
    let total: usize = v.len();
    let g: Vec<Group> = group_by_source(v);
    let n: usize = g.len();
    let mut i: usize = 0;
    assert(out@ =~= head + json_groups(v@, g@, 0));
    while i < n
        invariant
            i <= n,
            n == g@.len(),
            total == v@.len(),
            grouped(v@, v@.len(), g@),
            out@ == head + json_groups(v@, g@, i as nat),
        decreases n - i,
    {
        proof {
            lemma_places(v@, g@[i as int].source@, v@.len());
            assert(g@[i as int].runs@ == places_of(v@, g@[i as int].source@, v@.len()));
        }
        push_json_group(&mut out, v, &g[i]);
        out.append(list_sep(i, n));
        assert(out@ =~= head + json_groups(v@, g@, (i + 1) as nat));
        i = i + 1;
    }
    out.append("  }\n}\n");
    out
}

} // verus!
