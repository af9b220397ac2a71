//! Reports on the analysis of many object files.
use crate::text::{ends_with, owned, starts_with, text_eq};
use vstd::prelude::*;

pub mod groups;
pub mod report;

verus! {

/// Whether a file is looked at, by the ending of its name.
pub fn is_benchmark_file(extension: Option<&str>) -> (r: bool)
    ensures
        r == match extension {
            Some(e) => e@ == "o"@,
            None => false,
        },
{
    match extension {
        Some(e) => text_eq(e, "o"),
        None => false,
    }
}

/// How the analysis of a section ended.
#[derive(Debug)]
pub enum AnalysisResult {
    Pass,
    /// Rejected, and why.
    Fail(String),
    /// Not analyzed, and why.
    LoadError(String),
}

impl AnalysisResult {
    pub open spec fn spec_is_pass(&self) -> bool {
        self is Pass
    }

    /// Whether the section was accepted.
    #[verifier::when_used_as_spec(spec_is_pass)]
    pub fn is_pass(&self) -> (r: bool)
        ensures
            r == self.spec_is_pass(),
    {
        matches!(self, AnalysisResult::Pass)
    }

    /// Why the section was not accepted.
    pub open spec fn reason(&self) -> Seq<char> {
        match self {
            AnalysisResult::Pass => Seq::empty(),
            AnalysisResult::Fail(s) => s@,
            AnalysisResult::LoadError(s) => s@,
        }
    }
}

/// The result for a section.
#[derive(Debug)]
pub struct SectionResult {
    pub section: String,
    pub result: AnalysisResult,
}

/// The results for a file.
#[derive(Debug)]
pub struct FileResult {
    pub file_name: String,
    pub project: String,
    pub compiler: String,
    pub opt: String,
    pub source_prog: String,
    pub passed: bool,
    pub details: Vec<SectionResult>,
}

/// The place of the first `c` in `s` from `i` on.
pub open spec fn find_char(s: Seq<char>, c: char, i: int) -> Option<int>
    decreases s.len() - i,
{
    if i >= s.len() {
        None
    } else if s[i] == c {
        Some(i)
    } else {
        find_char(s, c, i + 1)
    }
}

/// A name without an ending, if it has it.
pub open spec fn without_ending(s: Seq<char>, end: Seq<char>) -> Seq<char> {
    if end.is_suffix_of(s) { s.take(s.len() - end.len()) } else { s }
}

/// Compiler, optimization and source of a file: the parts of a name that begins
/// with `clang-`, between its first two underscores, the last without `.o`. Of
/// any other name only the source is known.
pub open spec fn name_parts(s: Seq<char>) -> (Seq<char>, Seq<char>, Seq<char>) {
    let unknown = ("unknown"@, "unknown"@, s);
    if !"clang-"@.is_prefix_of(s) {
        unknown
    } else {
        match find_char(s, '_', 0) {
            None => unknown,
            Some(i) => match find_char(s, '_', i + 1) {
                None => unknown,
                Some(j) => (
                    s.subrange(0, i),
                    s.subrange(i + 1, j),
                    without_ending(s.skip(j + 1), ".o"@),
                ),
            },
        }
    }
}

fn find(s: &str, c: char, from: usize) -> (r: Option<usize>)
    requires
        from <= s@.len(),
    ensures
        match r {
            Some(i) => from <= i < s@.len() && find_char(s@, c, from as int) == Some(i as int),
            None => find_char(s@, c, from as int) is None,
        },
{
    let n: usize = s.unicode_len();
    let mut i: usize = from;
    while i < n
        invariant
            from <= i <= n,
            n == s@.len(),
            find_char(s@, c, from as int) == find_char(s@, c, i as int),
        decreases n - i,
    {
        if s.get_char(i) == c {
            return Some(i);
        }
        i = i + 1;
    }
    None
}

/// Compiler, optimization and source of a file by its name.
pub fn parse_benchmark_filename(name: &str) -> (r: (String, String, String))
    ensures
        (r.0@, r.1@, r.2@) == name_parts(name@),
{
    let n: usize = name.unicode_len();
    if starts_with(name, "clang-") {
        if let Some(i) = find(name, '_', 0) {
            if let Some(j) = find(name, '_', i + 1) {
                let compiler: String = owned(name.substring_char(0, i));
                let opt: String = owned(name.substring_char(i + 1, j));
                let rest: &str = name.substring_char(j + 1, n);
                assert(rest@ =~= name@.skip(j + 1));
                if ends_with(rest, ".o") {
                    proof {
                        reveal_strlit(".o");
                    }
                    let m: usize = rest.unicode_len();
                    let source: String = owned(rest.substring_char(0, m - 2));
                    assert(source@ =~= rest@.take(m - 2));
                    return (compiler, opt, source);
                }
                return (compiler, opt, owned(rest));
            }
        }
    }
    (owned("unknown"), owned("unknown"), owned(name))
}

/// Which files are analyzed.
#[derive(Debug)]
pub struct BenchFilters {
    pub project: Option<String>,
    pub compiler: Option<String>,
    pub opt: Option<String>,
    pub source: Option<String>,
}

/// No filter, or the text it asks for.
pub open spec fn lets_through(f: Option<String>, s: Seq<char>) -> bool {
    f matches Some(t) ==> t@ == s
}

fn passes(f: &Option<String>, s: &str) -> (r: bool)
    ensures
        r == lets_through(*f, s@),
{
    match f {
        Some(t) => text_eq(t.as_str(), s),
        None => true,
    }
}

/// A part of a name for each filter that is set.
pub open spec fn name_part(f: Option<String>) -> Seq<char> {
    match f {
        Some(t) => "_"@ + t@,
        None => Seq::empty(),
    }
}

fn push_part(s: &mut String, f: &Option<String>)
    ensures
        final(s)@ == old(s)@ + name_part(*f),
{
    if let Some(t) = f {
        s.append("_");
        s.append(t.as_str());
    }
    assert(s@ =~= old(s)@ + name_part(*f));
}

impl BenchFilters {
    /// Whether a file is analyzed.
    pub fn keeps(&self, project: &str, compiler: &str, opt: &str, source: &str) -> (r: bool)
        ensures
            r == (lets_through(self.project, project@) && lets_through(self.compiler, compiler@)
                && lets_through(self.opt, opt@) && lets_through(self.source, source@)),
    {
        passes(&self.project, project) && passes(&self.compiler, compiler) && passes(
            &self.opt,
            opt,
        ) && passes(&self.source, source)
    }

    /// The name of a report.
    pub fn base_name(&self) -> (r: String)
        ensures
            r@ == "benchmark"@ + name_part(self.project) + name_part(self.compiler) + name_part(
                self.opt,
            ) + name_part(self.source),
    {
        let mut s: String = owned("benchmark");
        push_part(&mut s, &self.project);
        push_part(&mut s, &self.compiler);
        push_part(&mut s, &self.opt);
        push_part(&mut s, &self.source);
        s
    }
}

/// How many files and sections there are, and how many passed.
#[derive(Debug, Clone, Copy, PartialEq, Eq, Structural)]
pub struct BenchTotals {
    pub files: u64,
    pub files_passed: u64,
    pub sections: u64,
    pub sections_passed: u64,
}

/// How many of the first `n` sections passed.
pub open spec fn sections_passing(v: Seq<SectionResult>, n: nat) -> nat
    decreases n,
{
    if n == 0 {
        0
    } else {
        sections_passing(v, (n - 1) as nat) + if v[n - 1].result.is_pass() { 1nat } else { 0 }
    }
}

/// How many of the first `n` files passed.
pub open spec fn files_passing(v: Seq<FileResult>, n: nat) -> nat
    decreases n,
{
    if n == 0 {
        0
    } else {
        files_passing(v, (n - 1) as nat) + if v[n - 1].passed { 1nat } else { 0 }
    }
}

/// How many sections the first `n` files have.
pub open spec fn section_count(v: Seq<FileResult>, n: nat) -> nat
    decreases n,
{
    if n == 0 { 0 } else { section_count(v, (n - 1) as nat) + v[n - 1].details@.len() }
}

/// How many sections of the first `n` files passed.
pub open spec fn sections_passed(v: Seq<FileResult>, n: nat) -> nat
    decreases n,
{
    if n == 0 {
        0
    } else {
        sections_passed(v, (n - 1) as nat) + sections_passing(
            v[n - 1].details@,
            v[n - 1].details@.len(),
        )
    }
}

fn count_passing(v: &Vec<SectionResult>) -> (r: u64)
    ensures
        r == sections_passing(v@, v@.len()),
        r <= v@.len(),
{
    let mut c: u64 = 0;
    let total: usize = v.len();
    let mut i: usize = 0;
    while i < total
        invariant
            i <= total,
            total == v@.len(),
            c == sections_passing(v@, i as nat),
            c <= i,
        decreases total - i,
    {
        if v[i].result.is_pass() {
            c = c + 1;
        }
        i = i + 1;
    }
    c
}

proof fn lemma_section_count_grows(v: Seq<FileResult>, i: nat, n: nat)
    requires
        i <= n <= v.len(),
    ensures
        section_count(v, i) <= section_count(v, n),
    decreases n,
{
    if i < n {
        lemma_section_count_grows(v, i, (n - 1) as nat);
    }
}

/// How many files and sections there are, and how many passed.
pub fn totals(v: &Vec<FileResult>) -> (r: BenchTotals)
    requires
        section_count(v@, v@.len()) <= u64::MAX,
    ensures
        r.files == v@.len(),
        r.files_passed == files_passing(v@, v@.len()),
        r.sections == section_count(v@, v@.len()),
        r.sections_passed == sections_passed(v@, v@.len()),
{
    let total: usize = v.len();
    let mut files_passed: u64 = 0;
    let mut sections: u64 = 0;
    let mut good: u64 = 0;
    let mut i: usize = 0;
    while i < total
        invariant
            i <= total,
            total == v@.len(),
            section_count(v@, v@.len()) <= u64::MAX,
            files_passed == files_passing(v@, i as nat),
            files_passed <= i,
            sections == section_count(v@, i as nat),
            good == sections_passed(v@, i as nat),
            good <= sections,
        decreases total - i,
    {
        proof {
            lemma_section_count_grows(v@, (i + 1) as nat, v@.len());
        }
        if v[i].passed {
            files_passed = files_passed + 1;
        }
        let count: u64 = v[i].details.len() as u64;
        sections = sections + count;
        good = good + count_passing(&v[i].details);
        i = i + 1;
    }
    BenchTotals { files: total as u64, files_passed, sections, sections_passed: good }
}

/// Texts as in a dictionary: by the first character that differs.
pub open spec fn before(a: Seq<char>, b: Seq<char>) -> bool
    decreases a.len(),
{
    if b.len() == 0 {
        false
    } else if a.len() == 0 {
        true
    } else if a[0] != b[0] {
        a[0] < b[0]
    } else {
        before(a.skip(1), b.skip(1))
    }
}

/// Whether a text comes before another in a dictionary.
pub fn text_before(a: &str, b: &str) -> (r: bool)
    ensures
        r == before(a@, b@),
{
    let n: usize = a.unicode_len();
    let m: usize = b.unicode_len();
    let mut i: usize = 0;
    assert(a@.skip(0) =~= a@);
    assert(b@.skip(0) =~= b@);
    while i < n && i < m
        invariant
            i <= n,
            i <= m,
            n == a@.len(),
            m == b@.len(),
            before(a@, b@) == before(a@.skip(i as int), b@.skip(i as int)),
        decreases n - i,
    {
        let c: char = a.get_char(i);
        let d: char = b.get_char(i);
        assert(a@.skip(i as int)[0] == c);
        assert(b@.skip(i as int)[0] == d);
        if c != d {
            return c < d;
        }
        assert(a@.skip(i as int).skip(1) =~= a@.skip(i + 1));
        assert(b@.skip(i as int).skip(1) =~= b@.skip(i + 1));
        i = i + 1;
    }
    i < m
}

/// The order of texts is a strict total order.
pub proof fn law_texts_are_ordered(a: Seq<char>, b: Seq<char>, c: Seq<char>)
    ensures
        !before(a, a),
        before(a, b) ==> !before(b, a),
        before(a, b) && before(b, c) ==> before(a, c),
        a != b ==> before(a, b) || before(b, a),
    decreases a.len(),
{
    if a.len() > 0 && b.len() > 0 && c.len() > 0 {
        law_texts_are_ordered(a.skip(1), b.skip(1), c.skip(1));
        if a.skip(1) == b.skip(1) && a[0] == b[0] {
            assert(a =~= seq![a[0]] + a.skip(1));
            assert(b =~= seq![b[0]] + b.skip(1));
        }
    } else if a.len() > 0 && b.len() > 0 {
        law_texts_are_ordered(a.skip(1), b.skip(1), c);
        if a.skip(1) == b.skip(1) && a[0] == b[0] {
            assert(a =~= seq![a[0]] + a.skip(1));
            assert(b =~= seq![b[0]] + b.skip(1));
        }
    } else if a.len() > 0 {
        law_texts_are_ordered(a.skip(1), b, c);
    } else if b.len() == 0 {
        assert(a =~= b);
    }
}

} // verus!
