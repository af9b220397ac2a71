//! What command lines, file names and reports mean.
use crate::batch::{finding_texts, is_elf_ending};
use crate::benchmark::groups::{places_of, reported_before};
use crate::benchmark::{
    before, files_passing, find_char, lets_through, name_part, name_parts, section_count,
    sections_passed, sections_passing, FileResult, SectionResult,
};
use crate::cli::{
    kind_of_ending, override_from, override_of, sizes_given, warning, warnings, GlobalOpts, InputKind,
    Override,
};
use crate::ast::prog::{kind_of_section, ProgramKind};
use crate::common::config::{names_differ, override_map, MapOverride};
use crate::common::programs::sample_instrs;
use crate::common::utils::{
    distinct, first_ending, kind_by_labels, label_map, program_outcome, ProgramLoadError,
};
use crate::compact::ast::{Instr, Program};
use crate::compact::bpf_to_ast::{lowered, registers_exist, Refusal};
use crate::parsing::bpf_insn::records;
use crate::compact::context::AnalysisStats;
use crate::text::{dec, lowercase, trimmed};
use crate::tokens::{law_numbers_read_back, parsed_in};
use vstd::prelude::*;

verus! {

proof fn lemma_name_is_read(name: Seq<char>, rest: Seq<char>, read: Seq<char>)
    requires
        forall|i: int| 0 <= i < name.len() ==> #[trigger] name[i] != ':',
    ensures
        override_from(name + seq![':'] + rest, read) == match parsed_in(
            rest,
            false,
            0,
            u32::MAX as int,
        ) {
            Some(n) => Override::Size(read + name, n as u32),
            None => Override::BadSize,
        },
    decreases name.len(),
{
    let s = name + seq![':'] + rest;
    if name.len() == 0 {
        assert(s[0] == ':');
        assert(s.skip(1) =~= rest);
        assert(read + name =~= read);
    } else {
        assert(s[0] == name[0]);
        let tail = name.skip(1);
        assert forall|i: int| 0 <= i < tail.len() implies #[trigger] tail[i] != ':' by {
            assert(tail[i] == name[i + 1]);
        }
        lemma_name_is_read(tail, rest, read.push(name[0]));
        assert(s.skip(1) =~= tail + seq![':'] + rest);
        assert(read.push(name[0]) + tail =~= read + name);
    }
}

/// The size of a map that is written as its name, a colon and a number is the
/// one that is taken.
pub proof fn law_map_sizes_are_read(name: Seq<char>, n: u32)
    requires
        forall|i: int| 0 <= i < name.len() ==> #[trigger] name[i] != ':',
    ensures
        override_of(name + seq![':'] + dec(n as int)) == Override::Size(name, n),
        warning(name + seq![':'] + dec(n as int)) is None,
{
    law_numbers_read_back(n as int);
    lemma_name_is_read(name, dec(n as int), Seq::empty());
    assert(Seq::<char>::empty() + name =~= name);
}

proof fn lemma_no_colon(s: Seq<char>, read: Seq<char>)
    requires
        forall|i: int| 0 <= i < s.len() ==> #[trigger] s[i] != ':',
    ensures
        override_from(s, read) is NoColon,
    decreases s.len(),
{
    if s.len() > 0 {
        assert(s[0] != ':');
        assert forall|i: int| 0 <= i < s.skip(1).len() implies #[trigger] s.skip(1)[i] != ':' by {
            assert(s.skip(1)[i] == s[i + 1]);
        }
        lemma_no_colon(s.skip(1), read.push(s[0]));
    }
}

/// A text without a colon, or with something else than a number behind it, is
/// warned about.
pub proof fn law_bad_map_sizes_are_warned_about(name: Seq<char>, rest: Seq<char>)
    requires
        forall|i: int| 0 <= i < name.len() ==> #[trigger] name[i] != ':',
    ensures
        override_of(name) is NoColon,
        warning(name) is Some,
        parsed_in(rest, false, 0, 0xFFFF_FFFF) is None ==> override_of(name + seq![':'] + rest)
            is BadSize && warning(name + seq![':'] + rest) is Some,
{
    lemma_no_colon(name, Seq::empty());
    lemma_name_is_read(name, rest, Seq::empty());
}

/// Of several sizes for a map the last one counts.
pub proof fn law_the_last_size_counts(v: Seq<String>, n: nat, i: int, name: Seq<char>, size: u32)
    requires
        n <= v.len(),
        0 <= i < n,
        override_of(v[i]@) == Override::Size(name, size),
        forall|j: int|
            i < j < n ==> !(override_of((#[trigger] v[j])@) matches Override::Size(m, _) && m
                == name),
    ensures
        sizes_given(v, n).contains_key(name),
        sizes_given(v, n)[name] == size,
    decreases n,
{
    if i < n - 1 {
        law_the_last_size_counts(v, (n - 1) as nat, i, name, size);
        assert(v[n - 1] == v[n - 1]);
    }
}

/// Which settings options stand for: the loudest counts, what turns something
/// off counts before what turns it on, and what is not given is as usual.
pub proof fn law_options_are_followed(o: GlobalOpts)
    ensures
        ({
            let s = o.switches();
            &&& o.very_verbose ==> s.verbosity == 3
            &&& o.verbose && !o.very_verbose ==> s.verbosity == 2
            &&& o.quiet && !o.verbose && !o.very_verbose ==> s.verbosity == 0
            &&& !o.quiet && !o.verbose && !o.very_verbose ==> s.verbosity == 1
            &&& s.domain_mode is Interval <==> o.kernel_mode && !o.zone_mode
            &&& o.no_detect_bounded_loops ==> !s.detect_bounded_loops
            &&& o.detect_bounded_loops && !o.no_detect_bounded_loops ==> s.detect_bounded_loops
            &&& !o.detect_bounded_loops && !o.no_detect_bounded_loops ==> s.detect_bounded_loops
                == !o.kernel_mode
            &&& o.multi_entry_loops ==> !s.require_single_loop_entry
            &&& o.single_entry_loops && !o.multi_entry_loops ==> s.require_single_loop_entry
            &&& !o.single_entry_loops && !o.multi_entry_loops ==> s.require_single_loop_entry
                == o.kernel_mode
            &&& s.enable_private_stack == !o.disable_private_stack
            &&& s.skip_dbm_check == o.skip_dbm
            &&& s.use_widening == o.use_widening
            &&& s.enable_path_trace == o.enable_path_trace
            &&& s.bcf_enabled == o.bcf
            &&& s.debug_pc == o.debug_pc
            &&& o.max_insn matches Some(n) ==> s.max_insn == n
            &&& o.max_insn is None ==> s.max_insn == 1000000
            &&& o.max_states matches Some(n) ==> s.max_states_per_pc == n
            &&& o.max_states is None ==> s.max_states_per_pc == 8
            &&& o.log_interval matches Some(n) ==> s.log_interval == n
            &&& o.log_interval is None ==> s.log_interval == 100000
        }),
{
}

/// The endings of file names that stand for something.
pub proof fn law_endings_stand_for_kinds(s: Seq<char>)
    ensures
        kind_of_ending(s) == Some(InputKind::Elf) <==> s == seq!['o'],
        kind_of_ending(s) == Some(InputKind::C) <==> s == seq!['c'],
        kind_of_ending(s) == Some(InputKind::Json) <==> s == seq!['j', 's', 'o', 'n'],
        is_elf_ending(s) <==> s == seq!['o'] || s == seq!['e', 'l', 'f'] || s == seq!['s', 'o'],
{
    reveal_strlit("o");
    reveal_strlit("c");
    reveal_strlit("json");
    reveal_strlit("elf");
    reveal_strlit("so");
    assert("o"@ =~= seq!['o']);
    assert("c"@ =~= seq!['c']);
    assert("json"@ =~= seq!['j', 's', 'o', 'n']);
    assert("elf"@ =~= seq!['e', 'l', 'f']);
    assert("so"@ =~= seq!['s', 'o']);
    assert("o"@[0] == 'o' && "c"@[0] == 'c' && "json"@.len() == 4);
}

proof fn lemma_found(s: Seq<char>, c: char, i: int, k: int)
    requires
        0 <= i <= k < s.len(),
        s[k] == c,
        forall|j: int| i <= j < k ==> #[trigger] s[j] != c,
    ensures
        find_char(s, c, i) == Some(k),
    decreases k - i,
{
    if i < k {
        assert(s[i] != c);
        lemma_found(s, c, i + 1, k);
    }
}

/// The name of a benchmark is read back: compiler, optimization and program,
/// with an underscore between each two.
pub proof fn law_benchmark_names_are_read(
    compiler: Seq<char>,
    opt: Seq<char>,
    program: Seq<char>,
)
    requires
        "clang-"@.is_prefix_of(compiler),
        forall|i: int| 0 <= i < compiler.len() ==> #[trigger] compiler[i] != '_',
        forall|i: int| 0 <= i < opt.len() ==> #[trigger] opt[i] != '_',
    ensures
        name_parts(compiler + seq!['_'] + opt + seq!['_'] + program + ".o"@) == (
            compiler,
            opt,
            program,
        ),
{
    let s = compiler + seq!['_'] + opt + seq!['_'] + program + ".o"@;
    let p = "clang-"@;
    assert(p.is_prefix_of(s)) by {
        assert(s.subrange(0, p.len() as int) =~= compiler.subrange(0, p.len() as int));
    }
    let i = compiler.len() as int;
    let j = i + 1 + opt.len();
    assert(s[i] == '_');
    assert forall|k: int| 0 <= k < i implies #[trigger] s[k] != '_' by {
        assert(s[k] == compiler[k]);
    }
    lemma_found(s, '_', 0, i);
    assert(s[j] == '_');
    assert forall|k: int| i + 1 <= k < j implies #[trigger] s[k] != '_' by {
        assert(s[k] == opt[k - i - 1]);
    }
    lemma_found(s, '_', i + 1, j);
    assert(s.subrange(0, i) =~= compiler);
    assert(s.subrange(i + 1, j) =~= opt);
    let rest = s.skip(j + 1);
    assert(rest =~= program + ".o"@);
    assert(".o"@.is_suffix_of(rest)) by {
        assert(rest.subrange(rest.len() - ".o"@.len(), rest.len() as int) =~= ".o"@);
    }
    assert(rest.take(rest.len() - ".o"@.len()) =~= program);
}

/// Any other name is that of a program of which nothing else is known.
pub proof fn law_other_names_are_unknown(s: Seq<char>)
    requires
        !"clang-"@.is_prefix_of(s),
    ensures
        name_parts(s) == ("unknown"@, "unknown"@, s),
{
}

/// Which results pass.
pub open spec fn is_passed(r: FileResult) -> bool {
    r.passed
}

/// The files that passed are counted one by one: none of none, and one more
/// for each file that passed. So all of them did if the count is the number of
/// files, and none if it is 0.
pub proof fn law_passed_files_are_counted(v: Seq<FileResult>, n: nat)
    requires
        n <= v.len(),
    ensures
        files_passing(v, n) <= n,
        files_passing(v, n) == n <==> forall|i: int| 0 <= i < n ==> is_passed(#[trigger] v[i]),
        files_passing(v, n) == 0 <==> forall|i: int| 0 <= i < n ==> !is_passed(#[trigger] v[i]),
    decreases n,
{
    if n > 0 {
        law_passed_files_are_counted(v, (n - 1) as nat);
        let r = v[n - 1];
    }
}

/// The same for sections.
pub proof fn law_passed_sections_are_counted(v: Seq<SectionResult>, n: nat)
    requires
        n <= v.len(),
    ensures
        sections_passing(v, n) <= n,
        sections_passing(v, n) == n <==> forall|i: int|
            0 <= i < n ==> (#[trigger] v[i]).result is Pass,
        sections_passing(v, n) == 0 <==> forall|i: int|
            0 <= i < n ==> !((#[trigger] v[i]).result is Pass),
    decreases n,
{
    if n > 0 {
        law_passed_sections_are_counted(v, (n - 1) as nat);
        let r = v[n - 1];
    }
}

/// The sections of all files are those of each file together, and no more pass
/// than there are.
pub proof fn law_all_sections_are_counted(v: Seq<FileResult>, n: nat)
    requires
        n <= v.len(),
    ensures
        sections_passed(v, n) <= section_count(v, n),
        n > 0 ==> section_count(v, n) == section_count(v, (n - 1) as nat) + v[n - 1].details@.len(),
        section_count(v, 0) == 0 && sections_passed(v, 0) == 0,
        n > 0 ==> sections_passed(v, n) == sections_passed(v, (n - 1) as nat) + sections_passing(
            v[n - 1].details@,
            v[n - 1].details@.len(),
        ),
    decreases n,
{
    if n > 0 {
        law_all_sections_are_counted(v, (n - 1) as nat);
        law_passed_sections_are_counted(v[n - 1].details@, v[n - 1].details@.len());
    }
}

/// The results of a source program are all those with its name, each once and
/// in their order.
pub proof fn law_results_are_found_by_source(
    v: Seq<FileResult>,
    source: Seq<char>,
    n: nat,
    k: usize,
)
    requires
        n <= v.len() <= usize::MAX,
    ensures
        places_of(v, source, n).contains(k) <==> k < n && v[k as int].source_prog@ == source,
        forall|i: int, j: int|
            0 <= i < j < places_of(v, source, n).len() ==> #[trigger] places_of(v, source, n)[i]
                < #[trigger] places_of(v, source, n)[j] < n,
        forall|i: int|
            0 <= i < places_of(v, source, n).len() ==> #[trigger] places_of(v, source, n)[i] < n,
    decreases n,
{
    if n > 0 {
        law_results_are_found_by_source(v, source, (n - 1) as nat, k);
        let p = places_of(v, source, (n - 1) as nat);
        let q = places_of(v, source, n);
        if p.contains(k) {
            let i = choose|i: int| 0 <= i < p.len() && p[i] == k;
            assert(q[i] == k);
        }
        if v[n - 1].source_prog@ == source {
            assert(q[q.len() - 1] == (n - 1) as usize);
            if q.contains(k) && k != n - 1 {
                let i = choose|i: int| 0 <= i < q.len() && q[i] == k;
                assert(p[i] == k);
            }
        }
    }
}

/// Results are reported by project, then by compiler, then by optimization, then
/// as they came.
pub proof fn law_reports_are_sorted(v: Seq<FileResult>, a: usize, b: usize)
    ensures
        ({
            let (x, y) = (v[a as int], v[b as int]);
            &&& x.project@ != y.project@ ==> reported_before(v, a, b) == before(
                x.project@,
                y.project@,
            )
            &&& x.project@ == y.project@ && x.compiler@ != y.compiler@ ==> reported_before(v, a, b)
                == before(x.compiler@, y.compiler@)
            &&& x.project@ == y.project@ && x.compiler@ == y.compiler@ && x.opt@ != y.opt@
                ==> reported_before(v, a, b) == before(x.opt@, y.opt@)
            &&& x.project@ == y.project@ && x.compiler@ == y.compiler@ && x.opt@ == y.opt@
                ==> reported_before(v, a, b) == (a < b)
        }),
{
}

/// Texts are ordered as in a dictionary: a beginning comes first, and otherwise
/// the first letter that differs decides.
pub proof fn law_texts_are_in_dictionary_order(common: Seq<char>, a: Seq<char>, b: Seq<char>)
    ensures
        b.len() > 0 ==> before(common, common + b),
        a.len() > 0 && b.len() > 0 && (a[0] as int) < (b[0] as int) ==> before(
            common + a,
            common + b,
        ),
    decreases common.len(),
{
    if common.len() == 0 {
        assert(common + a =~= a);
        assert(common + b =~= b);
        assert(common =~= Seq::<char>::empty());
    } else {
        let rest = common.skip(1);
        law_texts_are_in_dictionary_order(rest, a, b);
        assert((common + a).skip(1) =~= rest + a);
        assert((common + b).skip(1) =~= rest + b);
        assert((common + a)[0] == common[0] && (common + b)[0] == common[0]);
    }
}

/// A filter lets through what it names, and everything if it is not set; only
/// filters that are set show in the name of a report.
pub proof fn law_filters_let_through_what_they_name(f: Option<String>, s: Seq<char>)
    ensures
        f is None ==> lets_through(f, s) && name_part(f).len() == 0,
        f matches Some(t) ==> (lets_through(f, s) <==> t@ == s),
        f matches Some(t) ==> name_part(f) == seq!['_'] + t@,
{
    reveal_strlit("_");
    assert("_"@ =~= seq!['_']);
}

/// Each finding is named if it was made, and only then.
pub proof fn law_findings_are_named(s: AnalysisStats)
    ensures
        finding_texts(s).len() == (if s.unsafe_stack_load { 1int } else { 0 }) + (
        if s.unsafe_stack_store { 1int } else { 0 }) + (if s.dbm_inconsistent { 1int } else { 0 })
            + (if s.unsupported_opcode { 1int } else { 0 }),
        s.unsafe_stack_load ==> finding_texts(s)[0] == "unsafe stack load"@,
        s.unsupported_opcode ==> finding_texts(s).last() == "unsupported opcode"@,
        s.unsafe_stack_store && !s.unsafe_stack_load ==> finding_texts(s)[0]
            == "unsafe stack store"@,
        s.dbm_inconsistent && !s.unsupported_opcode ==> finding_texts(s).last()
            == "DBM inconsistency"@,
{
}

/// A label in a list of names without repetition is the one that is found.
pub proof fn law_labels_are_found(
    v: Seq<(String, Option<String>)>,
    n: nat,
    i: int,
    name: Seq<char>,
)
    requires
        n <= v.len(),
        0 <= i < n,
        v[i].0@ == name,
        distinct(v),
    ensures
        label_map(v, n).contains_key(name),
        label_map(v, n)[name] == match v[i].1 {
            Some(l) => Some(l@),
            None => None,
        },
    decreases n,
{
    if i < n - 1 {
        law_labels_are_found(v, (n - 1) as nat, i, name);
        assert(v[i].0@ != v[n - 1].0@);
    }
}

/// A name that is in no list has no label.
pub proof fn law_other_names_have_no_label(
    v: Seq<(String, Option<String>)>,
    n: nat,
    name: Seq<char>,
)
    requires
        n <= v.len(),
        forall|i: int| 0 <= i < n ==> (#[trigger] v[i]).0@ != name,
    ensures
        !label_map(v, n).contains_key(name),
    decreases n,
{
    if n > 0 {
        law_other_names_have_no_label(v, (n - 1) as nat, name);
        assert(v[n - 1].0@ != name);
    }
}

/// An object file's kind is that of the label of its full name, else that of
/// the label of its last part, else that of some name that ends with that part;
/// without any of these, and with an empty label, it is not known.
pub proof fn law_labels_decide_the_kind(
    v: Seq<(String, Option<String>)>,
    exact: Seq<char>,
    base: Seq<char>,
    i: int,
)
    requires
        distinct(v),
        0 <= i < v.len(),
    ensures
        v[i].0@ == exact ==> kind_by_labels(v, exact, base) == match v[i].1 {
            Some(l) => kind_of_section(trimmed(lowercase(l@))),
            None => ProgramKind::Unknown,
        },
        v[i].0@ == base && (forall|j: int| 0 <= j < v.len() ==> (#[trigger] v[j]).0@ != exact)
            ==> kind_by_labels(v, exact, base) == match v[i].1 {
            Some(l) => kind_of_section(trimmed(lowercase(l@))),
            None => ProgramKind::Unknown,
        },
        (forall|j: int|
            0 <= j < v.len() ==> (#[trigger] v[j]).0@ != exact && v[j].0@ != base
                && !base.is_suffix_of(v[j].0@)) ==> kind_by_labels(v, exact, base)
            == ProgramKind::Unknown,
{
    if v[i].0@ == exact {
        law_labels_are_found(v, v.len(), i, exact);
    }
    if v[i].0@ == base {
        law_labels_are_found(v, v.len(), i, base);
    }
    if forall|j: int| 0 <= j < v.len() ==> (#[trigger] v[j]).0@ != exact {
        law_other_names_have_no_label(v, v.len(), exact);
    }
    if forall|j: int|
        0 <= j < v.len() ==> (#[trigger] v[j]).0@ != exact && v[j].0@ != base
            && !base.is_suffix_of(v[j].0@) {
        assert forall|j: int| 0 <= j < v.len() implies (#[trigger] v[j]).0@ != base by {}
        law_other_names_have_no_label(v, v.len(), base);
        lemma_none_ends(v, base, 0);
    }
}

proof fn lemma_none_ends(v: Seq<(String, Option<String>)>, end: Seq<char>, i: int)
    requires
        0 <= i <= v.len(),
        forall|j: int| i <= j < v.len() ==> !end.is_suffix_of((#[trigger] v[j]).0@),
    ensures
        first_ending(v, end, i) is None,
    decreases v.len() - i,
{
    if i < v.len() {
        lemma_none_ends(v, end, i + 1);
    }
}

/// The name that is found by its end is the first that has it.
pub proof fn law_first_endings_are_found(v: Seq<(String, Option<String>)>, end: Seq<char>, i: int)
    requires
        0 <= i <= v.len(),
    ensures
        match first_ending(v, end, i) {
            Some(k) => i <= k < v.len() && end.is_suffix_of(v[k].0@) && forall|j: int|
                i <= j < k ==> !end.is_suffix_of((#[trigger] v[j]).0@),
            None => forall|j: int| i <= j < v.len() ==> !end.is_suffix_of((#[trigger] v[j]).0@),
        },
    decreases v.len() - i,
{
    if i < v.len() {
        law_first_endings_are_found(v, end, i + 1);
    }
}

/// The size that a setting has for a map is the one given under its name.
pub proof fn law_settings_keep_map_sizes(v: Seq<MapOverride>, n: nat, i: int)
    requires
        n <= v.len(),
        0 <= i < n,
        names_differ(v),
    ensures
        override_map(v, n).contains_key(v[i].name@),
        override_map(v, n)[v[i].name@] == v[i].size,
    decreases n,
{
    if i < n - 1 {
        law_settings_keep_map_sizes(v, (n - 1) as nat, i);
        assert(v[i].name@ != v[n - 1].name@);
    }
}

/// Each warning is about one override, in their order; overrides that can be
/// used are not warned about.
pub proof fn law_warnings_come_in_order(v: Seq<String>, n: nat)
    requires
        n < v.len(),
    ensures
        warnings(v, 0).len() == 0,
        warning(v[n as int]@) is None ==> warnings(v, n + 1) == warnings(v, n),
        warning(v[n as int]@) matches Some(w) ==> warnings(v, n + 1) == warnings(v, n).push(w),
{
}

/// Bytes are read as the program they encode, or as the first fault in them.
pub proof fn law_programs_are_what_their_bytes_say(
    b: Seq<u8>,
    r: Result<Program, ProgramLoadError>,
)
    requires
        program_outcome(b, r),
    ensures
        r matches Ok(p) ==> lowered(records(b), 0) == Ok::<Seq<Instr>, Refusal>(p.instrs@),
        r is Ok <==> registers_exist(records(b), 0) && lowered(records(b), 0) is Ok,
        !registers_exist(records(b), 0) ==> r matches Err(ProgramLoadError::BadRegister),
{
}

/// A jump's target, if it has one.
pub open spec fn jumps_to(i: Instr, n: int) -> bool {
    match i {
        Instr::If { target, .. } => target < n,
        Instr::Jmp { target } => target < n,
        _ => true,
    }
}

/// The sample programs end with an exit, and their jumps stay within them.
pub proof fn law_samples_are_closed(i: int, k: int)
    requires
        0 <= i < 6,
        0 <= k < sample_instrs(i).len(),
    ensures
        sample_instrs(i).last() is Exit,
        jumps_to(sample_instrs(i)[k], sample_instrs(i).len() as int),
        sample_instrs(i)[0] is MovArg0,
{
}

} // verus!
