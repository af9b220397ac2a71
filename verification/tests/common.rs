use zovia::ast::{MemSize, Width};
use zovia::batch::{
    analyze_program_for_file, findings, findings_in, is_elf_candidate, BatchSummary, FileError,
};
use zovia::benchmark::groups::{group_by_source, sorted_runs};
use zovia::benchmark::report::{json_text, report_text, Measured};
use zovia::benchmark::{
    is_benchmark_file, parse_benchmark_filename, text_before, totals, AnalysisResult, BenchFilters, BenchTotals,
    FileResult, SectionResult,
};
use zovia::cli::{input_kind, parse_override, GlobalOpts, InputKind, ParsedOverride};
use zovia::common::config::{DomainMode, VerifierConfig};
use zovia::common::programs;
use zovia::common::utils::ProgramLoadError;
use zovia::compact::ast::{AluOp, Instr, Operand, Program};
use zovia::compact::context::AnalysisStats;
use zovia::compact::domain::Reg;
use zovia::domains::annotation::{ProgramAnnotation, VERSION_V1};
use zovia::parsing::elf_loader::ElfLoadError;
use zovia::text::{dec_text, hex_text, join, nat_text, push_hex_padded, push_padded, strip_char, trim};

fn opts() -> GlobalOpts {
    GlobalOpts {
        quiet: false,
        verbose: false,
        very_verbose: false,
        kernel_mode: false,
        zone_mode: false,
        skip_dbm: false,
        use_widening: false,
        enable_path_trace: false,
        detect_bounded_loops: false,
        no_detect_bounded_loops: false,
        single_entry_loops: false,
        multi_entry_loops: false,
        enable_private_stack: false,
        disable_private_stack: false,
        bcf: false,
        max_insn: None,
        max_states: None,
        log_interval: None,
        debug_pc: None,
        map_overrides: Vec::new(),
    }
}

#[test]
fn settings_have_standard_values() {
    let (c, said) = opts().into_verifier_config();
    let d = VerifierConfig::default();
    assert!(said.is_empty());
    assert_eq!((c.verbosity, c.max_insn, c.max_states_per_pc), (1, 1_000_000, 8));
    assert_eq!((d.verbosity, d.max_insn, d.log_interval), (1, 1_000_000, 100_000));
    assert_eq!(c.domain_mode, DomainMode::Zone);
    assert!(c.detect_bounded_loops && !c.require_single_loop_entry && c.enable_private_stack);
    assert!(c.map_overrides.is_empty() && c.debug_pc.is_none() && !c.bcf_enabled);
}

#[test]
fn options_change_settings() {
    let mut o = opts();
    o.kernel_mode = true;
    o.quiet = true;
    o.verbose = true;
    o.max_insn = Some(7);
    o.debug_pc = Some(3);
    o.disable_private_stack = true;
    o.enable_private_stack = true;
    let (c, _) = o.into_verifier_config();
    assert_eq!(c.domain_mode, DomainMode::Interval);
    assert!(!c.detect_bounded_loops && c.require_single_loop_entry && !c.enable_private_stack);
    assert_eq!((c.verbosity, c.max_insn, c.debug_pc), (2, 7, Some(3)));
    let mut o = opts();
    o.kernel_mode = true;
    o.zone_mode = true;
    o.multi_entry_loops = true;
    o.detect_bounded_loops = true;
    let (c, _) = o.into_verifier_config();
    assert_eq!(c.domain_mode, DomainMode::Zone);
    assert!(c.detect_bounded_loops && !c.require_single_loop_entry);
    let mut o = opts();
    o.very_verbose = true;
    assert_eq!(o.into_verifier_config().0.verbosity, 3);
}

#[test]
fn map_overrides_are_read() {
    let mut o = opts();
    o.map_overrides = ["a:4", "b", "c:x", "a:9", ":1", "d:1:2"].iter().map(|s| s.to_string()).collect();
    let (c, said) = o.into_verifier_config();
    let mut sizes: Vec<(String, u32)> = c.map_overrides.into_iter().map(|m| (m.name, m.size)).collect();
    sizes.sort();
    assert_eq!(sizes, vec![(String::new(), 1), (String::from("a"), 9)]);
    assert_eq!(
        said,
        vec![
            "Warning: invalid map override format 'b'. Expected 'name:size'",
            "Warning: invalid size in map override 'c:x'",
            "Warning: invalid size in map override 'd:1:2'",
        ]
    );
    assert!(matches!(parse_override("m:12"), ParsedOverride::Size(n, 12) if n == "m"));
    assert!(matches!(parse_override("m:"), ParsedOverride::BadSize));
    assert!(matches!(parse_override("m"), ParsedOverride::NoColon));
}

#[test]
fn object_files_are_recognized() {
    assert!(is_elf_candidate(true, Some("o")));
    assert!(is_elf_candidate(true, Some("elf")) && is_elf_candidate(true, Some("so")));
    assert!(!is_elf_candidate(true, Some("c")) && !is_elf_candidate(true, None));
    assert!(!is_elf_candidate(false, Some("o")));
    assert!(is_benchmark_file(Some("o")));
    assert!(!is_benchmark_file(Some("so")) && !is_benchmark_file(None));
}

#[test]
fn inputs_are_told_apart_by_their_names() {
    assert_eq!(input_kind(None, Some("o")), Some(InputKind::Elf));
    assert_eq!(input_kind(None, Some("c")), Some(InputKind::C));
    assert_eq!(input_kind(None, Some("json")), Some(InputKind::Json));
    assert_eq!(input_kind(None, Some("so")), None);
    assert_eq!(input_kind(None, None), None);
    assert_eq!(input_kind(Some(InputKind::C), Some("o")), Some(InputKind::C));
}

#[test]
fn files_are_counted() {
    let mut b = BatchSummary::default();
    assert!(b.count(Some(AnalysisStats::default())).is_none());
    let bad = AnalysisStats { dangerous: true, unsafe_stack_load: true, unsupported_opcode: true, ..Default::default() };
    assert_eq!(findings(b.count(Some(bad)).unwrap()), vec!["unsafe stack load", "unsupported opcode"]);
    let failed = b.count(None).unwrap();
    assert!(failed.dangerous && findings(failed).is_empty());
    assert_eq!((b.total, b.safe, b.dangerous), (3, 1, 2));
}

fn run(project: &str, opt: &str, source: &str, passed: bool) -> FileResult {
    FileResult {
        file_name: format!("clang-15_{}_{}.o", opt, source),
        project: project.to_string(),
        compiler: "clang-15".to_string(),
        opt: opt.to_string(),
        source_prog: source.to_string(),
        passed,
        details: vec![
            SectionResult { section: "tc".to_string(), result: AnalysisResult::Pass },
            SectionResult {
                section: "xdp".to_string(),
                result: if passed {
                    AnalysisResult::Pass
                } else {
                    AnalysisResult::Fail("out of bounds".to_string())
                },
            },
        ],
    }
}

fn runs() -> Vec<FileResult> {
    vec![
        run("suricata", "-O2", "lb", true),
        run("cilium", "-O2", "lxc", false),
        run("cilium", "-O2", "lb", true),
        run("cilium", "-O1", "lb", true),
        run("cilium", "-O1", "lb", true),
    ]
}

fn filters() -> BenchFilters {
    BenchFilters { project: None, compiler: None, opt: None, source: None }
}

#[test]
fn benchmark_names_are_taken_apart() {
    let parts = |s| {
        let (a, b, c) = parse_benchmark_filename(s);
        format!("{}|{}|{}", a, b, c)
    };
    assert_eq!(parts("clang-15_-O2_bpf_lxc.o"), "clang-15|-O2|bpf_lxc");
    assert_eq!(parts("clang-15_-O2_x"), "clang-15|-O2|x");
    assert_eq!(parts("clang-15_-O2.o"), "unknown|unknown|clang-15_-O2.o");
    assert_eq!(parts("gcc_-O2_x.o"), "unknown|unknown|gcc_-O2_x.o");
}

#[test]
fn filters_keep_what_they_name() {
    let mut f = filters();
    assert!(f.keeps("p", "c", "o", "s"));
    assert_eq!(f.base_name(), "benchmark");
    f.project = Some("p".to_string());
    f.opt = Some("-O2".to_string());
    assert!(f.keeps("p", "c", "-O2", "s"));
    assert!(!f.keeps("q", "c", "-O2", "s"));
    assert!(!f.keeps("p", "c", "-O1", "s"));
    assert_eq!(f.base_name(), "benchmark_p_-O2");
}

#[test]
fn results_are_counted_grouped_and_ordered() {
    let v = runs();
    assert_eq!(totals(&v), BenchTotals { files: 5, files_passed: 4, sections: 10, sections_passed: 9 });
    let g = group_by_source(&v);
    assert_eq!(g.len(), 2);
    assert_eq!((g[0].source.as_str(), &g[0].runs), ("lb", &vec![0, 2, 3, 4]));
    assert_eq!((g[1].source.as_str(), &g[1].runs), ("lxc", &vec![1]));
    assert_eq!(sorted_runs(&v, &g[0].runs), vec![3, 4, 2, 0]);
    assert!(text_before("a", "ab") && text_before("a", "b") && !text_before("b", "ab") && !text_before("a", "a"));
}

#[test]
fn reports_are_written() {
    let v = vec![run("cilium", "-O2", "lxc", false), run("cilium", "-O2", "lb", true)];
    let mut f = filters();
    f.project = Some("cilium".to_string());
    let m = Measured {
        date: 1700000000,
        duration: "1.50s".to_string(),
        program_rate: "50.0".to_string(),
        section_rate: "75.0".to_string(),
    };
    let t = totals(&v);
    assert_eq!(
        report_text(&v, &f, &m, t),
        "BPF Verifier Benchmark Report\n\
         =============================\n\
         Date:       1700000000\n\
         Duration:   1.50s\n\
         Filter [Project]:  cilium\n\
         \n--- Program Statistics ---\n\
         Total Files Found: 2\n\
         Files Passing:     1 (50.0%)\n\
         \n--- Section Statistics ---\n\
         Total Sections:    4\n\
         Sections Passing:  3 (75.0%)\n\
         \n--- Breakdown by Source Program ---\n\
         \nSource: lb\n  [PASS] [cilium] clang-15 -O2: clang-15_-O2_lb.o\n\
         \nSource: lxc\n  [FAIL] [cilium] clang-15 -O2: clang-15_-O2_lxc.o\n      - xdp: out of bounds\n"
    );
    let json = json_text(&v, &f, t, "1.50");
    assert!(json.starts_with("{\n  \"summary\": {\n    \"filters\": {\n      \"project\": \"cilium\",\n      \"none\": null\n    },\n    \"files_processed\": 2,\n"));
    assert!(json.ends_with("    \"lxc\": [\n      {\n        \"project\": \"cilium\",\n        \"compiler\": \"clang-15\",\n        \"opt\": \"-O2\",\n        \"passed\": false,\n        \"file\": \"clang-15_-O2_lxc.o\"\n      }\n    ]\n  }\n}\n"));
    assert!(json.contains("lb.o\"\n      }\n    ],\n    \"lxc\""));
    let value: serde_json::Value = serde_json::from_str(&json).unwrap();
    assert_eq!(value["summary"]["sections_passed"], serde_json::Value::from(3));
    assert_eq!(value["results_by_source"]["lb"][0]["passed"], serde_json::Value::Bool(true));
}

#[test]
fn annotations_start_empty() {
    let a = ProgramAnnotation::empty("abc".to_string());
    assert_eq!((a.version, a.program_hash.as_str(), a.obligations.len()), (VERSION_V1, "abc", 0));
    assert_eq!(VERSION_V1, 1);
}

#[test]
fn numbers_and_texts_are_written() {
    assert_eq!(dec_text(-120), "-120");
    assert_eq!(dec_text(i64::MIN), "-9223372036854775808");
    assert_eq!(nat_text(0), "0");
    assert_eq!(hex_text(0xbeef), "beef");
    let mut s = String::new();
    push_hex_padded(&mut s, 0x1f, 4);
    assert_eq!(s, "001f");
    let mut s = String::new();
    push_padded(&mut s, "ab", 4);
    assert_eq!(s, "  ab");
    assert_eq!(join(&vec!["a".to_string(), "b".to_string()], ", "), "a, b");
    assert_eq!(trim(" \tx y\n"), "x y");
    assert_eq!(strip_char("?xdp", '?'), Some("xdp"));
    assert_eq!(strip_char("xdp", '?'), None);
}

#[test]
fn files_without_a_program_are_not_analyzed() {
    assert!(matches!(
        analyze_program_for_file(b"text"),
        Err(FileError::Load(ProgramLoadError::Elf(ElfLoadError::Parse(_))))
    ));
}

#[test]
fn programs_are_judged() {
    let judged = |off| {
        findings_in(&Program {
            instrs: vec![
                Instr::Alu { width: Width::W64, op: AluOp::Mov, dst: Reg::R2, src: Operand::Reg(Reg::R10) },
                Instr::Alu { width: Width::W64, op: AluOp::Add, dst: Reg::R2, src: Operand::Imm(-16) },
                Instr::Load { size: MemSize::U8, dst: Reg::R0, base: Reg::R2, off },
                Instr::Exit,
            ],
        })
    };
    assert_eq!(judged(15), AnalysisStats::default());
    assert_eq!(findings(judged(16)), vec!["unsafe stack load"]);
    assert_eq!(findings(judged(-497)), vec!["unsafe stack load"]);
    assert_eq!(judged(-496), AnalysisStats::default());
    assert!(findings_in(&programs::get("unsafe_no_constraints").unwrap()).dangerous);
}
