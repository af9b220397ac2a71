//! Command line options and the settings they stand for.
use crate::common::config::{DomainMode, Switches, VerifierConfig};
use crate::text::{contents, push_char, text_eq};
use crate::tokens::{parse_u32, parsed_in};
use vstd::prelude::*;

verus! {

/// What a program is read from.
#[derive(Debug, Clone, Copy, PartialEq, Eq, Structural)]
pub enum InputKind {
    /// An object file.
    Elf,
    /// Source code.
    C,
    /// A catalogue of tests.
    Json,
}

/// The kind of input that the ending of a file's name stands for.
pub open spec fn kind_of_ending(s: Seq<char>) -> Option<InputKind> {
    if s == "o"@ {
        Some(InputKind::Elf)
    } else if s == "c"@ {
        Some(InputKind::C)
    } else if s == "json"@ {
        Some(InputKind::Json)
    } else {
        None
    }
}

/// The kind of an input: the one asked for, else the one that the ending of its
/// name stands for, if any.
pub fn input_kind(forced: Option<InputKind>, extension: Option<&str>) -> (r: Option<InputKind>)
    ensures
        r == match (forced, extension) {
            (Some(kind), _) => Some(kind),
            (None, Some(e)) => kind_of_ending(e@),
            (None, None) => None,
        },
{
    if let Some(kind) = forced {
        return Some(kind);
    }
    match extension {
        Some(e) => if text_eq(e, "o") {
            Some(InputKind::Elf)
        } else if text_eq(e, "c") {
            Some(InputKind::C)
        } else if text_eq(e, "json") {
            Some(InputKind::Json)
        } else {
            None
        },
        None => None,
    }
}

/// Options that all commands share.
#[derive(Debug)]
pub struct GlobalOpts {
    pub quiet: bool,
    pub verbose: bool,
    pub very_verbose: bool,
    /// Intervals, loops with one entry, no detection of bounded loops.
    pub kernel_mode: bool,
    pub zone_mode: bool,
    pub skip_dbm: bool,
    pub use_widening: bool,
    pub enable_path_trace: bool,
    pub detect_bounded_loops: bool,
    pub no_detect_bounded_loops: bool,
    pub single_entry_loops: bool,
    pub multi_entry_loops: bool,
    pub enable_private_stack: bool,
    pub disable_private_stack: bool,
    pub bcf: bool,
    pub max_insn: Option<usize>,
    pub max_states: Option<usize>,
    pub log_interval: Option<usize>,
    pub debug_pc: Option<usize>,
    /// Sizes of maps, each as `NAME:SIZE`.
    pub map_overrides: Vec<String>,
}

/// A number if it is given, else another.
pub open spec fn given(n: Option<usize>, otherwise: usize) -> usize {
    match n {
        Some(n) => n,
        None => otherwise,
    }
}

impl GlobalOpts {
    /// The settings that the options stand for. An option that turns something
    /// off counts before one that turns it on.
    pub open spec fn switches(self) -> Switches {
        let d = Switches::standard();
        Switches {
            verbosity: if self.very_verbose {
                3
            } else if self.verbose {
                2
            } else if self.quiet {
                0
            } else {
                d.verbosity
            },
            max_insn: given(self.max_insn, d.max_insn),
            domain_mode: if self.kernel_mode && !self.zone_mode {
                DomainMode::Interval
            } else {
                DomainMode::Zone
            },
            skip_dbm_check: self.skip_dbm,
            use_widening: self.use_widening,
            max_states_per_pc: given(self.max_states, d.max_states_per_pc),
            log_interval: given(self.log_interval, d.log_interval),
            debug_pc: self.debug_pc,
            enable_path_trace: self.enable_path_trace,
            detect_bounded_loops: !self.no_detect_bounded_loops && (self.detect_bounded_loops
                || !self.kernel_mode),
            require_single_loop_entry: !self.multi_entry_loops && (self.single_entry_loops
                || self.kernel_mode),
            enable_private_stack: !self.disable_private_stack,
            bcf_enabled: self.bcf,
        }
    }
}

/// What a map override says.
pub ghost enum Override {
    Size(Seq<char>, u32),
    BadSize,
    NoColon,
}

/// What a map override says: the name before the first colon, and the size
/// behind it.
pub open spec fn override_from(s: Seq<char>, name: Seq<char>) -> Override
    decreases s.len(),
{
    if s.len() == 0 {
        Override::NoColon
    } else if s[0] == ':' {
        match parsed_in(s.skip(1), false, 0, u32::MAX as int) {
            Some(n) => Override::Size(name, n as u32),
            None => Override::BadSize,
        }
    } else {
        override_from(s.skip(1), name.push(s[0]))
    }
}

/// What a map override says.
pub open spec fn override_of(s: Seq<char>) -> Override {
    override_from(s, Seq::empty())
}

/// What is said of an override that cannot be used.
pub open spec fn warning(s: Seq<char>) -> Option<Seq<char>> {
    match override_of(s) {
        Override::Size(_, _) => None,
        Override::BadSize => Some("Warning: invalid size in map override '"@ + s + "'"@),
        Override::NoColon => Some(
            "Warning: invalid map override format '"@ + s + "'. Expected 'name:size'"@,
        ),
    }
}

/// The sizes that the first `n` overrides give.
pub open spec fn sizes_given(v: Seq<String>, n: nat) -> Map<Seq<char>, u32>
    decreases n,
{
    if n == 0 {
        Map::empty()
    } else {
        let before = sizes_given(v, (n - 1) as nat);
        match override_of(v[n - 1]@) {
            Override::Size(name, size) => before.insert(name, size),
            _ => before,
        }
    }
}

/// The warnings about the first `n` overrides.
pub open spec fn warnings(v: Seq<String>, n: nat) -> Seq<Seq<char>>
    decreases n,
{
    if n == 0 {
        Seq::empty()
    } else {
        let before = warnings(v, (n - 1) as nat);
        match warning(v[n - 1]@) {
            Some(w) => before.push(w),
            None => before,
        }
    }
}

/// What an override says, in a form that can be used.
pub enum ParsedOverride {
    Size(String, u32),
    BadSize,
    NoColon,
}

impl ParsedOverride {
    pub open spec fn view(&self) -> Override {
        match self {
            ParsedOverride::Size(name, size) => Override::Size(name@, *size),
            ParsedOverride::BadSize => Override::BadSize,
            ParsedOverride::NoColon => Override::NoColon,
        }
    }
}

/// What a map override says.
pub fn parse_override(spec_text: &str) -> (r: ParsedOverride)
    ensures
        r@ == override_of(spec_text@),
{
    let n: usize = spec_text.unicode_len();
    let ghost s = spec_text@;
    let mut name: String = String::new();
    let mut i: usize = 0;
    assert(s.skip(0) =~= s);
    assert(name@ =~= Seq::empty());
    while i < n
        invariant
            i <= n,
            n == s.len(),
            s == spec_text@,
            override_of(s) == override_from(s.skip(i as int), name@),
        decreases n - i,
    {
        let c: char = spec_text.get_char(i);
        assert(s.skip(i as int)[0] == c);
        assert(s.skip(i as int).skip(1) =~= s.skip(i + 1));
        if c == ':' {
            let mut digits: Vec<char> = Vec::new();
            let mut k: usize = i + 1;
            assert(s.subrange(i + 1, i + 1) =~= Seq::empty());
            while k < n
                invariant
                    i < k <= n,
                    n == s.len(),
                    s == spec_text@,
                    digits@ == s.subrange(i + 1, k as int),
                decreases n - k,
            {
                digits.push(spec_text.get_char(k));
                assert(digits@ =~= s.subrange(i + 1, k + 1));
                k = k + 1;
            }
            assert(digits@ =~= s.skip(i + 1));
            return match parse_u32(&digits) {
                Some(size) => ParsedOverride::Size(name, size),
                None => ParsedOverride::BadSize,
            };
        }
        push_char(&mut name, c);
        i = i + 1;
    }
    assert(s.skip(n as int) =~= Seq::empty());
    ParsedOverride::NoColon
}

fn warning_text(before: &str, spec_text: &str, after: &str) -> (r: String)
    ensures
        r@ == before@ + spec_text@ + after@,
{
    let mut w: String = String::new();
    w.append(before);
    w.append(spec_text);
    w.append(after);
    assert(w@ =~= before@ + spec_text@ + after@);
    w
}

fn number_or(n: Option<usize>, otherwise: usize) -> (r: usize)
    ensures
        r == given(n, otherwise),
{
    match n {
        Some(n) => n,
        None => otherwise,
    }
}

impl GlobalOpts {
    fn set_switches(&self, c: &mut VerifierConfig)
        requires
            old(c).switches() == Switches::standard(),
        ensures
            final(c).switches() == self.switches(),
            final(c).map_overrides == old(c).map_overrides,
            final(c).certificate_output == old(c).certificate_output,
            final(c).certificate_input == old(c).certificate_input,
            final(c).bcf_bundle_out == old(c).bcf_bundle_out,
    {
        c.verbosity = if self.very_verbose {
            3
        } else if self.verbose {
            2
        } else if self.quiet {
            0
        } else {
            c.verbosity
        };
        c.domain_mode = if self.kernel_mode && !self.zone_mode {
            DomainMode::Interval
        } else {
            DomainMode::Zone
        };
        c.skip_dbm_check = self.skip_dbm;
        c.use_widening = self.use_widening;
        c.enable_path_trace = self.enable_path_trace;
        c.detect_bounded_loops = !self.no_detect_bounded_loops && (self.detect_bounded_loops
            || !self.kernel_mode);
        c.require_single_loop_entry = !self.multi_entry_loops && (self.single_entry_loops
            || self.kernel_mode);
        c.enable_private_stack = !self.disable_private_stack;
        c.bcf_enabled = self.bcf;
        c.max_insn = number_or(self.max_insn, c.max_insn);
        c.max_states_per_pc = number_or(self.max_states, c.max_states_per_pc);
        c.log_interval = number_or(self.log_interval, c.log_interval);
        c.debug_pc = self.debug_pc;
    }

    /// The settings that the options stand for, and warnings about options that
    /// cannot be used.
    pub fn into_verifier_config(self) -> (r: (VerifierConfig, Vec<String>))
        ensures
            r.0.wf(),
            r.0.switches() == self.switches(),
            r.0.overrides() == sizes_given(self.map_overrides@, self.map_overrides@.len()),
            contents(r.1@) == warnings(
                self.map_overrides@,
                self.map_overrides@.len(),
            ),
            r.0.certificate_output is None,
            r.0.certificate_input is None,
            r.0.bcf_bundle_out is None,
    {
        let mut c: VerifierConfig = VerifierConfig::default();
        self.set_switches(&mut c);
        let mut said: Vec<String> = Vec::new();
        let ghost v = self.map_overrides@;
        let mut i: usize = 0;
        assert(contents(said@) =~= Seq::empty());
        while i < self.map_overrides.len()
            invariant
                i <= self.map_overrides@.len(),
                v == self.map_overrides@,
                c.wf(),
                c.switches() == self.switches(),
                c.overrides() == sizes_given(v, i as nat),
                contents(said@) == warnings(v, i as nat),
                c.certificate_output is None,
                c.certificate_input is None,
                c.bcf_bundle_out is None,
            decreases self.map_overrides@.len() - i,
        {
            let s: &str = self.map_overrides[i].as_str();
            let ghost before = said@;
            match parse_override(s) {
                ParsedOverride::Size(name, size) => c.override_map_size(name, size),
                ParsedOverride::BadSize => {
                    said.push(warning_text("Warning: invalid size in map override '", s, "'"));
                    assert(contents(said@) =~= contents(before).push(
                        warning(s@)->0,
                    ));
                },
                ParsedOverride::NoColon => {
                    said.push(
                        warning_text(
                            "Warning: invalid map override format '",
                            s,
                            "'. Expected 'name:size'",
                        ),
                    );
                    assert(contents(said@) =~= contents(before).push(
                        warning(s@)->0,
                    ));
                },
            }
            i = i + 1;
        }
        (c, said)
    }
}

} // verus!
