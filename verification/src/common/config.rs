//! Settings of the verifier.
use crate::text::text_eq;
use vstd::prelude::*;

verus! {

/// The numeric domain that is used.
#[derive(Clone, Copy, Debug, PartialEq, Eq, Structural)]
pub enum DomainMode {
    /// Differences of registers are bounded.
    Zone,
    /// Each register is bounded on its own.
    Interval,
}

impl Default for DomainMode {
    fn default() -> (r: Self)
        ensures
            r == DomainMode::Zone,
    {
        DomainMode::Zone
    }
}

/// The size of a map's value, given by hand.
#[derive(Debug)]
pub struct MapOverride {
    pub name: String,
    pub size: u32,
}

/// Settings of the verifier.
#[derive(Debug)]
pub struct VerifierConfig {
    /// 0 is quiet, 1 informs, 2 traces, 3 debugs.
    pub verbosity: u8,
    /// Instructions to process before giving up.
    pub max_insn: usize,
    pub domain_mode: DomainMode,
    /// Pruning does not compare numeric states.
    pub skip_dbm_check: bool,
    /// Pruning widens numeric states.
    pub use_widening: bool,
    /// States that are kept for pruning at each instruction.
    pub max_states_per_pc: usize,
    pub log_interval: usize,
    /// An instruction that is always logged.
    pub debug_pc: Option<usize>,
    pub enable_path_trace: bool,
    /// No map has two entries.
    pub map_overrides: Vec<MapOverride>,
    pub detect_bounded_loops: bool,
    pub require_single_loop_entry: bool,
    pub enable_private_stack: bool,
    pub certificate_output: Option<String>,
    pub certificate_input: Option<String>,
    pub bcf_enabled: bool,
    pub bcf_bundle_out: Option<String>,
}

/// The settings but for texts and lists.
#[verifier::ext_equal]
#[derive(Debug, Clone, Copy, PartialEq, Eq, Structural)]
pub struct Switches {
    pub verbosity: u8,
    pub max_insn: usize,
    pub domain_mode: DomainMode,
    pub skip_dbm_check: bool,
    pub use_widening: bool,
    pub max_states_per_pc: usize,
    pub log_interval: usize,
    pub debug_pc: Option<usize>,
    pub enable_path_trace: bool,
    pub detect_bounded_loops: bool,
    pub require_single_loop_entry: bool,
    pub enable_private_stack: bool,
    pub bcf_enabled: bool,
}

impl Switches {
    /// The settings that hold if nothing else is said.
    pub open spec fn standard() -> Switches {
        Switches {
            verbosity: 1,
            max_insn: 1_000_000,
            domain_mode: DomainMode::Zone,
            skip_dbm_check: false,
            use_widening: false,
            max_states_per_pc: 8,
            log_interval: 100_000,
            debug_pc: None,
            enable_path_trace: false,
            detect_bounded_loops: true,
            require_single_loop_entry: false,
            enable_private_stack: true,
            bcf_enabled: false,
        }
    }
}

/// Names and sizes of overrides.
pub open spec fn override_map(v: Seq<MapOverride>, n: nat) -> Map<Seq<char>, u32>
    decreases n,
{
    if n == 0 {
        Map::empty()
    } else {
        override_map(v, (n - 1) as nat).insert(v[n - 1].name@, v[n - 1].size)
    }
}

/// No name comes twice.
pub open spec fn names_differ(v: Seq<MapOverride>) -> bool {
    forall|i: int, j: int|
        0 <= i < j < v.len() ==> (#[trigger] v[i]).name@ != (#[trigger] v[j]).name@
}

impl VerifierConfig {
    pub open spec fn switches(&self) -> Switches {
        Switches {
            verbosity: self.verbosity,
            max_insn: self.max_insn,
            domain_mode: self.domain_mode,
            skip_dbm_check: self.skip_dbm_check,
            use_widening: self.use_widening,
            max_states_per_pc: self.max_states_per_pc,
            log_interval: self.log_interval,
            debug_pc: self.debug_pc,
            enable_path_trace: self.enable_path_trace,
            detect_bounded_loops: self.detect_bounded_loops,
            require_single_loop_entry: self.require_single_loop_entry,
            enable_private_stack: self.enable_private_stack,
            bcf_enabled: self.bcf_enabled,
        }
    }

    /// The sizes given by hand.
    pub open spec fn overrides(&self) -> Map<Seq<char>, u32> {
        override_map(self.map_overrides@, self.map_overrides@.len())
    }

    pub open spec fn wf(&self) -> bool {
        names_differ(self.map_overrides@)
    }

    /// Gives the size of a map by hand. What was given before is replaced.
    pub fn override_map_size(&mut self, name: String, size: u32)
        requires
            old(self).wf(),
        ensures
            final(self).wf(),
            final(self).switches() == old(self).switches(),
            final(self).overrides() == old(self).overrides().insert(name@, size),
            final(self).certificate_output == old(self).certificate_output,
            final(self).certificate_input == old(self).certificate_input,
            final(self).bcf_bundle_out == old(self).bcf_bundle_out,
    {
        let ghost before = self.map_overrides@;
        let mut i: usize = 0;
        while i < self.map_overrides.len()
            invariant
                i <= self.map_overrides@.len(),
                self.map_overrides@ == before,
                *self == *old(self),
                names_differ(before),
                forall|k: int| 0 <= k < i ==> (#[trigger] before[k]).name@ != name@,
            decreases self.map_overrides@.len() - i,
        {
            if text_eq(self.map_overrides[i].name.as_str(), name.as_str()) {
                proof {
                    lemma_replaced(before, before.len(), i as int, MapOverride { name, size });
                }
                self.map_overrides[i] = MapOverride { name, size };
                return ;
            }
            i = i + 1;
        }
        self.map_overrides.push(MapOverride { name, size });
        proof {
            lemma_prefix(before, self.map_overrides@, before.len());
        }
    }
}

proof fn lemma_prefix(a: Seq<MapOverride>, b: Seq<MapOverride>, n: nat)
    requires
        n <= a.len(),
        n <= b.len(),
        forall|k: int| 0 <= k < n ==> a[k] == b[k],
    ensures
        override_map(a, n) == override_map(b, n),
    decreases n,
{
    if n > 0 {
        lemma_prefix(a, b, (n - 1) as nat);
    }
}

proof fn lemma_replaced(a: Seq<MapOverride>, n: nat, i: int, o: MapOverride)
    requires
        0 <= i < a.len(),
        n <= a.len(),
        names_differ(a),
        a[i].name@ == o.name@,
    ensures
        override_map(a.update(i, o), n) == if i < n {
            override_map(a, n).insert(o.name@, o.size)
        } else {
            override_map(a, n)
        },
    decreases n,
{
    if n > 0 {
        lemma_replaced(a, (n - 1) as nat, i, o);
        let b = a.update(i, o);
        if i < n - 1 {
            assert(a[n - 1].name@ != a[i].name@);
            assert(override_map(b, n) =~= override_map(a, n).insert(o.name@, o.size));
        } else if i == n - 1 {
            assert(override_map(b, n) =~= override_map(a, n).insert(o.name@, o.size));
        }
    }
}

impl Default for VerifierConfig {
    fn default() -> (r: Self)
        ensures
            r.wf(),
            r.switches() == Switches::standard(),
            r.overrides() == Map::<Seq<char>, u32>::empty(),
            r.certificate_output is None,
            r.certificate_input is None,
            r.bcf_bundle_out is None,
    {
        VerifierConfig {
            verbosity: 1,
            max_insn: 1_000_000,
            domain_mode: DomainMode::Zone,
            skip_dbm_check: false,
            use_widening: false,
            max_states_per_pc: 8,
            log_interval: 100_000,
            debug_pc: None,
            enable_path_trace: false,
            map_overrides: Vec::new(),
            detect_bounded_loops: true,
            require_single_loop_entry: false,
            enable_private_stack: true,
            certificate_output: None,
            certificate_input: None,
            bcf_enabled: false,
            bcf_bundle_out: None,
        }
    }
}

} // verus!
