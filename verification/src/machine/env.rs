//! What surrounds an analysis: the program's context, and what the analysis
//! reports.
use crate::ast::prog::ProgramKind;
use crate::machine::error::VerificationError;
use crate::machine::find::{first_where, lemma_first_where_at, lemma_first_where_none};
use crate::machine::ids::IdCounter;
use crate::machine::layout::{BpfMapDef, Btf, RelocInfo};
use crate::machine::reg::Reg;
use crate::machine::reg_types::PtrFlags;
use crate::text::text_eq;
use vstd::prelude::*;

verus! {

/// How an argument of the program's entry function is typed.
#[derive(Debug, Clone, Copy, PartialEq, Eq)]
pub enum EntryArg {
    Scalar,
    TrustedPtrBtfId { struct_name: &'static str, nullable: bool },
    BoundedScalar { lo: i64, hi: i64 },
}

/// What is known of one argument of the function a program attaches to.
#[derive(Debug, Clone, Copy, PartialEq, Eq, Structural)]
pub struct AttachArg {
    pub idx: u8,
    pub scalar: bool,
    pub flags: PtrFlags,
}

pub open spec fn arg_idx(idx: u8) -> spec_fn(AttachArg) -> bool {
    |a: AttachArg| a.idx == idx
}

/// What the program is, and what it refers to.
#[derive(Debug)]
pub struct ExecContext {
    pub prog_kind: ProgramKind,
    pub attach_flavor: Option<String>,
    pub attach_subtype: Option<String>,
    pub entry_args: Option<Vec<EntryArg>>,
    pub attach_args: Vec<AttachArg>,
    pub entry_returns_void: bool,
    pub flags: u32,
    pub privileged: bool,
    pub map_defs: Vec<BpfMapDef>,
    pub btf: Btf,
    pub relocs: Vec<RelocInfo>,
}

/// Whether a text is there and reads `s`.
pub open spec fn reads(t: Option<String>, s: &str) -> bool {
    t matches Some(x) && x@ == s@
}

/// Whether a text is there and reads `s`.
pub fn text_is(t: &Option<String>, s: &str) -> (r: bool)
    ensures
        r == reads(*t, s),
{
    match t {
        Some(x) => text_eq(x.as_str(), s),
        None => false,
    }
}

impl ExecContext {
    pub open spec fn spec_has_flag(&self, flag: u32) -> bool {
        self.flags & flag != 0
    }

    /// Whether a flag is set.
    #[verifier::when_used_as_spec(spec_has_flag)]
    pub fn has_flag(&self, flag: u32) -> (r: bool)
        ensures
            r == self.spec_has_flag(flag),
    {
        self.flags & flag != 0
    }

    pub open spec fn attach_arg(&self, idx: u8) -> Option<AttachArg> {
        first_where(self.attach_args@, arg_idx(idx))
    }

    /// What is known of one argument of the function a program attaches to.
    pub fn find_attach_arg(&self, idx: u8) -> (r: Option<AttachArg>)
        ensures
            r == self.attach_arg(idx),
    {
        let mut i: usize = 0;
        while i < self.attach_args.len()
            invariant
                i <= self.attach_args@.len(),
                forall|k: int| 0 <= k < i ==> !arg_idx(idx)(#[trigger] self.attach_args@[k]),
            decreases self.attach_args@.len() - i,
        {
            if self.attach_args[i].idx == idx {
                proof {
                    lemma_first_where_at(self.attach_args@, arg_idx(idx), i as int);
                }
                return Some(self.attach_args[i]);
            }
            i = i + 1;
        }
        proof {
            lemma_first_where_none(self.attach_args@, arg_idx(idx));
        }
        None
    }
}

/// A register whose exact value decided whether an access is safe.
#[derive(Debug, Clone, Copy, PartialEq, Eq, Structural)]
pub struct PrecisionSink {
    pub history_idx: usize,
    pub parent_cache_id: Option<usize>,
    pub reg: Reg,
}

/// The memory a symbolic proof is about.
#[derive(Debug, Clone, Copy, PartialEq, Eq, Structural)]
pub enum RefinedAccess {
    Stack { base: Reg, off: i64, size: i64 },
    MapValue { base: Reg, off: i64, size: i64, limit: i64, size_reg: Option<Reg> },
}

/// What stays the same during one step of the analysis.
#[derive(Debug)]
pub struct EnvConfig {
    pub ctx: ExecContext,
    /// Positions of the states kept so far, in the order they were kept.
    pub explored: Vec<usize>,
    pub current_step_idx: Option<usize>,
    pub replay_mode: bool,
    pub analyzing_exception_cb: bool,
    /// Moves that turn an address into an arena pointer.
    pub arena_cast_pcs: Vec<usize>,
    /// The register that holds the size of a helper's memory argument.
    pub size_reg: Option<Reg>,
    /// Whether a symbolic proof shows the access in question to be safe.
    pub refined: bool,
}

/// The environment of an analysis.
#[derive(Debug)]
pub struct VerifierEnv {
    pub cfg: EnvConfig,
    /// Which instructions were reached.
    pub seen: Vec<bool>,
    pub failures: Vec<VerificationError>,
    pub sinks: Vec<PrecisionSink>,
    pub ids: IdCounter,
    pub map_uids: IdCounter,
    /// Steps that read or write a spilled register.
    pub stack_steps: Vec<usize>,
    /// Accesses that a symbolic proof showed to be safe.
    pub refinements: Vec<RefinedAccess>,
    pub path_unreachable: bool,
}

/// What the analysis reports.
#[verifier::ext_equal]
pub struct EnvView {
    pub seen: Seq<bool>,
    pub failures: Seq<VerificationError>,
    pub sinks: Seq<PrecisionSink>,
    pub ids: IdCounter,
    pub map_uids: IdCounter,
    pub stack_steps: Seq<usize>,
    pub refinements: Seq<RefinedAccess>,
    pub path_unreachable: bool,
}

impl EnvView {
    pub open spec fn fail(self, e: VerificationError) -> EnvView {
        EnvView { failures: self.failures.push(e), ..self }
    }

    /// A failure if `bad` holds.
    pub open spec fn fail_if(self, bad: bool, e: VerificationError) -> EnvView {
        if bad { self.fail(e) } else { self }
    }

    pub open spec fn sink(self, history_idx: usize, parent: Option<usize>, reg: Reg) -> EnvView {
        EnvView {
            sinks: self.sinks.push(
                PrecisionSink { history_idx, parent_cache_id: parent, reg },
            ),
            ..self
        }
    }

    pub open spec fn refine(self, a: RefinedAccess) -> EnvView {
        EnvView { refinements: self.refinements.push(a), ..self }
    }

    pub open spec fn took_id(self) -> EnvView {
        EnvView { ids: self.ids.after(), ..self }
    }

    pub open spec fn stack_step(self, idx: usize) -> EnvView {
        EnvView { stack_steps: self.stack_steps.push(idx), ..self }
    }
}

impl VerifierEnv {
    pub open spec fn view(&self) -> EnvView {
        EnvView {
            seen: self.seen@,
            failures: self.failures@,
            sinks: self.sinks@,
            ids: self.ids,
            map_uids: self.map_uids,
            stack_steps: self.stack_steps@,
            refinements: self.refinements@,
            path_unreachable: self.path_unreachable,
        }
    }

    /// Reports a reason to reject the program.
    pub fn fail(&mut self, e: VerificationError)
        ensures
            final(self).cfg == old(self).cfg,
            final(self)@ == old(self)@.fail(e),
    {
        self.failures.push(e);
    }

    /// Whether a reason to reject the program was found.
    pub fn failed(&self) -> (r: bool)
        ensures
            r == (self@.failures.len() > 0),
    {
        self.failures.len() > 0
    }

    /// Reports that a register's exact value mattered.
    pub fn mark_chain_precision_backward(
        &mut self,
        history_idx: usize,
        parent_cache_id: Option<usize>,
        reg: Reg,
    )
        ensures
            final(self).cfg == old(self).cfg,
            final(self)@ == old(self)@.sink(history_idx, parent_cache_id, reg),
    {
        self.sinks.push(PrecisionSink { history_idx, parent_cache_id, reg });
    }

    /// Reports an access that a symbolic proof showed to be safe.
    pub fn record_refinement(&mut self, a: RefinedAccess)
        ensures
            final(self).cfg == old(self).cfg,
            final(self)@ == old(self)@.refine(a),
    {
        self.refinements.push(a);
    }

    /// Takes a fresh pointer identity.
    pub fn new_ptr_id(&mut self) -> (r: u32)
        ensures
            final(self).cfg == old(self).cfg,
            r == old(self)@.ids.next,
            final(self)@ == old(self)@.took_id(),
    {
        self.ids.fresh()
    }

    /// Takes a fresh identity for an inner map.
    pub fn new_map_uid(&mut self) -> (r: u32)
        ensures
            final(self).cfg == old(self).cfg,
            r == old(self)@.map_uids.next,
            final(self)@ == (EnvView { map_uids: old(self)@.map_uids.after(), ..old(self)@ }),
    {
        self.map_uids.fresh()
    }

    /// Reports that a step read or wrote a spilled register.
    pub fn set_stack_access(&mut self, idx: usize)
        ensures
            final(self).cfg == old(self).cfg,
            final(self)@ == old(self)@.stack_step(idx),
    {
        self.stack_steps.push(idx);
    }
}

} // verus!
