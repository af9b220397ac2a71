//! Annotations that carry proofs about a program.
use vstd::prelude::*;

verus! {

/// A bound on a difference: `x_i - x_j <= c`.
#[derive(Debug, Clone, Copy, PartialEq, Eq, Structural)]
pub struct Constraint {
    pub i: usize,
    pub j: usize,
    pub c: i64,
}

/// A step of a proof of a bound.
#[allow(inconsistent_fields)]
#[derive(Debug, Clone, Copy, PartialEq, Eq, Structural)]
pub enum ProofStep {
    /// The bound is a condition of the edge.
    GuardStep { i: usize, j: usize, c: i64 },
    /// The bound holds before the edge.
    PreStateStep { i: usize, j: usize, c: i64 },
}

/// What has to hold along an edge, and why it does.
#[derive(Debug)]
pub struct EdgeObligation {
    pub pred_pc: usize,
    pub succ_pc: usize,
    pub pred_fingerprint: u64,
    pub target: Constraint,
    pub proof_steps: Vec<ProofStep>,
}

/// The annotation of a program.
#[derive(Debug)]
pub struct ProgramAnnotation {
    pub version: u32,
    pub program_hash: String,
    pub obligations: Vec<EdgeObligation>,
}

/// The first version of annotations.
pub const VERSION_V1: u32 = 1;

impl ProgramAnnotation {
    /// An annotation without obligations.
    pub fn empty(program_hash: String) -> (r: Self)
        ensures
            r.version == VERSION_V1,
            r.program_hash == program_hash,
            r.obligations@.len() == 0,
    {
        ProgramAnnotation { version: VERSION_V1, program_hash, obligations: Vec::new() }
    }
}

} // verus!
