//! What an analysis works with: its settings, what it found, and the states
//! an instruction leads to.
use crate::compact::domain::{small, Reg, RegType, RegTypeState};
use crate::domains::zone::dbm::{Dbm, Zone};
use crate::machine::layout::BpfMapDef;
use std::collections::HashMap;
use vstd::prelude::*;

verus! {

/// Settings of an analysis.
#[derive(Debug)]
pub struct ExecContext {
    pub zero: Reg,
    pub r10: Reg,
    /// Offsets of the first and the last byte of the stack.
    pub stack_min: i64,
    pub stack_max: i64,
    pub map_defs: Vec<BpfMapDef>,
    /// Maps whose addresses are loaded, by place in the program.
    pub pc_to_map_idx: HashMap<usize, usize>,
}

/// What an analysis found.
#[derive(Debug, Clone, Copy, PartialEq, Eq, Structural)]
pub struct AnalysisStats {
    /// The analysis stopped early.
    pub abort: bool,
    pub dangerous: bool,
    pub unsafe_stack_load: bool,
    pub unsafe_stack_store: bool,
    pub dbm_inconsistent: bool,
    pub unsupported_opcode: bool,
}

impl Default for AnalysisStats {
    fn default() -> (r: Self)
        ensures
            r == AnalysisStats::clean(),
    {
        AnalysisStats {
            abort: false,
            dangerous: false,
            unsafe_stack_load: false,
            unsafe_stack_store: false,
            dbm_inconsistent: false,
            unsupported_opcode: false,
        }
    }
}

impl AnalysisStats {
    /// Nothing found.
    pub open spec fn clean() -> AnalysisStats {
        AnalysisStats {
            abort: false,
            dangerous: false,
            unsafe_stack_load: false,
            unsafe_stack_store: false,
            dbm_inconsistent: false,
            unsupported_opcode: false,
        }
    }

    pub open spec fn with_unsafe_load(self) -> AnalysisStats {
        AnalysisStats { unsafe_stack_load: true, dangerous: true, ..self }
    }

    /// An unsafe load was found.
    pub fn mark_unsafe_load(&mut self)
        ensures
            *final(self) == old(self).with_unsafe_load(),
    {
        self.unsafe_stack_load = true;
        self.dangerous = true;
    }

    pub open spec fn with_unsafe_store(self) -> AnalysisStats {
        AnalysisStats { unsafe_stack_store: true, dangerous: true, ..self }
    }

    /// An unsafe store was found.
    pub fn mark_unsafe_store(&mut self)
        ensures
            *final(self) == old(self).with_unsafe_store(),
    {
        self.unsafe_stack_store = true;
        self.dangerous = true;
    }

    pub open spec fn with_dbm_inconsistent(self) -> AnalysisStats {
        AnalysisStats { dbm_inconsistent: true, dangerous: true, ..self }
    }

    /// A state without values was found.
    pub fn mark_dbm_inconsistent(&mut self)
        ensures
            *final(self) == old(self).with_dbm_inconsistent(),
    {
        self.dbm_inconsistent = true;
        self.dangerous = true;
    }

    pub open spec fn with_unsupported_opcode(self) -> AnalysisStats {
        AnalysisStats { unsupported_opcode: true, dangerous: true, ..self }
    }

    /// The program has an opcode that the analysis does not know.
    pub fn mark_unsupported_opcode(&mut self)
        ensures
            *final(self) == old(self).with_unsupported_opcode(),
    {
        self.unsupported_opcode = true;
        self.dangerous = true;
    }

    pub open spec fn stopped(self) -> AnalysisStats {
        AnalysisStats { abort: true, ..self }
    }
}

/// A state that an instruction leads to, and where.
#[derive(Debug)]
pub struct Successor {
    pub pc: usize,
    pub dbm: Dbm,
    pub types: RegTypeState,
}

/// The model of a successor.
#[verifier::ext_equal]
pub ghost struct Next {
    pub pc: usize,
    pub zone: Zone,
    pub types: Seq<RegType>,
}

impl Successor {
    pub open spec fn view(&self) -> Next {
        Next { pc: self.pc, zone: self.dbm@, types: self.types@ }
    }

    pub open spec fn wf(&self) -> bool {
        small(&self.dbm) && self.types.wf()
    }
}

/// The models of some successors.
pub open spec fn nexts(v: Seq<Successor>) -> Seq<Next> {
    Seq::new(v.len(), |i: int| v[i]@)
}

/// All successors are well-formed.
pub open spec fn all_wf(v: Seq<Successor>) -> bool {
    forall|i: int| 0 <= i < v.len() ==> (#[trigger] v[i]).wf()
}

/// The only successor.
pub fn only(pc: usize, dbm: Dbm, types: RegTypeState) -> (r: Vec<Successor>)
    requires
        small(&dbm),
        types.wf(),
    ensures
        all_wf(r@),
        nexts(r@) == seq![(Next { pc, zone: dbm@, types: types@ })],
{
    let ghost z = dbm@;
    let ghost t = types@;
    let mut r: Vec<Successor> = Vec::new();
    r.push(Successor { pc, dbm, types });
    assert(nexts(r@) =~= seq![(Next { pc, zone: z, types: t })]);
    r
}

} // verus!
