//! The analysis of a directory of object files.
use crate::common::utils::{load_program_from_elf, program_outcome, ProgramLoadError};
use crate::compact::analyze::{analyze_program, run, start};
use crate::compact::ast::{Instr, Program};
use crate::compact::context::{AnalysisStats, ExecContext};
use crate::compact::domain::{assign_zero, equated, unconstrained, Reg, NUM_VARS};
use crate::domains::zone::dbm::{Dbm, Zone};
use crate::parsing::elf_loader::{elf_contents, insn_data, section_outcome, whole_insns, ElfLoadError};
use crate::text::text_eq;
use std::collections::HashMap;
use vstd::prelude::*;

verus! {

/// Endings of object files.
pub open spec fn is_elf_ending(s: Seq<char>) -> bool {
    s == "o"@ || s == "elf"@ || s == "so"@
}

/// Whether a path is looked at: a file with the ending of an object file.
pub fn is_elf_candidate(is_file: bool, extension: Option<&str>) -> (r: bool)
    ensures
        r == (is_file && match extension {
            Some(e) => is_elf_ending(e@),
            None => false,
        }),
{
    if !is_file {
        return false;
    }
    match extension {
        Some(e) => text_eq(e, "o") || text_eq(e, "elf") || text_eq(e, "so"),
        None => false,
    }
}

/// Why an object file could not be analyzed.
#[derive(Debug)]
pub enum FileError {
    Load(ProgramLoadError),
    /// There are no instructions.
    Empty,
}

/// What the analysis of a file is made with: 512 bytes of stack below the frame
/// pointer, no maps.
pub open spec fn plain(ctx: ExecContext) -> bool {
    &&& ctx.zero == Reg::Zero
    &&& ctx.r10 == Reg::R10
    &&& ctx.stack_min == -512
    &&& ctx.stack_max == -1
    &&& ctx.map_defs@.len() == 0
    &&& ctx.pc_to_map_idx@ == Map::<usize, usize>::empty()
}

/// What is known at the start of a file's program: the frame pointer is at
/// zero.
pub open spec fn plain_entry() -> Zone {
    equated(Zone::top(NUM_VARS as nat), Reg::R10, Reg::Zero)
}

/// The findings are those of a finished analysis of a program.
pub open spec fn found_in(instrs: Seq<Instr>, stats: AnalysisStats) -> bool {
    exists|ctx: ExecContext, k: nat|
        {
            let p = #[trigger] run(
                &ctx,
                instrs,
                start(&ctx, instrs.len(), plain_entry(), AnalysisStats::clean()),
                k,
            );
            plain(ctx) && p.finished() && p.stats == stats
        }
}

/// What the analysis finds in a program.
pub fn findings_in(prog: &Program) -> (r: AnalysisStats)
    requires
        prog.instrs@.len() > 0,
    ensures
        found_in(prog.instrs@, r),
{
    let ctx: ExecContext = ExecContext {
        zero: Reg::Zero,
        r10: Reg::R10,
        stack_min: -512,
        stack_max: -1,
        map_defs: Vec::new(),
        pc_to_map_idx: HashMap::new(),
    };
    let mut entry: Dbm = unconstrained();
    assign_zero(&mut entry, Reg::R10, Reg::Zero);
    let mut stats: AnalysisStats = AnalysisStats::default();
    analyze_program(&ctx, prog, entry, &mut stats);
    assert(plain(ctx));
    stats
}

/// The outcome of the analysis of bytes that encode a program.
pub open spec fn bytes_outcome(b: Seq<u8>, r: Result<AnalysisStats, FileError>) -> bool {
    match r {
        Ok(stats) => exists|p: Program| #[trigger]
            program_outcome(b, Ok(p)) && p.instrs@.len() > 0 && found_in(p.instrs@, stats),
        Err(FileError::Empty) => exists|p: Program| #[trigger]
            program_outcome(b, Ok(p)) && p.instrs@.len() == 0,
        Err(FileError::Load(e)) => program_outcome(b, Err(e)),
    }
}

/// What the analysis finds in the `.text` section of an object file.
pub fn analyze_program_for_file(buf: &[u8]) -> (r: Result<AnalysisStats, FileError>)
    ensures
        match elf_contents(buf@) {
            None => r matches Err(FileError::Load(ProgramLoadError::Elf(ElfLoadError::Parse(_)))),
            Some(e) => match insn_data(e, buf@, ".text"@) {
                Some(data) => if data.len() % 8 == 0 {
                    bytes_outcome(data, r)
                } else {
                    r matches Err(FileError::Load(ProgramLoadError::Elf(x))) && whole_insns(
                        ".text"@,
                        data,
                        Err(x),
                    )
                },
                None => r matches Err(FileError::Load(ProgramLoadError::Elf(x)))
                    && section_outcome(e, buf@, ".text"@, true, Err(x)),
            },
        },
{
    match load_program_from_elf(buf, ".text") {
        Err(e) => Err(FileError::Load(e)),
        Ok(prog) => {
            if prog.instrs.len() == 0 {
                return Err(FileError::Empty);
            }
            Ok(findings_in(&prog))
        },
    }
}

/// How many files were looked at, and how many of them are safe or dangerous.
#[derive(Debug, Clone, Copy, PartialEq, Eq, Structural)]
pub struct BatchSummary {
    pub total: u64,
    pub safe: u64,
    pub dangerous: u64,
}

impl Default for BatchSummary {
    fn default() -> (r: Self)
        ensures
            r == (BatchSummary { total: 0, safe: 0, dangerous: 0 }),
    {
        BatchSummary { total: 0, safe: 0, dangerous: 0 }
    }
}

impl BatchSummary {
    /// Every file is safe or dangerous.
    pub open spec fn wf(self) -> bool {
        self.total == self.safe + self.dangerous
    }

    /// Counts a file. One that could not be analyzed is dangerous. Returns the
    /// findings to report, if the file is dangerous.
    pub fn count(&mut self, stats: Option<AnalysisStats>) -> (r: Option<AnalysisStats>)
        requires
            old(self).wf(),
            old(self).total < u64::MAX,
        ensures
            final(self).wf(),
            final(self).total == old(self).total + 1,
            match stats {
                Some(s) => if s.dangerous {
                    final(self).dangerous == old(self).dangerous + 1 && r == Some(s)
                } else {
                    final(self).safe == old(self).safe + 1 && r is None
                },
                None => final(self).dangerous == old(self).dangerous + 1 && r == Some(
                    (AnalysisStats { dangerous: true, ..AnalysisStats::clean() }),
                ),
            },
    {
        self.total = self.total + 1;
        match stats {
            Some(s) => {
                if s.dangerous {
                    self.dangerous = self.dangerous + 1;
                    Some(s)
                } else {
                    self.safe = self.safe + 1;
                    None
                }
            },
            None => {
                self.dangerous = self.dangerous + 1;
                let mut s: AnalysisStats = AnalysisStats::default();
                s.dangerous = true;
                Some(s)
            },
        }
    }
}

/// The lines for what was found in a dangerous file.
pub open spec fn finding_texts(s: AnalysisStats) -> Seq<Seq<char>> {
    (if s.unsafe_stack_load {
        seq!["unsafe stack load"@]
    } else {
        Seq::empty()
    }) + (if s.unsafe_stack_store {
        seq!["unsafe stack store"@]
    } else {
        Seq::empty()
    }) + (if s.dbm_inconsistent {
        seq!["DBM inconsistency"@]
    } else {
        Seq::empty()
    }) + (if s.unsupported_opcode {
        seq!["unsupported opcode"@]
    } else {
        Seq::empty()
    })
}

/// What was found in a dangerous file, in words.
pub fn findings(s: AnalysisStats) -> (r: Vec<&'static str>)
    ensures
        Seq::new(r@.len(), |i: int| r@[i]@) == finding_texts(s),
{
    let mut out: Vec<&'static str> = Vec::new();
    if s.unsafe_stack_load {
        out.push("unsafe stack load");
    }
    if s.unsafe_stack_store {
        out.push("unsafe stack store");
    }
    if s.dbm_inconsistent {
        out.push("DBM inconsistency");
    }
    if s.unsupported_opcode {
        out.push("unsupported opcode");
    }
    assert(Seq::new(out@.len(), |i: int| out@[i]@) =~= finding_texts(s));
    out
}

} // verus!
