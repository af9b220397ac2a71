//! The registers the analysis talks about: the constant-zero column, the
//! eleven eBPF registers, and the three packet anchors.
use vstd::prelude::*;

verus! {

/// A variable of the numeric domains.
#[derive(Clone, Copy, Debug, PartialEq, Eq, Structural, Hash)]
pub enum Reg {
    Zero,
    R0,
    R1,
    R2,
    R3,
    R4,
    R5,
    R6,
    R7,
    R8,
    R9,
    R10,
    AnchorDataMeta,
    AnchorData,
    AnchorDataEnd,
}

/// Number of variables tracked by a full-size difference-bound matrix.
pub const DBM_DIM: usize = 15;

/// Number of variables that are not packet anchors.
pub const NUM_PLAIN: usize = 12;

impl Reg {
    /// Matrix index of the register.
    pub open spec fn spec_idx(self) -> usize {
        match self {
            Reg::Zero => 0,
            Reg::R0 => 1,
            Reg::R1 => 2,
            Reg::R2 => 3,
            Reg::R3 => 4,
            Reg::R4 => 5,
            Reg::R5 => 6,
            Reg::R6 => 7,
            Reg::R7 => 8,
            Reg::R8 => 9,
            Reg::R9 => 10,
            Reg::R10 => 11,
            Reg::AnchorDataMeta => 12,
            Reg::AnchorData => 13,
            Reg::AnchorDataEnd => 14,
        }
    }

    /// Matrix index of the register.
    #[verifier::when_used_as_spec(spec_idx)]
    pub fn idx(self) -> (r: usize)
        ensures
            r == self.spec_idx(),
            r < DBM_DIM,
    {
        match self {
            Reg::Zero => 0,
            Reg::R0 => 1,
            Reg::R1 => 2,
            Reg::R2 => 3,
            Reg::R3 => 4,
            Reg::R4 => 5,
            Reg::R5 => 6,
            Reg::R6 => 7,
            Reg::R7 => 8,
            Reg::R8 => 9,
            Reg::R9 => 10,
            Reg::R10 => 11,
            Reg::AnchorDataMeta => 12,
            Reg::AnchorData => 13,
            Reg::AnchorDataEnd => 14,
        }
    }

    /// The register with matrix index `i`, if there is one.
    pub open spec fn spec_idx_to_reg(i: usize) -> Option<Reg> {
        if i == 0 { Some(Reg::Zero) }
        else if i == 1 { Some(Reg::R0) }
        else if i == 2 { Some(Reg::R1) }
        else if i == 3 { Some(Reg::R2) }
        else if i == 4 { Some(Reg::R3) }
        else if i == 5 { Some(Reg::R4) }
        else if i == 6 { Some(Reg::R5) }
        else if i == 7 { Some(Reg::R6) }
        else if i == 8 { Some(Reg::R7) }
        else if i == 9 { Some(Reg::R8) }
        else if i == 10 { Some(Reg::R9) }
        else if i == 11 { Some(Reg::R10) }
        else if i == 12 { Some(Reg::AnchorDataMeta) }
        else if i == 13 { Some(Reg::AnchorData) }
        else if i == 14 { Some(Reg::AnchorDataEnd) }
        else { None }
    }

    /// The register with matrix index `i`, if there is one.
    #[verifier::when_used_as_spec(spec_idx_to_reg)]
    pub fn idx_to_reg(i: usize) -> (r: Option<Reg>)
        ensures
            r == Reg::spec_idx_to_reg(i),
            r is Some <==> i < DBM_DIM,
            r matches Some(reg) ==> reg.idx() == i,
    {
        match i {
            0 => Some(Reg::Zero),
            1 => Some(Reg::R0),
            2 => Some(Reg::R1),
            3 => Some(Reg::R2),
            4 => Some(Reg::R3),
            5 => Some(Reg::R4),
            6 => Some(Reg::R5),
            7 => Some(Reg::R6),
            8 => Some(Reg::R7),
            9 => Some(Reg::R8),
            10 => Some(Reg::R9),
            11 => Some(Reg::R10),
            12 => Some(Reg::AnchorDataMeta),
            13 => Some(Reg::AnchorData),
            14 => Some(Reg::AnchorDataEnd),
            _ => None,
        }
    }

    /// Human-readable name of the register.
    pub open spec fn spec_name(self) -> &'static str {
        match self {
            Reg::Zero => "0",
            Reg::R0 => "r0",
            Reg::R1 => "r1",
            Reg::R2 => "r2",
            Reg::R3 => "r3",
            Reg::R4 => "r4",
            Reg::R5 => "r5",
            Reg::R6 => "r6",
            Reg::R7 => "r7",
            Reg::R8 => "r8",
            Reg::R9 => "r9",
            Reg::R10 => "r10",
            Reg::AnchorDataMeta => "@data_meta",
            Reg::AnchorData => "@data",
            Reg::AnchorDataEnd => "@data_end",
        }
    }

    /// Human-readable name of the register.
    #[verifier::when_used_as_spec(spec_name)]
    pub fn name(self) -> (r: &'static str)
        ensures
            r == self.spec_name(),
    {
        match self {
            Reg::Zero => "0",
            Reg::R0 => "r0",
            Reg::R1 => "r1",
            Reg::R2 => "r2",
            Reg::R3 => "r3",
            Reg::R4 => "r4",
            Reg::R5 => "r5",
            Reg::R6 => "r6",
            Reg::R7 => "r7",
            Reg::R8 => "r8",
            Reg::R9 => "r9",
            Reg::R10 => "r10",
            Reg::AnchorDataMeta => "@data_meta",
            Reg::AnchorData => "@data",
            Reg::AnchorDataEnd => "@data_end",
        }
    }

    /// Whether the register is one of the three packet anchors.
    pub open spec fn spec_is_anchor(self) -> bool {
        self is AnchorDataMeta || self is AnchorData || self is AnchorDataEnd
    }

    /// Whether the register is one of the three packet anchors.
    #[verifier::when_used_as_spec(spec_is_anchor)]
    pub fn is_anchor(self) -> (r: bool)
        ensures
            r == self.spec_is_anchor(),
    {
        matches!(self, Reg::AnchorDataMeta | Reg::AnchorData | Reg::AnchorDataEnd)
    }
}

/// Indexing and un-indexing a register are inverse to each other, so two
/// registers never share a matrix index.
pub proof fn law_index_round_trip(r: Reg, i: usize)
    ensures
        r.idx() < DBM_DIM,
        Reg::idx_to_reg(r.idx()) == Some(r),
        Reg::idx_to_reg(i) matches Some(s) ==> s.idx() == i,
{
}

} // verus!
