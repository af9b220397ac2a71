//! The program representation that is analyzed.
use crate::machine::reg::Reg;
use vstd::prelude::*;

pub mod instr;
pub mod prog;
pub mod sections;

verus! {

/// A value an instruction works on.
#[derive(Clone, Copy, Debug, PartialEq, Eq, Structural)]
pub enum Operand {
    Reg(Reg),
    Imm(i64),
}

/// Whether an instruction works on all of a register or on its low half.
#[derive(Clone, Copy, Debug, PartialEq, Eq, Structural)]
pub enum Width {
    W32,
    W64,
}

/// Arithmetic operations.
#[derive(Clone, Copy, Debug, PartialEq, Eq, Structural)]
pub enum AluOp {
    Add,
    Sub,
    And,
    Or,
    Xor,
    Mov,
    Shl,
    Shr,
    Arsh,
    Mul,
    Mod,
    Div,
    Neg,
    Rsh,
    Lsh,
}

/// Conditions of a jump; `Test` holds if the operands share a set bit.
#[derive(Clone, Copy, Debug, PartialEq, Eq, Structural)]
pub enum CmpOp {
    UGe,
    ULe,
    UGt,
    ULt,
    Eq,
    Ne,
    SLt,
    SGt,
    SLe,
    SGe,
    Test,
}

/// Byte order conversions; `Bswap` swaps whatever the order is.
#[derive(Clone, Copy, Debug, PartialEq, Eq, Structural)]
pub enum EndianOp {
    ToBe,
    ToLe,
    Bswap,
}

/// Sizes of a memory access.
#[derive(Clone, Copy, Debug, PartialEq, Eq, Structural)]
pub enum MemSize {
    U8,
    U16,
    U32,
    U64,
}

impl MemSize {
    pub open spec fn spec_bytes(&self) -> usize {
        match self {
            MemSize::U8 => 1,
            MemSize::U16 => 2,
            MemSize::U32 => 4,
            MemSize::U64 => 8,
        }
    }

    /// The size in bytes.
    #[verifier::when_used_as_spec(spec_bytes)]
    pub fn bytes(&self) -> (r: usize)
        ensures
            r == self.spec_bytes(),
    {
        match self {
            MemSize::U8 => 1,
            MemSize::U16 => 2,
            MemSize::U32 => 4,
            MemSize::U64 => 8,
        }
    }

    pub open spec fn spec_unbounded_scalar_bounds(&self) -> (i64, i64) {
        match self {
            MemSize::U8 => (0, 0xFF),
            MemSize::U16 => (0, 0xFFFF),
            MemSize::U32 => (0, 0xFFFF_FFFF),
            MemSize::U64 => (i64::MIN, i64::MAX),
        }
    }

    /// The range of a value of this size about which nothing else is known.
    #[verifier::when_used_as_spec(spec_unbounded_scalar_bounds)]
    pub fn unbounded_scalar_bounds(&self) -> (r: (i64, i64))
        ensures
            r == self.spec_unbounded_scalar_bounds(),
    {
        match self {
            MemSize::U8 => (0, 0xFF),
            MemSize::U16 => (0, 0xFFFF),
            MemSize::U32 => (0, 0xFFFF_FFFF),
            MemSize::U64 => (i64::MIN, i64::MAX),
        }
    }
}

/// Source widths of a sign-extending move.
#[derive(Clone, Copy, Debug, PartialEq, Eq, Structural)]
pub enum SxWidth {
    S8,
    S16,
    S32,
}

impl SxWidth {
    pub open spec fn spec_bits(self) -> u32 {
        match self {
            SxWidth::S8 => 8,
            SxWidth::S16 => 16,
            SxWidth::S32 => 32,
        }
    }

    /// The width in bits.
    #[verifier::when_used_as_spec(spec_bits)]
    pub fn bits(self) -> (r: u32)
        ensures
            r == self.spec_bits(),
    {
        match self {
            SxWidth::S8 => 8,
            SxWidth::S16 => 16,
            SxWidth::S32 => 32,
        }
    }
}

/// How a packet load gives its offset: alone or added to a register.
#[derive(Clone, Copy, Debug, PartialEq, Eq, Structural)]
pub enum PacketLoadMode {
    Abs,
    Ind,
}

/// What a wide load of a pseudo value yields.
#[derive(Clone, Copy, Debug, PartialEq, Eq, Structural)]
pub enum MapLoadKind {
    /// The map itself.
    MapPtr,
    /// A pointer into the map's value.
    MapValue,
    /// A callback function.
    PseudoFunc { subprog_pc: u32 },
    /// A kernel symbol.
    PseudoBtfId { btf_id: u32 },
    /// A map by its index, not yet resolved.
    PseudoMapIdx,
    /// A map value by the map's index, not yet resolved.
    PseudoMapIdxValue,
}

/// Atomic read-modify-write operations.
#[derive(Clone, Copy, Debug, PartialEq, Eq, Structural)]
pub enum AtomicOp {
    Add,
    Or,
    And,
    Xor,
    Xchg,
    CmpXchg,
}

} // verus!
