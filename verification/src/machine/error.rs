//! Why a program is rejected.
use crate::machine::reg::Reg;
use crate::machine::reg_types::RegType;
use vstd::prelude::*;

verus! {

/// A reason to reject a program.
#[allow(inconsistent_fields)]
#[derive(Debug, Clone, Copy, PartialEq, Eq)]
pub enum VerificationError {
    UnsupportedModernFeature { pc: usize, feature: &'static str },
    InvalidReturnCode { pc: usize },
    RegisterNotReadable { pc: usize, reg: Reg },
    RegisterNotWritable { pc: usize, reg: Reg },
    UnreleasedReference,
    UnreleasedIterator,
    UnreleasedDynptr,
    UnreleasedLock,
    UnreleasedRcuRead,
    ExitInPreemptDisabled,
    IrqState { pc: usize, reason: &'static str },
    MaxCallDepthExceeded { pc: usize },
    CannotReturnStackPointer { pc: usize },
    UnsafeCtxAccess { pc: usize, off: i16, size: i64 },
    MapLoadForbidden { pc: usize, map_idx: usize },
    MapStoreForbidden { pc: usize, map_idx: usize },
    MapNotFound { pc: usize, map_idx: usize },
    UnsafeMapLoad { pc: usize, off: i64, size: i64, limit: i64 },
    UnsafeMapStore { pc: usize, off: i64, size: i64, limit: i64 },
    UnsafeMapAccess { pc: usize, size: i64, map_idx: usize },
    UnsafeSocketAccess { pc: usize, off: i16, size: i64 },
    UnsafeGenericLoad { pc: usize, base: Reg, off: i16, base_type: RegType },
    UnsafeGenericStore { pc: usize, base: Reg, off: i16, base_type: RegType },
    UnsafeMemoryLoad { pc: usize, base: Reg, off: i16, size: i64 },
    UnsafeMemoryStore { pc: usize, base: Reg, off: i16, size: i64 },
    KptrStoreToReferenced { pc: usize, off: i64 },
    UptrStoreDisallowed { pc: usize, off: i64 },
    KptrAccessSizeMustBeDW { pc: usize, off: i64, size: i64 },
    KptrAccessMisaligned { pc: usize, off: i64, expected: u8 },
    KptrAccessVariableOffset { pc: usize, map_idx: usize },
    RelocationInfoMissing { pc: usize },
    IllegalPacketStore { pc: usize, off: i16, size: i64 },
    UnsafePacketLoad { pc: usize, off: i16, size: i64 },
    UnsafePacketStore { pc: usize, off: i16, size: i64 },
    MisalignedPacketAccess { pc: usize, off: i16, size: i64 },
    LoadAbsUnderLock { pc: usize },
    SpillToCaller { pc: usize },
    MisalignedAccess { pc: usize, off: i64 },
    StackOutOfBounds { pc: usize, off: i64, size: i64 },
    UninitializedStackRead { pc: usize, offset: i64 },
    InvalidStackRead { pc: usize, offset: i64 },
    InvalidArgType { pc: usize, reg: Reg },
    DynptrOverwrite { pc: usize, off: i64 },
    IteratorOverwrite { pc: usize, off: i64 },
    IrqFlagOverwrite { pc: usize, off: i64 },
}

} // verus!
