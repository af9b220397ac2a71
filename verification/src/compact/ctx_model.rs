//! What the fields of a traffic-control context hold.
use crate::ast::MemSize;
use crate::compact::ast::ProgramKind;
use vstd::prelude::*;

verus! {

/// A memory region that context fields describe.
#[derive(Clone, Copy, Debug, PartialEq, Eq, Structural)]
pub enum MemRegionId {
    /// A metadata buffer whose start and end are two fields of the context.
    CalicoMetaRegion,
}

/// What a context field holds.
#[derive(Clone, Copy, Debug, PartialEq, Eq, Structural)]
pub enum CtxFieldKind {
    Scalar,
    /// The start of a region.
    PtrToMem { region: MemRegionId },
    /// The end of a region.
    MemEnd { region: MemRegionId },
    PacketStart,
    PacketEnd,
}

/// What a field of a traffic-control context holds: the region's end at 0x4c,
/// its start at 0x8c, numbers elsewhere.
pub open spec fn tc_field(off: i16, size: MemSize) -> CtxFieldKind {
    if off == 0x4c && size is U32 {
        CtxFieldKind::MemEnd { region: MemRegionId::CalicoMetaRegion }
    } else if off == 0x8c && size is U32 {
        CtxFieldKind::PtrToMem { region: MemRegionId::CalicoMetaRegion }
    } else {
        CtxFieldKind::Scalar
    }
}

/// What a field of a traffic-control context holds.
pub fn classify_tc_ctx_field(off: i16, size: MemSize) -> (r: Option<CtxFieldKind>)
    ensures
        r == Some(tc_field(off, size)),
{
    match (off, size) {
        (0x4c, MemSize::U32) => Some(
            CtxFieldKind::MemEnd { region: MemRegionId::CalicoMetaRegion },
        ),
        (0x8c, MemSize::U32) => Some(
            CtxFieldKind::PtrToMem { region: MemRegionId::CalicoMetaRegion },
        ),
        _ => Some(CtxFieldKind::Scalar),
    }
}

/// What a field of a program's context holds.
pub fn classify_ctx_field(prog_kind: ProgramKind, off: i16, size: MemSize) -> (r: Option<
    CtxFieldKind,
>)
    ensures
        r == Some(
            match prog_kind {
                ProgramKind::Tc => tc_field(off, size),
                ProgramKind::Xdp => CtxFieldKind::Scalar,
            },
        ),
{
    match prog_kind {
        ProgramKind::Tc => classify_tc_ctx_field(off, size),
        ProgramKind::Xdp => Some(CtxFieldKind::Scalar),
    }
}

} // verus!
