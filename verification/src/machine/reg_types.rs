//! What kind of value a register holds.
use crate::machine::reg::{Reg, DBM_DIM};
use crate::text::text_eq;
use vstd::prelude::*;

verus! {

/// Properties of a pointer to a kernel object.
#[derive(Debug, Clone, Copy, PartialEq, Eq, Structural)]
pub struct PtrFlags {
    pub trusted: bool,
    pub untrusted: bool,
    pub rcu: bool,
    pub percpu: bool,
    pub user: bool,
    pub mem_alloc: bool,
    pub rdonly: bool,
}

impl PtrFlags {
    pub open spec fn spec_empty() -> PtrFlags {
        PtrFlags {
            trusted: false,
            untrusted: false,
            rcu: false,
            percpu: false,
            user: false,
            mem_alloc: false,
            rdonly: false,
        }
    }

    /// No property.
    #[verifier::when_used_as_spec(spec_empty)]
    pub fn empty() -> (r: Self)
        ensures
            r == PtrFlags::spec_empty(),
    {
        PtrFlags {
            trusted: false,
            untrusted: false,
            rcu: false,
            percpu: false,
            user: false,
            mem_alloc: false,
            rdonly: false,
        }
    }

    pub open spec fn spec_union(self, other: PtrFlags) -> PtrFlags {
        PtrFlags {
            trusted: self.trusted || other.trusted,
            untrusted: self.untrusted || other.untrusted,
            rcu: self.rcu || other.rcu,
            percpu: self.percpu || other.percpu,
            user: self.user || other.user,
            mem_alloc: self.mem_alloc || other.mem_alloc,
            rdonly: self.rdonly || other.rdonly,
        }
    }

    /// The properties of either.
    #[verifier::when_used_as_spec(spec_union)]
    pub fn union(self, other: PtrFlags) -> (r: Self)
        ensures
            r == self.spec_union(other),
    {
        PtrFlags {
            trusted: self.trusted || other.trusted,
            untrusted: self.untrusted || other.untrusted,
            rcu: self.rcu || other.rcu,
            percpu: self.percpu || other.percpu,
            user: self.user || other.user,
            mem_alloc: self.mem_alloc || other.mem_alloc,
            rdonly: self.rdonly || other.rdonly,
        }
    }

    pub open spec fn spec_with_trusted() -> PtrFlags {
        PtrFlags { trusted: true, ..PtrFlags::empty() }
    }

    /// Trusted, and nothing else.
    #[verifier::when_used_as_spec(spec_with_trusted)]
    pub fn with_trusted() -> (r: Self)
        ensures
            r == PtrFlags::spec_with_trusted(),
    {
        let mut f: PtrFlags = PtrFlags::empty();
        f.trusted = true;
        f
    }
}

/// A position in the stack of call frames; the main program is at 0.
#[derive(Debug, Clone, Copy, PartialEq, Eq, Structural)]
pub struct FrameLevel {
    pub index: usize,
}

/// The type of a register or stack slot.
#[allow(inconsistent_fields)]
#[derive(Debug, Clone, Copy, PartialEq, Eq)]
pub enum RegType {
    NotInit,
    ScalarValue,
    PtrToCtx,
    PtrToStack { frame_level: FrameLevel },
    PtrToMapValue { id: u32, offset: Option<i64>, map_idx: usize, map_uid: Option<u32> },
    PtrToMapValueOrNull { id: u32, map_idx: usize, map_uid: Option<u32> },
    PtrToMapObject { map_idx: usize },
    PtrToPacket,
    PtrToPacketMeta,
    PtrToPacketEnd,
    PtrToSocket { ref_id: Option<u32> },
    PtrToSocketOrNull { ref_id: Option<u32> },
    PtrToSockCommon { ref_id: Option<u32> },
    PtrToSockCommonOrNull { ref_id: Option<u32> },
    PtrToTcpSock { id: Option<u32> },
    PtrToTcpSockOrNull { id: Option<u32> },
    PtrToBtfId { struct_name: &'static str, flags: PtrFlags, ref_id: Option<u32> },
    PtrToBtfIdOrNull { id: u32, struct_name: &'static str, flags: PtrFlags, ref_id: Option<u32> },
    PtrToAllocMem { id: u32, mem_size: u64, ref_id: Option<u32>, dynptr_id: Option<u32> },
    PtrToAllocMemOrNull { id: u32, mem_size: u64, ref_id: Option<u32>, dynptr_id: Option<u32> },
    PtrToArena { ref_id: Option<u32>, mem_size: u64 },
    PtrToTask { ref_id: Option<u32> },
    PtrToCgroup { ref_id: Option<u32> },
    PtrToCpumask { ref_id: Option<u32> },
    PtrToOwnedKptr { ref_id: Option<u32>, offset: i32, non_owning: bool, pointee_btf_id: u32 },
    PtrToOwnedKptrOrNull { ref_id: Option<u32>, offset: i32, non_owning: bool, pointee_btf_id: u32 },
    PtrToMapKptr { pointee_btf_id: u32, ref_id: Option<u32>, flags: PtrFlags, offset: i32 },
    PtrToMapKptrOrNull { pointee_btf_id: u32, ref_id: Option<u32>, flags: PtrFlags, offset: i32 },
    PtrToCallback { subprog_pc: u32 },
}

impl RegType {
    pub open spec fn spec_is_pointer(&self) -> bool {
        !(self is NotInit || self is ScalarValue)
    }

    /// Whether this is any kind of pointer.
    #[verifier::when_used_as_spec(spec_is_pointer)]
    pub fn is_pointer(&self) -> (r: bool)
        ensures
            r == self.spec_is_pointer(),
    {
        !matches!(self, RegType::NotInit | RegType::ScalarValue)
    }

    pub open spec fn spec_is_packet_ptr(&self) -> bool {
        self is PtrToPacket || self is PtrToPacketMeta || self is PtrToPacketEnd
    }

    /// Whether this points into the packet or to one of its ends.
    #[verifier::when_used_as_spec(spec_is_packet_ptr)]
    pub fn is_packet_ptr(&self) -> (r: bool)
        ensures
            r == self.spec_is_packet_ptr(),
    {
        matches!(self, RegType::PtrToPacket | RegType::PtrToPacketMeta | RegType::PtrToPacketEnd)
    }

    pub open spec fn spec_get_ref_id(&self) -> Option<u32> {
        match *self {
            RegType::PtrToSocket { ref_id } => ref_id,
            RegType::PtrToSocketOrNull { ref_id } => ref_id,
            RegType::PtrToSockCommon { ref_id } => ref_id,
            RegType::PtrToSockCommonOrNull { ref_id } => ref_id,
            RegType::PtrToTcpSock { id } => id,
            RegType::PtrToTcpSockOrNull { id } => id,
            RegType::PtrToBtfId { ref_id, .. } => ref_id,
            RegType::PtrToBtfIdOrNull { ref_id, .. } => ref_id,
            RegType::PtrToAllocMem { ref_id, .. } => ref_id,
            RegType::PtrToAllocMemOrNull { ref_id, .. } => ref_id,
            RegType::PtrToArena { ref_id, .. } => ref_id,
            RegType::PtrToTask { ref_id } => ref_id,
            RegType::PtrToCgroup { ref_id } => ref_id,
            RegType::PtrToCpumask { ref_id } => ref_id,
            RegType::PtrToOwnedKptr { ref_id, .. } => ref_id,
            RegType::PtrToOwnedKptrOrNull { ref_id, .. } => ref_id,
            RegType::PtrToMapKptr { ref_id, .. } => ref_id,
            RegType::PtrToMapKptrOrNull { ref_id, .. } => ref_id,
            _ => None,
        }
    }

    /// The reference the program holds through this pointer, if any.
    #[verifier::when_used_as_spec(spec_get_ref_id)]
    pub fn get_ref_id(&self) -> (r: Option<u32>)
        ensures
            r == self.spec_get_ref_id(),
    {
        match *self {
            RegType::PtrToSocket { ref_id } => ref_id,
            RegType::PtrToSocketOrNull { ref_id } => ref_id,
            RegType::PtrToSockCommon { ref_id } => ref_id,
            RegType::PtrToSockCommonOrNull { ref_id } => ref_id,
            RegType::PtrToTcpSock { id } => id,
            RegType::PtrToTcpSockOrNull { id } => id,
            RegType::PtrToBtfId { ref_id, .. } => ref_id,
            RegType::PtrToBtfIdOrNull { ref_id, .. } => ref_id,
            RegType::PtrToAllocMem { ref_id, .. } => ref_id,
            RegType::PtrToAllocMemOrNull { ref_id, .. } => ref_id,
            RegType::PtrToArena { ref_id, .. } => ref_id,
            RegType::PtrToTask { ref_id } => ref_id,
            RegType::PtrToCgroup { ref_id } => ref_id,
            RegType::PtrToCpumask { ref_id } => ref_id,
            RegType::PtrToOwnedKptr { ref_id, .. } => ref_id,
            RegType::PtrToOwnedKptrOrNull { ref_id, .. } => ref_id,
            RegType::PtrToMapKptr { ref_id, .. } => ref_id,
            RegType::PtrToMapKptrOrNull { ref_id, .. } => ref_id,
            _ => None,
        }
    }

    pub open spec fn spec_ptr_flags(&self) -> PtrFlags {
        match *self {
            RegType::PtrToBtfId { flags, .. } => flags,
            RegType::PtrToBtfIdOrNull { flags, .. } => flags,
            RegType::PtrToMapKptr { flags, .. } => flags,
            RegType::PtrToMapKptrOrNull { flags, .. } => flags,
            _ => PtrFlags::empty(),
        }
    }

    /// The properties of the pointer.
    #[verifier::when_used_as_spec(spec_ptr_flags)]
    pub fn ptr_flags(&self) -> (r: PtrFlags)
        ensures
            r == self.spec_ptr_flags(),
    {
        match *self {
            RegType::PtrToBtfId { flags, .. } => flags,
            RegType::PtrToBtfIdOrNull { flags, .. } => flags,
            RegType::PtrToMapKptr { flags, .. } => flags,
            RegType::PtrToMapKptrOrNull { flags, .. } => flags,
            _ => PtrFlags::empty(),
        }
    }

    pub open spec fn spec_is_trusted(&self) -> bool {
        self.ptr_flags().trusted
    }

    /// Whether the pointer is trusted.
    #[verifier::when_used_as_spec(spec_is_trusted)]
    pub fn is_trusted(&self) -> (r: bool)
        ensures
            r == self.spec_is_trusted(),
    {
        self.ptr_flags().trusted
    }
}

/// The types of all registers.
#[derive(Debug)]
pub struct TypeState {
    pub regs: Vec<RegType>,
}

impl TypeState {
    pub open spec fn view(&self) -> Seq<RegType> {
        self.regs@
    }

    pub open spec fn wf(&self) -> bool {
        self.regs@.len() == DBM_DIM
    }

    /// No register is initialized.
    pub fn new() -> (r: Self)
        ensures
            r@ == Seq::new(DBM_DIM as nat, |i: int| RegType::NotInit),
            r.wf(),
    {
        let mut regs: Vec<RegType> = Vec::new();
        let mut i: usize = 0;
        while i < DBM_DIM
            invariant
                i <= DBM_DIM,
                regs@ == Seq::new(i as nat, |k: int| RegType::NotInit),
            decreases DBM_DIM - i,
        {
            regs.push(RegType::NotInit);
            assert(regs@ =~= Seq::new((i + 1) as nat, |k: int| RegType::NotInit));
            i = i + 1;
        }
        TypeState { regs }
    }

    /// The type of a register.
    pub fn get(&self, r: Reg) -> (t: RegType)
        requires
            self.wf(),
        ensures
            t == self@[r.idx() as int],
    {
        self.regs[r.idx()]
    }

    /// Replaces the type of a register.
    pub fn set(&mut self, r: Reg, t: RegType)
        requires
            old(self).wf(),
        ensures
            final(self)@ == old(self)@.update(r.idx() as int, t),
            final(self).wf(),
    {
        self.regs[r.idx()] = t;
    }
}

impl Clone for TypeState {
    fn clone(&self) -> (r: Self)
        ensures
            r@ == self@,
    {
        let mut regs: Vec<RegType> = Vec::new();
        let mut i: usize = 0;
        while i < self.regs.len()
            invariant
                i <= self.regs@.len(),
                regs@ == self.regs@.take(i as int),
            decreases self.regs@.len() - i,
        {
            regs.push(self.regs[i]);
            assert(self.regs@.take(i + 1) =~= self.regs@.take(i as int).push(self.regs@[i as int]));
            i = i + 1;
        }
        assert(self.regs@.take(self.regs@.len() as int) =~= self.regs@);
        TypeState { regs }
    }
}

/// The five registers a call clobbers, in turn set to one type.
pub open spec fn clobbered(t: Seq<RegType>, ty: RegType) -> Seq<RegType> {
    t.update(2, ty).update(3, ty).update(4, ty).update(5, ty).update(6, ty)
}

/// Whether two types are the same; names of structs count by their text.
pub open spec fn like(a: RegType, b: RegType) -> bool {
    match (a, b) {
        (
            RegType::PtrToBtfId { struct_name: m, flags: f, ref_id: i },
            RegType::PtrToBtfId { struct_name: n, flags: g, ref_id: j },
        ) => m@ == n@ && f == g && i == j,
        (
            RegType::PtrToBtfIdOrNull { id: c, struct_name: m, flags: f, ref_id: i },
            RegType::PtrToBtfIdOrNull { id: d, struct_name: n, flags: g, ref_id: j },
        ) => c == d && m@ == n@ && f == g && i == j,
        _ => a == b,
    }
}

/// Whether two types are the same.
pub fn same_type(a: RegType, b: RegType) -> (r: bool)
    ensures
        r == like(a, b),
{
    match (a, b) {
        (RegType::NotInit, RegType::NotInit) => true,
        (RegType::ScalarValue, RegType::ScalarValue) => true,
        (RegType::PtrToCtx, RegType::PtrToCtx) => true,
        (RegType::PtrToStack { frame_level: a_frame_level }, RegType::PtrToStack { frame_level: b_frame_level }) => {
            a_frame_level == b_frame_level
        },
        (RegType::PtrToMapValue { id: a_id, offset: a_offset, map_idx: a_map_idx, map_uid: a_map_uid }, RegType::PtrToMapValue { id: b_id, offset: b_offset, map_idx: b_map_idx, map_uid: b_map_uid }) => {
            a_id == b_id && a_offset == b_offset && a_map_idx == b_map_idx && a_map_uid == b_map_uid
        },
        (RegType::PtrToMapValueOrNull { id: a_id, map_idx: a_map_idx, map_uid: a_map_uid }, RegType::PtrToMapValueOrNull { id: b_id, map_idx: b_map_idx, map_uid: b_map_uid }) => {
            a_id == b_id && a_map_idx == b_map_idx && a_map_uid == b_map_uid
        },
        (RegType::PtrToMapObject { map_idx: a_map_idx }, RegType::PtrToMapObject { map_idx: b_map_idx }) => {
            a_map_idx == b_map_idx
        },
        (RegType::PtrToPacket, RegType::PtrToPacket) => true,
        (RegType::PtrToPacketMeta, RegType::PtrToPacketMeta) => true,
        (RegType::PtrToPacketEnd, RegType::PtrToPacketEnd) => true,
        (RegType::PtrToSocket { ref_id: a_ref_id }, RegType::PtrToSocket { ref_id: b_ref_id }) => {
            a_ref_id == b_ref_id
        },
        (RegType::PtrToSocketOrNull { ref_id: a_ref_id }, RegType::PtrToSocketOrNull { ref_id: b_ref_id }) => {
            a_ref_id == b_ref_id
        },
        (RegType::PtrToSockCommon { ref_id: a_ref_id }, RegType::PtrToSockCommon { ref_id: b_ref_id }) => {
            a_ref_id == b_ref_id
        },
        (RegType::PtrToSockCommonOrNull { ref_id: a_ref_id }, RegType::PtrToSockCommonOrNull { ref_id: b_ref_id }) => {
            a_ref_id == b_ref_id
        },
        (RegType::PtrToTcpSock { id: a_id }, RegType::PtrToTcpSock { id: b_id }) => {
            a_id == b_id
        },
        (RegType::PtrToTcpSockOrNull { id: a_id }, RegType::PtrToTcpSockOrNull { id: b_id }) => {
            a_id == b_id
        },
        (RegType::PtrToBtfId { struct_name: a_struct_name, flags: a_flags, ref_id: a_ref_id }, RegType::PtrToBtfId { struct_name: b_struct_name, flags: b_flags, ref_id: b_ref_id }) => {
            text_eq(a_struct_name, b_struct_name) && a_flags == b_flags && a_ref_id == b_ref_id
        },
        (RegType::PtrToBtfIdOrNull { id: a_id, struct_name: a_struct_name, flags: a_flags, ref_id: a_ref_id }, RegType::PtrToBtfIdOrNull { id: b_id, struct_name: b_struct_name, flags: b_flags, ref_id: b_ref_id }) => {
            a_id == b_id && text_eq(a_struct_name, b_struct_name) && a_flags == b_flags && a_ref_id == b_ref_id
        },
        (RegType::PtrToAllocMem { id: a_id, mem_size: a_mem_size, ref_id: a_ref_id, dynptr_id: a_dynptr_id }, RegType::PtrToAllocMem { id: b_id, mem_size: b_mem_size, ref_id: b_ref_id, dynptr_id: b_dynptr_id }) => {
            a_id == b_id && a_mem_size == b_mem_size && a_ref_id == b_ref_id && a_dynptr_id == b_dynptr_id
        },
        (RegType::PtrToAllocMemOrNull { id: a_id, mem_size: a_mem_size, ref_id: a_ref_id, dynptr_id: a_dynptr_id }, RegType::PtrToAllocMemOrNull { id: b_id, mem_size: b_mem_size, ref_id: b_ref_id, dynptr_id: b_dynptr_id }) => {
            a_id == b_id && a_mem_size == b_mem_size && a_ref_id == b_ref_id && a_dynptr_id == b_dynptr_id
        },
        (RegType::PtrToArena { ref_id: a_ref_id, mem_size: a_mem_size }, RegType::PtrToArena { ref_id: b_ref_id, mem_size: b_mem_size }) => {
            a_ref_id == b_ref_id && a_mem_size == b_mem_size
        },
        (RegType::PtrToTask { ref_id: a_ref_id }, RegType::PtrToTask { ref_id: b_ref_id }) => {
            a_ref_id == b_ref_id
        },
        (RegType::PtrToCgroup { ref_id: a_ref_id }, RegType::PtrToCgroup { ref_id: b_ref_id }) => {
            a_ref_id == b_ref_id
        },
        (RegType::PtrToCpumask { ref_id: a_ref_id }, RegType::PtrToCpumask { ref_id: b_ref_id }) => {
            a_ref_id == b_ref_id
        },
        (RegType::PtrToOwnedKptr { ref_id: a_ref_id, offset: a_offset, non_owning: a_non_owning, pointee_btf_id: a_pointee_btf_id }, RegType::PtrToOwnedKptr { ref_id: b_ref_id, offset: b_offset, non_owning: b_non_owning, pointee_btf_id: b_pointee_btf_id }) => {
            a_ref_id == b_ref_id && a_offset == b_offset && a_non_owning == b_non_owning && a_pointee_btf_id == b_pointee_btf_id
        },
        (RegType::PtrToOwnedKptrOrNull { ref_id: a_ref_id, offset: a_offset, non_owning: a_non_owning, pointee_btf_id: a_pointee_btf_id }, RegType::PtrToOwnedKptrOrNull { ref_id: b_ref_id, offset: b_offset, non_owning: b_non_owning, pointee_btf_id: b_pointee_btf_id }) => {
            a_ref_id == b_ref_id && a_offset == b_offset && a_non_owning == b_non_owning && a_pointee_btf_id == b_pointee_btf_id
        },
        (RegType::PtrToMapKptr { pointee_btf_id: a_pointee_btf_id, ref_id: a_ref_id, flags: a_flags, offset: a_offset }, RegType::PtrToMapKptr { pointee_btf_id: b_pointee_btf_id, ref_id: b_ref_id, flags: b_flags, offset: b_offset }) => {
            a_pointee_btf_id == b_pointee_btf_id && a_ref_id == b_ref_id && a_flags == b_flags && a_offset == b_offset
        },
        (RegType::PtrToMapKptrOrNull { pointee_btf_id: a_pointee_btf_id, ref_id: a_ref_id, flags: a_flags, offset: a_offset }, RegType::PtrToMapKptrOrNull { pointee_btf_id: b_pointee_btf_id, ref_id: b_ref_id, flags: b_flags, offset: b_offset }) => {
            a_pointee_btf_id == b_pointee_btf_id && a_ref_id == b_ref_id && a_flags == b_flags && a_offset == b_offset
        },
        (RegType::PtrToCallback { subprog_pc: a_subprog_pc }, RegType::PtrToCallback { subprog_pc: b_subprog_pc }) => {
            a_subprog_pc == b_subprog_pc
        },
        _ => false,
    }
}

} // verus!
