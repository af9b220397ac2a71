//! Kernel objects that programs read through pointers: no field of them can be
//! written.
use crate::ast::MemSize;
use crate::machine::find::{first_where, lemma_first_where_at, lemma_first_where_none};
use crate::machine::reg_types::RegType;
use crate::num::divides;
use vstd::prelude::*;

verus! {

/// A field of a kernel object.
#[derive(Clone, Copy, Debug, PartialEq, Eq, Structural)]
pub struct MemRegionField {
    pub offset: i16,
    pub size: MemSize,
    /// Whether a part of the field can be read alone.
    pub narrow_access: bool,
}

/// What an access may do.
#[derive(Clone, Copy, Debug, PartialEq, Eq, Structural)]
pub struct MemRegionAccessInfo {
    pub readable: bool,
}

pub open spec fn spec_part(offset: i16, size: MemSize, narrow_access: bool) -> MemRegionField {
    MemRegionField { offset, size, narrow_access }
}

/// A field.
#[verifier::when_used_as_spec(spec_part)]
pub fn part(offset: i16, size: MemSize, narrow_access: bool) -> (r: MemRegionField)
    ensures
        r == spec_part(offset, size, narrow_access),
{
    MemRegionField { offset, size, narrow_access }
}

/// Whether an access of `size` bytes at `off` lies in a field, or is all of it
/// if only that is allowed.
pub open spec fn within(field_off: i16, bytes: usize, narrow: bool, off: i16, size: i64) -> bool {
    if narrow {
        field_off <= off && off + size <= field_off + bytes
    } else {
        field_off == off && bytes == size
    }
}

/// Whether an access lies in a field.
pub fn is_within(field_off: i16, bytes: usize, narrow: bool, off: i16, size: i64) -> (r: bool)
    requires
        0 < size <= 0x7FFF,
        bytes <= 8,
    ensures
        r == within(field_off, bytes, narrow, off, size),
{
    if narrow {
        field_off <= off && off as i64 + size <= field_off as i64 + bytes as i64
    } else {
        field_off == off && bytes as i64 == size
    }
}

/// Fields of `struct bpf_sock`.
pub open spec fn sock_table() -> Seq<MemRegionField> {
    seq![
        part(0, MemSize::U32, true),
        part(4, MemSize::U32, true),
        part(8, MemSize::U32, true),
        part(12, MemSize::U32, true),
        part(16, MemSize::U32, true),
        part(20, MemSize::U32, true),
        part(24, MemSize::U32, true),
        part(28, MemSize::U32, true),
        part(32, MemSize::U32, true),
        part(36, MemSize::U32, true),
        part(40, MemSize::U32, true),
        part(44, MemSize::U32, true),
        part(48, MemSize::U32, false),
        part(52, MemSize::U32, false),
        part(56, MemSize::U32, true),
        part(60, MemSize::U32, true),
        part(64, MemSize::U32, true),
        part(68, MemSize::U32, true),
        part(72, MemSize::U32, true),
        part(76, MemSize::U32, true),
    ]
}

/// Fields of `struct bpf_sock`.
pub fn sock_fields() -> (r: Vec<MemRegionField>)
    ensures
        r@ == sock_table(),
{
    vec![
        part(0, MemSize::U32, true),
        part(4, MemSize::U32, true),
        part(8, MemSize::U32, true),
        part(12, MemSize::U32, true),
        part(16, MemSize::U32, true),
        part(20, MemSize::U32, true),
        part(24, MemSize::U32, true),
        part(28, MemSize::U32, true),
        part(32, MemSize::U32, true),
        part(36, MemSize::U32, true),
        part(40, MemSize::U32, true),
        part(44, MemSize::U32, true),
        part(48, MemSize::U32, false),
        part(52, MemSize::U32, false),
        part(56, MemSize::U32, true),
        part(60, MemSize::U32, true),
        part(64, MemSize::U32, true),
        part(68, MemSize::U32, true),
        part(72, MemSize::U32, true),
        part(76, MemSize::U32, true),
    ]
}

/// Fields of a socket of which only the common part is there.
pub open spec fn sock_common_table() -> Seq<MemRegionField> {
    seq![
        part(4, MemSize::U32, true),
    ]
}

/// Fields of a socket of which only the common part is there.
pub fn sock_common_fields() -> (r: Vec<MemRegionField>)
    ensures
        r@ == sock_common_table(),
{
    vec![
        part(4, MemSize::U32, true),
    ]
}

/// Fields of `struct bpf_tcp_sock`.
pub open spec fn tcp_sock_table() -> Seq<MemRegionField> {
    seq![
        part(0, MemSize::U32, true),
        part(4, MemSize::U32, true),
        part(8, MemSize::U32, true),
        part(12, MemSize::U32, true),
        part(16, MemSize::U32, true),
        part(20, MemSize::U32, true),
        part(24, MemSize::U32, true),
        part(28, MemSize::U32, true),
        part(32, MemSize::U32, true),
        part(36, MemSize::U32, true),
        part(40, MemSize::U32, true),
        part(44, MemSize::U32, true),
        part(48, MemSize::U32, true),
        part(52, MemSize::U32, true),
        part(56, MemSize::U32, true),
        part(60, MemSize::U32, true),
        part(64, MemSize::U32, true),
        part(68, MemSize::U32, true),
        part(72, MemSize::U32, true),
        part(76, MemSize::U32, true),
        part(80, MemSize::U64, true),
        part(88, MemSize::U64, true),
        part(96, MemSize::U32, true),
        part(100, MemSize::U32, true),
        part(104, MemSize::U32, true),
        part(108, MemSize::U32, true),
    ]
}

/// Fields of `struct bpf_tcp_sock`.
pub fn tcp_sock_fields() -> (r: Vec<MemRegionField>)
    ensures
        r@ == tcp_sock_table(),
{
    vec![
        part(0, MemSize::U32, true),
        part(4, MemSize::U32, true),
        part(8, MemSize::U32, true),
        part(12, MemSize::U32, true),
        part(16, MemSize::U32, true),
        part(20, MemSize::U32, true),
        part(24, MemSize::U32, true),
        part(28, MemSize::U32, true),
        part(32, MemSize::U32, true),
        part(36, MemSize::U32, true),
        part(40, MemSize::U32, true),
        part(44, MemSize::U32, true),
        part(48, MemSize::U32, true),
        part(52, MemSize::U32, true),
        part(56, MemSize::U32, true),
        part(60, MemSize::U32, true),
        part(64, MemSize::U32, true),
        part(68, MemSize::U32, true),
        part(72, MemSize::U32, true),
        part(76, MemSize::U32, true),
        part(80, MemSize::U64, true),
        part(88, MemSize::U64, true),
        part(96, MemSize::U32, true),
        part(100, MemSize::U32, true),
        part(104, MemSize::U32, true),
        part(108, MemSize::U32, true),
    ]
}

pub open spec fn covers(off: i16, size: i64) -> spec_fn(MemRegionField) -> bool {
    |f: MemRegionField| within(f.offset, f.size.bytes(), f.narrow_access, off, size)
}

/// What an access to one of some fields may do; nothing if it is not aligned or
/// no field covers it.
pub open spec fn field_access(fields: Seq<MemRegionField>, off: i16, size: i64) -> Option<
    MemRegionAccessInfo,
> {
    if off as int % size as int == 0 && first_where(fields, covers(off, size)) is Some {
        Some(MemRegionAccessInfo { readable: true })
    } else {
        None
    }
}

fn lookup_field(fields: &Vec<MemRegionField>, off: i16, size: i64) -> (r: Option<
    MemRegionAccessInfo,
>)
    requires
        0 < size <= 0x7FFF,
    ensures
        r == field_access(fields@, off, size),
{
    if !divides(size, off as i64) {
        return None;
    }
    let mut i: usize = 0;
    while i < fields.len()
        invariant
            i <= fields@.len(),
            0 < size <= 0x7FFF,
            off as int % size as int == 0,
            forall|k: int| 0 <= k < i ==> !covers(off, size)(#[trigger] fields@[k]),
        decreases fields@.len() - i,
    {
        let f: MemRegionField = fields[i];
        if is_within(f.offset, f.size.bytes(), f.narrow_access, off, size) {
            proof {
                lemma_first_where_at(fields@, covers(off, size), i as int);
            }
            return Some(MemRegionAccessInfo { readable: true });
        }
        i = i + 1;
    }
    proof {
        lemma_first_where_none(fields@, covers(off, size));
    }
    None
}

/// The fields of the object that a pointer points to, if they are listed.
pub open spec fn region_table(t: RegType) -> Option<Seq<MemRegionField>> {
    match t {
        RegType::PtrToSockCommon { .. } => Some(sock_common_table()),
        RegType::PtrToTcpSock { .. } => Some(tcp_sock_table()),
        RegType::PtrToSocket { .. } => Some(sock_table()),
        _ => None,
    }
}

fn get_region_fields(t: RegType) -> (r: Option<Vec<MemRegionField>>)
    ensures
        match r {
            Some(v) => region_table(t) == Some(v@),
            None => region_table(t) is None,
        },
{
    match t {
        RegType::PtrToSockCommon { .. } => Some(sock_common_fields()),
        RegType::PtrToTcpSock { .. } => Some(tcp_sock_fields()),
        RegType::PtrToSocket { .. } => Some(sock_fields()),
        _ => None,
    }
}

pub open spec fn region_access(t: RegType, off: i16, size: i64) -> Option<MemRegionAccessInfo> {
    match region_table(t) {
        Some(fields) => field_access(fields, off, size),
        None => None,
    }
}

/// What an access through a pointer to a kernel object may do.
pub fn validate_mem_region_access(t: RegType, off: i16, size: i64) -> (r: Option<
    MemRegionAccessInfo,
>)
    requires
        0 < size <= 0x7FFF,
    ensures
        r == region_access(t, off, size),
{
    match get_region_fields(t) {
        Some(fields) => lookup_field(&fields, off, size),
        None => None,
    }
}

pub open spec fn region_readable(t: RegType, off: i16, size: i64) -> bool {
    region_access(t, off, size) matches Some(info) && info.readable
}

/// Whether a read through a pointer to a kernel object is allowed.
pub fn is_valid_mem_region_read(t: RegType, off: i16, size: i64) -> (r: bool)
    requires
        0 < size <= 0x7FFF,
    ensures
        r == region_readable(t, off, size),
{
    match validate_mem_region_access(t, off, size) {
        Some(info) => info.readable,
        None => false,
    }
}

/// No read before the start of an object is allowed.
pub proof fn law_regions_start_at_zero(t: RegType, off: i16, size: i64)
    requires
        size > 0,
        region_readable(t, off, size),
    ensures
        off >= 0,
{
    let fields = region_table(t)->Some_0;
    crate::machine::find::law_first_where(fields, covers(off, size));
    let f = first_where(fields, covers(off, size))->Some_0;
    let k = choose|k: int| 0 <= k < fields.len() && fields[k] == f;
    assert(fields[k].offset >= 0);
}

} // verus!
