//! Fields of the context structs that programs see.
use crate::ast::MemSize;
use crate::machine::reg_types::PtrFlags;
use vstd::prelude::*;

verus! {

/// What a load of a context field yields.
#[derive(Clone, Copy, Debug, PartialEq, Eq)]
pub enum CtxFieldKind {
    Scalar,
    /// A socket that may be absent and of which only common fields can be read.
    SockCommon,
    /// A socket.
    Socket,
    /// A socket that may be absent.
    SocketOrNull,
    PacketStart,
    PacketEnd,
    PacketMeta,
    /// A buffer of a fixed size.
    AllocMem { mem_size: u64 },
    /// A kernel object.
    TrustedPtr { struct_name: &'static str, nullable: bool, tag_flags: PtrFlags },
    /// A task the program holds a reference to.
    RefcountedTask { ref_id: u32 },
    /// A number in a range.
    BoundedScalar { lo: i64, hi: i64 },
}

/// A field of a context struct.
#[derive(Clone, Copy, Debug, PartialEq, Eq)]
pub struct CtxField {
    pub offset: i16,
    pub size: MemSize,
    pub kind: CtxFieldKind,
    pub writable: bool,
    pub readable: bool,
    /// Whether a part of the field can be accessed alone.
    pub narrow_access: bool,
}

pub open spec fn spec_field(
    offset: i16,
    size: MemSize,
    kind: CtxFieldKind,
    writable: bool,
    readable: bool,
    narrow_access: bool,
) -> CtxField {
    CtxField { offset, size, kind, writable, readable, narrow_access }
}

/// A field.
#[verifier::when_used_as_spec(spec_field)]
pub fn field(
    offset: i16,
    size: MemSize,
    kind: CtxFieldKind,
    writable: bool,
    readable: bool,
    narrow_access: bool,
) -> (r: CtxField)
    ensures
        r == spec_field(offset, size, kind, writable, readable, narrow_access),
{
    CtxField { offset, size, kind, writable, readable, narrow_access }
}

pub open spec fn spec_number(
    offset: i16,
    size: MemSize,
    writable: bool,
    readable: bool,
    narrow_access: bool,
) -> CtxField {
    CtxField { offset, size, kind: CtxFieldKind::Scalar, writable, readable, narrow_access }
}

/// A field that holds a plain number.
#[verifier::when_used_as_spec(spec_number)]
pub fn number(
    offset: i16,
    size: MemSize,
    writable: bool,
    readable: bool,
    narrow_access: bool,
) -> (r: CtxField)
    ensures
        r == spec_number(offset, size, writable, readable, narrow_access),
{
    CtxField { offset, size, kind: CtxFieldKind::Scalar, writable, readable, narrow_access }
}

pub open spec fn spec_object(struct_name: &'static str, nullable: bool) -> CtxFieldKind {
    CtxFieldKind::TrustedPtr { struct_name, nullable, tag_flags: PtrFlags::empty() }
}

/// A pointer to a kernel object.
#[verifier::when_used_as_spec(spec_object)]
pub fn object(struct_name: &'static str, nullable: bool) -> (r: CtxFieldKind)
    ensures
        r == spec_object(struct_name, nullable),
{
    CtxFieldKind::TrustedPtr { struct_name, nullable, tag_flags: PtrFlags::empty() }
}

/// Fields of `struct __sk_buff`.
pub open spec fn sk_buff_table() -> Seq<CtxField> {
    seq![
        number(0, MemSize::U32, false, true, true),
        number(4, MemSize::U32, false, true, false),
        number(8, MemSize::U32, true, true, true),
        number(12, MemSize::U32, true, true, false),
        number(16, MemSize::U32, false, true, true),
        number(20, MemSize::U32, false, true, false),
        number(24, MemSize::U32, false, true, false),
        number(28, MemSize::U32, false, true, false),
        number(32, MemSize::U32, true, true, false),
        number(36, MemSize::U32, false, true, false),
        number(40, MemSize::U32, false, true, false),
        number(44, MemSize::U32, true, true, false),
        number(48, MemSize::U32, true, true, true),
        number(52, MemSize::U32, true, true, true),
        number(56, MemSize::U32, true, true, true),
        number(60, MemSize::U32, true, true, true),
        number(64, MemSize::U32, true, true, true),
        number(68, MemSize::U32, false, true, true),
        number(72, MemSize::U32, true, true, false),
        field(76, MemSize::U32, CtxFieldKind::PacketStart, false, true, false),
        field(80, MemSize::U32, CtxFieldKind::PacketEnd, false, true, false),
        number(84, MemSize::U32, false, true, false),
        number(88, MemSize::U32, false, true, false),
        number(92, MemSize::U32, false, true, false),
        number(96, MemSize::U32, false, true, false),
        number(100, MemSize::U32, false, true, false),
        number(104, MemSize::U32, false, true, false),
        number(108, MemSize::U32, false, true, false),
        number(112, MemSize::U32, false, true, false),
        number(116, MemSize::U32, false, true, false),
        number(120, MemSize::U32, false, true, false),
        number(124, MemSize::U32, false, true, false),
        number(128, MemSize::U32, false, true, false),
        number(132, MemSize::U32, false, true, false),
        number(136, MemSize::U32, false, true, false),
        field(140, MemSize::U32, CtxFieldKind::PacketMeta, false, true, false),
        field(168, MemSize::U64, CtxFieldKind::SockCommon, false, true, false),
    ]
}

/// Fields of `struct __sk_buff`.
pub fn sk_buff_fields() -> (r: Vec<CtxField>)
    ensures
        r@ == sk_buff_table(),
{
    vec![
        number(0, MemSize::U32, false, true, true),
        number(4, MemSize::U32, false, true, false),
        number(8, MemSize::U32, true, true, true),
        number(12, MemSize::U32, true, true, false),
        number(16, MemSize::U32, false, true, true),
        number(20, MemSize::U32, false, true, false),
        number(24, MemSize::U32, false, true, false),
        number(28, MemSize::U32, false, true, false),
        number(32, MemSize::U32, true, true, false),
        number(36, MemSize::U32, false, true, false),
        number(40, MemSize::U32, false, true, false),
        number(44, MemSize::U32, true, true, false),
        number(48, MemSize::U32, true, true, true),
        number(52, MemSize::U32, true, true, true),
        number(56, MemSize::U32, true, true, true),
        number(60, MemSize::U32, true, true, true),
        number(64, MemSize::U32, true, true, true),
        number(68, MemSize::U32, false, true, true),
        number(72, MemSize::U32, true, true, false),
        field(76, MemSize::U32, CtxFieldKind::PacketStart, false, true, false),
        field(80, MemSize::U32, CtxFieldKind::PacketEnd, false, true, false),
        number(84, MemSize::U32, false, true, false),
        number(88, MemSize::U32, false, true, false),
        number(92, MemSize::U32, false, true, false),
        number(96, MemSize::U32, false, true, false),
        number(100, MemSize::U32, false, true, false),
        number(104, MemSize::U32, false, true, false),
        number(108, MemSize::U32, false, true, false),
        number(112, MemSize::U32, false, true, false),
        number(116, MemSize::U32, false, true, false),
        number(120, MemSize::U32, false, true, false),
        number(124, MemSize::U32, false, true, false),
        number(128, MemSize::U32, false, true, false),
        number(132, MemSize::U32, false, true, false),
        number(136, MemSize::U32, false, true, false),
        field(140, MemSize::U32, CtxFieldKind::PacketMeta, false, true, false),
        field(168, MemSize::U64, CtxFieldKind::SockCommon, false, true, false),
    ]
}

/// Fields of `struct __sk_buff` that a flow dissector sees as others do.
pub open spec fn flow_dissector_table() -> Seq<CtxField> {
    seq![
        field(76, MemSize::U32, CtxFieldKind::PacketStart, false, true, false),
        field(80, MemSize::U32, CtxFieldKind::PacketEnd, false, true, false),
    ]
}

/// Fields of `struct __sk_buff` that a flow dissector sees as others do.
pub fn flow_dissector_fields() -> (r: Vec<CtxField>)
    ensures
        r@ == flow_dissector_table(),
{
    vec![
        field(76, MemSize::U32, CtxFieldKind::PacketStart, false, true, false),
        field(80, MemSize::U32, CtxFieldKind::PacketEnd, false, true, false),
    ]
}

/// Fields of what a flow dissector also sees of `struct __sk_buff`.
pub open spec fn flow_dissector_extended_table() -> Seq<CtxField> {
    seq![
        field(144, MemSize::U64, object("bpf_flow_keys", false), false, true, false),
    ]
}

/// Fields of what a flow dissector also sees of `struct __sk_buff`.
pub fn flow_dissector_extended_fields() -> (r: Vec<CtxField>)
    ensures
        r@ == flow_dissector_extended_table(),
{
    vec![
        field(144, MemSize::U64, object("bpf_flow_keys", false), false, true, false),
    ]
}

/// Fields of what classifiers and cgroup programs also see of `struct __sk_buff`.
pub open spec fn sk_buff_extended_table() -> Seq<CtxField> {
    seq![
        number(152, MemSize::U64, false, true, false),
        number(160, MemSize::U32, false, true, false),
        number(164, MemSize::U32, false, true, false),
        number(176, MemSize::U32, false, true, false),
        number(180, MemSize::U8, false, true, false),
        number(184, MemSize::U64, false, true, false),
    ]
}

/// Fields of what classifiers and cgroup programs also see of `struct __sk_buff`.
pub fn sk_buff_extended_fields() -> (r: Vec<CtxField>)
    ensures
        r@ == sk_buff_extended_table(),
{
    vec![
        number(152, MemSize::U64, false, true, false),
        number(160, MemSize::U32, false, true, false),
        number(164, MemSize::U32, false, true, false),
        number(176, MemSize::U32, false, true, false),
        number(180, MemSize::U8, false, true, false),
        number(184, MemSize::U64, false, true, false),
    ]
}

/// Fields of `struct xdp_md`.
pub open spec fn xdp_md_table() -> Seq<CtxField> {
    seq![
        field(0, MemSize::U32, CtxFieldKind::PacketStart, false, true, false),
        field(4, MemSize::U32, CtxFieldKind::PacketEnd, false, true, false),
        field(8, MemSize::U32, CtxFieldKind::PacketMeta, false, true, false),
        number(12, MemSize::U32, false, true, false),
        number(16, MemSize::U32, true, true, false),
    ]
}

/// Fields of `struct xdp_md`.
pub fn xdp_md_fields() -> (r: Vec<CtxField>)
    ensures
        r@ == xdp_md_table(),
{
    vec![
        field(0, MemSize::U32, CtxFieldKind::PacketStart, false, true, false),
        field(4, MemSize::U32, CtxFieldKind::PacketEnd, false, true, false),
        field(8, MemSize::U32, CtxFieldKind::PacketMeta, false, true, false),
        number(12, MemSize::U32, false, true, false),
        number(16, MemSize::U32, true, true, false),
    ]
}

/// Fields of what a devmap program also sees of `struct xdp_md`.
pub open spec fn xdp_md_devmap_table() -> Seq<CtxField> {
    seq![
        number(20, MemSize::U32, true, true, false),
    ]
}

/// Fields of what a devmap program also sees of `struct xdp_md`.
pub fn xdp_md_devmap_fields() -> (r: Vec<CtxField>)
    ensures
        r@ == xdp_md_devmap_table(),
{
    vec![
        number(20, MemSize::U32, true, true, false),
    ]
}

/// Fields of `struct bpf_sock_addr`.
pub open spec fn sock_addr_table() -> Seq<CtxField> {
    seq![
        number(0, MemSize::U32, true, true, true),
        number(4, MemSize::U32, true, true, true),
        number(8, MemSize::U32, true, true, true),
        number(12, MemSize::U32, true, true, true),
        number(16, MemSize::U32, true, true, true),
        number(20, MemSize::U32, true, true, true),
        number(24, MemSize::U32, true, true, true),
        number(28, MemSize::U32, false, true, false),
        number(32, MemSize::U32, false, true, false),
        number(36, MemSize::U32, false, true, false),
        number(40, MemSize::U32, true, true, false),
        number(44, MemSize::U32, true, true, false),
        number(48, MemSize::U32, true, true, false),
        number(52, MemSize::U32, true, true, false),
        number(56, MemSize::U32, true, true, false),
        field(64, MemSize::U64, CtxFieldKind::SockCommon, false, true, false),
    ]
}

/// Fields of `struct bpf_sock_addr`.
pub fn sock_addr_fields() -> (r: Vec<CtxField>)
    ensures
        r@ == sock_addr_table(),
{
    vec![
        number(0, MemSize::U32, true, true, true),
        number(4, MemSize::U32, true, true, true),
        number(8, MemSize::U32, true, true, true),
        number(12, MemSize::U32, true, true, true),
        number(16, MemSize::U32, true, true, true),
        number(20, MemSize::U32, true, true, true),
        number(24, MemSize::U32, true, true, true),
        number(28, MemSize::U32, false, true, false),
        number(32, MemSize::U32, false, true, false),
        number(36, MemSize::U32, false, true, false),
        number(40, MemSize::U32, true, true, false),
        number(44, MemSize::U32, true, true, false),
        number(48, MemSize::U32, true, true, false),
        number(52, MemSize::U32, true, true, false),
        number(56, MemSize::U32, true, true, false),
        field(64, MemSize::U64, CtxFieldKind::SockCommon, false, true, false),
    ]
}

/// Fields of `struct bpf_sockopt`.
pub open spec fn sockopt_table() -> Seq<CtxField> {
    seq![
        field(0, MemSize::U64, CtxFieldKind::Socket, false, true, false),
        field(8, MemSize::U64, CtxFieldKind::PacketStart, false, true, false),
        field(16, MemSize::U64, CtxFieldKind::PacketEnd, false, true, false),
        number(24, MemSize::U32, true, true, false),
        number(28, MemSize::U32, true, true, false),
        number(32, MemSize::U32, true, true, false),
        number(36, MemSize::U32, true, true, false),
    ]
}

/// Fields of `struct bpf_sockopt`.
pub fn sockopt_fields() -> (r: Vec<CtxField>)
    ensures
        r@ == sockopt_table(),
{
    vec![
        field(0, MemSize::U64, CtxFieldKind::Socket, false, true, false),
        field(8, MemSize::U64, CtxFieldKind::PacketStart, false, true, false),
        field(16, MemSize::U64, CtxFieldKind::PacketEnd, false, true, false),
        number(24, MemSize::U32, true, true, false),
        number(28, MemSize::U32, true, true, false),
        number(32, MemSize::U32, true, true, false),
        number(36, MemSize::U32, true, true, false),
    ]
}

/// Fields of `struct bpf_sk_lookup`.
pub open spec fn sk_lookup_table() -> Seq<CtxField> {
    seq![
        field(0, MemSize::U64, CtxFieldKind::SockCommon, false, true, false),
        number(8, MemSize::U32, false, true, true),
        number(12, MemSize::U32, false, true, true),
        number(16, MemSize::U32, false, true, true),
        number(20, MemSize::U32, false, true, true),
        number(24, MemSize::U32, false, true, true),
        number(28, MemSize::U32, false, true, true),
        number(32, MemSize::U32, false, true, true),
        number(36, MemSize::U32, false, true, true),
        number(40, MemSize::U32, false, true, true),
        number(44, MemSize::U32, false, true, true),
        number(48, MemSize::U32, false, true, true),
        number(52, MemSize::U32, false, true, true),
        number(56, MemSize::U32, false, true, true),
        number(60, MemSize::U32, false, true, true),
        number(64, MemSize::U32, false, true, true),
    ]
}

/// Fields of `struct bpf_sk_lookup`.
pub fn sk_lookup_fields() -> (r: Vec<CtxField>)
    ensures
        r@ == sk_lookup_table(),
{
    vec![
        field(0, MemSize::U64, CtxFieldKind::SockCommon, false, true, false),
        number(8, MemSize::U32, false, true, true),
        number(12, MemSize::U32, false, true, true),
        number(16, MemSize::U32, false, true, true),
        number(20, MemSize::U32, false, true, true),
        number(24, MemSize::U32, false, true, true),
        number(28, MemSize::U32, false, true, true),
        number(32, MemSize::U32, false, true, true),
        number(36, MemSize::U32, false, true, true),
        number(40, MemSize::U32, false, true, true),
        number(44, MemSize::U32, false, true, true),
        number(48, MemSize::U32, false, true, true),
        number(52, MemSize::U32, false, true, true),
        number(56, MemSize::U32, false, true, true),
        number(60, MemSize::U32, false, true, true),
        number(64, MemSize::U32, false, true, true),
    ]
}

/// Fields of `struct bpf_sock_ops`.
pub open spec fn sock_ops_table() -> Seq<CtxField> {
    seq![
        number(0, MemSize::U32, false, true, true),
        number(4, MemSize::U32, true, true, true),
        number(20, MemSize::U32, false, true, true),
        number(32, MemSize::U32, false, true, true),
        number(36, MemSize::U32, false, true, true),
        number(48, MemSize::U32, false, true, true),
        number(52, MemSize::U32, false, true, true),
        number(64, MemSize::U32, false, true, true),
        number(68, MemSize::U32, false, true, true),
        number(8, MemSize::U32, false, true, true),
        number(12, MemSize::U32, false, true, true),
        number(16, MemSize::U32, false, true, true),
        number(72, MemSize::U32, false, true, true),
        number(76, MemSize::U32, false, true, true),
        number(80, MemSize::U32, false, true, true),
        number(84, MemSize::U32, true, true, true),
        number(88, MemSize::U32, false, true, true),
        number(92, MemSize::U32, false, true, true),
        number(96, MemSize::U32, false, true, true),
        number(100, MemSize::U32, false, true, true),
        number(104, MemSize::U32, false, true, true),
        number(108, MemSize::U32, false, true, true),
        number(112, MemSize::U32, false, true, true),
        number(116, MemSize::U32, false, true, true),
        number(120, MemSize::U32, false, true, true),
        number(124, MemSize::U32, false, true, true),
        number(128, MemSize::U32, false, true, true),
        number(132, MemSize::U32, false, true, true),
        number(136, MemSize::U32, false, true, true),
        number(140, MemSize::U32, false, true, true),
        number(144, MemSize::U32, false, true, true),
        number(148, MemSize::U32, false, true, true),
        number(152, MemSize::U32, false, true, true),
        number(156, MemSize::U32, false, true, true),
        number(160, MemSize::U32, false, true, true),
        number(164, MemSize::U32, true, true, true),
        number(168, MemSize::U64, false, true, false),
        number(176, MemSize::U64, false, true, false),
        field(192, MemSize::U64, CtxFieldKind::PacketStart, false, true, false),
        field(200, MemSize::U64, CtxFieldKind::PacketEnd, false, true, false),
        number(208, MemSize::U32, false, true, true),
        number(212, MemSize::U32, false, true, true),
        number(216, MemSize::U64, false, true, false),
        field(184, MemSize::U64, CtxFieldKind::SockCommon, false, true, false),
    ]
}

/// Fields of `struct bpf_sock_ops`.
pub fn sock_ops_fields() -> (r: Vec<CtxField>)
    ensures
        r@ == sock_ops_table(),
{
    vec![
        number(0, MemSize::U32, false, true, true),
        number(4, MemSize::U32, true, true, true),
        number(20, MemSize::U32, false, true, true),
        number(32, MemSize::U32, false, true, true),
        number(36, MemSize::U32, false, true, true),
        number(48, MemSize::U32, false, true, true),
        number(52, MemSize::U32, false, true, true),
        number(64, MemSize::U32, false, true, true),
        number(68, MemSize::U32, false, true, true),
        number(8, MemSize::U32, false, true, true),
        number(12, MemSize::U32, false, true, true),
        number(16, MemSize::U32, false, true, true),
        number(72, MemSize::U32, false, true, true),
        number(76, MemSize::U32, false, true, true),
        number(80, MemSize::U32, false, true, true),
        number(84, MemSize::U32, true, true, true),
        number(88, MemSize::U32, false, true, true),
        number(92, MemSize::U32, false, true, true),
        number(96, MemSize::U32, false, true, true),
        number(100, MemSize::U32, false, true, true),
        number(104, MemSize::U32, false, true, true),
        number(108, MemSize::U32, false, true, true),
        number(112, MemSize::U32, false, true, true),
        number(116, MemSize::U32, false, true, true),
        number(120, MemSize::U32, false, true, true),
        number(124, MemSize::U32, false, true, true),
        number(128, MemSize::U32, false, true, true),
        number(132, MemSize::U32, false, true, true),
        number(136, MemSize::U32, false, true, true),
        number(140, MemSize::U32, false, true, true),
        number(144, MemSize::U32, false, true, true),
        number(148, MemSize::U32, false, true, true),
        number(152, MemSize::U32, false, true, true),
        number(156, MemSize::U32, false, true, true),
        number(160, MemSize::U32, false, true, true),
        number(164, MemSize::U32, true, true, true),
        number(168, MemSize::U64, false, true, false),
        number(176, MemSize::U64, false, true, false),
        field(192, MemSize::U64, CtxFieldKind::PacketStart, false, true, false),
        field(200, MemSize::U64, CtxFieldKind::PacketEnd, false, true, false),
        number(208, MemSize::U32, false, true, true),
        number(212, MemSize::U32, false, true, true),
        number(216, MemSize::U64, false, true, false),
        field(184, MemSize::U64, CtxFieldKind::SockCommon, false, true, false),
    ]
}

/// Fields of `struct bpf_sock`.
pub open spec fn sock_table() -> Seq<CtxField> {
    seq![
        number(0, MemSize::U32, false, true, true),
        number(4, MemSize::U32, false, true, true),
        number(8, MemSize::U32, false, true, true),
        number(12, MemSize::U32, false, true, true),
    ]
}

/// Fields of `struct bpf_sock`.
pub fn sock_fields() -> (r: Vec<CtxField>)
    ensures
        r@ == sock_table(),
{
    vec![
        number(0, MemSize::U32, false, true, true),
        number(4, MemSize::U32, false, true, true),
        number(8, MemSize::U32, false, true, true),
        number(12, MemSize::U32, false, true, true),
    ]
}

/// Fields of `struct sk_msg_md`.
pub open spec fn sk_msg_md_table() -> Seq<CtxField> {
    seq![
        field(0, MemSize::U64, CtxFieldKind::PacketStart, false, true, false),
        field(8, MemSize::U64, CtxFieldKind::PacketEnd, false, true, false),
        number(16, MemSize::U32, false, true, false),
        number(20, MemSize::U32, false, true, false),
        number(24, MemSize::U32, false, true, false),
        number(28, MemSize::U32, false, true, false),
        number(32, MemSize::U32, false, true, false),
        number(36, MemSize::U32, false, true, false),
        number(40, MemSize::U32, false, true, false),
        number(44, MemSize::U32, false, true, false),
        number(48, MemSize::U32, false, true, false),
        number(52, MemSize::U32, false, true, false),
        number(56, MemSize::U32, false, true, false),
        number(60, MemSize::U32, false, true, false),
        number(64, MemSize::U32, false, true, false),
        number(68, MemSize::U32, false, true, false),
        field(72, MemSize::U64, CtxFieldKind::Socket, false, true, false),
    ]
}

/// Fields of `struct sk_msg_md`.
pub fn sk_msg_md_fields() -> (r: Vec<CtxField>)
    ensures
        r@ == sk_msg_md_table(),
{
    vec![
        field(0, MemSize::U64, CtxFieldKind::PacketStart, false, true, false),
        field(8, MemSize::U64, CtxFieldKind::PacketEnd, false, true, false),
        number(16, MemSize::U32, false, true, false),
        number(20, MemSize::U32, false, true, false),
        number(24, MemSize::U32, false, true, false),
        number(28, MemSize::U32, false, true, false),
        number(32, MemSize::U32, false, true, false),
        number(36, MemSize::U32, false, true, false),
        number(40, MemSize::U32, false, true, false),
        number(44, MemSize::U32, false, true, false),
        number(48, MemSize::U32, false, true, false),
        number(52, MemSize::U32, false, true, false),
        number(56, MemSize::U32, false, true, false),
        number(60, MemSize::U32, false, true, false),
        number(64, MemSize::U32, false, true, false),
        number(68, MemSize::U32, false, true, false),
        field(72, MemSize::U64, CtxFieldKind::Socket, false, true, false),
    ]
}

/// Fields of `struct pt_regs`.
pub open spec fn pt_regs_table() -> Seq<CtxField> {
    seq![
        number(0, MemSize::U64, false, true, false),
        number(8, MemSize::U64, false, true, false),
        number(16, MemSize::U64, false, true, false),
        number(24, MemSize::U64, false, true, false),
        number(32, MemSize::U64, false, true, false),
        number(40, MemSize::U64, false, true, false),
        number(48, MemSize::U64, false, true, false),
        number(56, MemSize::U64, false, true, false),
        number(64, MemSize::U64, false, true, false),
        number(72, MemSize::U64, false, true, false),
        number(80, MemSize::U64, false, true, false),
        number(88, MemSize::U64, false, true, false),
        number(96, MemSize::U64, false, true, false),
        number(104, MemSize::U64, false, true, false),
        number(112, MemSize::U64, false, true, false),
        number(120, MemSize::U64, false, true, false),
        number(128, MemSize::U64, false, true, false),
        number(136, MemSize::U64, false, true, false),
        number(144, MemSize::U64, false, true, false),
        number(152, MemSize::U64, false, true, false),
        number(160, MemSize::U64, false, true, false),
    ]
}

/// Fields of `struct pt_regs`.
pub fn pt_regs_fields() -> (r: Vec<CtxField>)
    ensures
        r@ == pt_regs_table(),
{
    vec![
        number(0, MemSize::U64, false, true, false),
        number(8, MemSize::U64, false, true, false),
        number(16, MemSize::U64, false, true, false),
        number(24, MemSize::U64, false, true, false),
        number(32, MemSize::U64, false, true, false),
        number(40, MemSize::U64, false, true, false),
        number(48, MemSize::U64, false, true, false),
        number(56, MemSize::U64, false, true, false),
        number(64, MemSize::U64, false, true, false),
        number(72, MemSize::U64, false, true, false),
        number(80, MemSize::U64, false, true, false),
        number(88, MemSize::U64, false, true, false),
        number(96, MemSize::U64, false, true, false),
        number(104, MemSize::U64, false, true, false),
        number(112, MemSize::U64, false, true, false),
        number(120, MemSize::U64, false, true, false),
        number(128, MemSize::U64, false, true, false),
        number(136, MemSize::U64, false, true, false),
        number(144, MemSize::U64, false, true, false),
        number(152, MemSize::U64, false, true, false),
        number(160, MemSize::U64, false, true, false),
    ]
}

/// Fields of `struct bpf_iter__task`.
pub open spec fn iter_task_table() -> Seq<CtxField> {
    seq![
        field(0, MemSize::U64, object("bpf_iter_meta", false), false, true, false),
        field(8, MemSize::U64, object("task_struct", true), false, true, false),
    ]
}

/// Fields of `struct bpf_iter__task`.
pub fn iter_task_fields() -> (r: Vec<CtxField>)
    ensures
        r@ == iter_task_table(),
{
    vec![
        field(0, MemSize::U64, object("bpf_iter_meta", false), false, true, false),
        field(8, MemSize::U64, object("task_struct", true), false, true, false),
    ]
}

} // verus!
