//! What programs of each kind may do with their context.
use crate::ast::prog::ProgramKind;
use crate::common::ctx_model::{
    covers, ctx_access, ctx_readable, ctx_writable, field_access, info_of, maybe_null, region_access, region_holds, region_table, CtxAccessInfo,
};
use crate::common::ctx_tables::{
    sk_buff_extended_table, sk_buff_table, sk_lookup_table, sk_msg_md_table, sock_addr_table,
    sock_ops_table, sock_table, sockopt_table, xdp_md_devmap_table, xdp_md_table, CtxField,
    CtxFieldKind,
};
use crate::common::mem_region_model as regions;
use crate::machine::env::{EntryArg, ExecContext};
use crate::machine::find::{first_where, law_first_where};
use crate::machine::reg_types::RegType;
use crate::transfer::fields::trusted_field;
use vstd::prelude::*;

verus! {

/// The access is that of some field of the table.
pub open spec fn comes_from(fields: Seq<CtxField>, off: i16, size: i64, info: CtxAccessInfo, k: int) -> bool {
    &&& 0 <= k < fields.len()
    &&& covers(off, size)(fields[k])
    &&& info == info_of(fields[k])
}

proof fn lemma_found(fields: Seq<CtxField>, off: i16, size: i64) -> (k: int)
    ensures
        field_access(fields, off, size) matches Some(info) ==> off as int % size as int == 0
            && comes_from(fields, off, size, info, k),
{
    law_first_where(fields, covers(off, size));
    if field_access(fields, off, size) is Some {
        let f = first_where(fields, covers(off, size))->Some_0;
        choose|k: int| 0 <= k < fields.len() && fields[k] == f
    } else {
        0
    }
}

/// All fields lie in the first `n` bytes.
pub open spec fn fields_end_by(fields: Seq<CtxField>, n: int) -> bool {
    forall|k: int|
        0 <= k < fields.len() ==> 0 <= (#[trigger] fields[k]).offset && fields[k].offset
            + fields[k].size.bytes() <= n
}

proof fn lemma_in_bounds(fields: Seq<CtxField>, n: int, off: i16, size: i64)
    requires
        fields_end_by(fields, n),
        size > 0,
        field_access(fields, off, size) is Some,
    ensures
        0 <= off,
        off + size <= n,
        off as int % size as int == 0,
{
    let k = lemma_found(fields, off, size);
    let f = fields[k];
}

/// The size of the struct that programs of this kind are given.
pub open spec fn context_size(k: ProgramKind) -> int {
    match k {
        ProgramKind::Xdp => 24,
        ProgramKind::SockOps => 224,
        ProgramKind::SkLookup => 68,
        ProgramKind::SkMsg => 80,
        ProgramKind::CgroupSockAddr => 72,
        ProgramKind::CgroupSockopt => 40,
        ProgramKind::CgroupSock => 16,
        _ => 192,
    }
}

/// The kinds of programs whose context is a struct of a fixed layout.
pub open spec fn has_fixed_context(k: ProgramKind) -> bool {
    k is Xdp || k is SockOps || k is SkLookup || k is SkMsg || k is CgroupSockAddr
        || k is CgroupSockopt || k is CgroupSock || sees_a_buffer(k)
}

/// The kinds of programs that are given a buffer of the network stack.
pub open spec fn sees_a_buffer(k: ProgramKind) -> bool {
    k is SchedCls || k is SchedAct || k is SocketFilter || k is SkSkb || k is CgroupSkb
        || k is LwtIn || k is LwtOut || k is LwtXmit
}

proof fn lemma_tables_end()
    ensures
        fields_end_by(xdp_md_table(), 20),
        fields_end_by(xdp_md_devmap_table(), 24),
        fields_end_by(sock_ops_table(), 224),
        fields_end_by(sk_lookup_table(), 68),
        fields_end_by(sk_msg_md_table(), 80),
        fields_end_by(sock_addr_table(), 72),
        fields_end_by(sockopt_table(), 40),
        fields_end_by(sock_table(), 16),
        fields_end_by(sk_buff_table(), 176),
        fields_end_by(sk_buff_extended_table(), 192),
        fields_end_by(Seq::<CtxField>::empty(), 0),
{
}

/// An access to the context that is allowed lies in the context and is aligned
/// to its size.
pub proof fn law_context_accesses_lie_in_the_context(ctx: ExecContext, off: i16, size: i64)
    requires
        has_fixed_context(ctx.prog_kind),
        size > 0,
        ctx_readable(ctx, off, size) || ctx_writable(ctx, off, size),
    ensures
        0 <= off,
        off + size <= context_size(ctx.prog_kind),
        off as int % size as int == 0,
{
    reveal(ctx_access);
    lemma_tables_end();
    let c = ctx.prog_kind.context_kind();
    law_first_where(region_table(c), region_holds(off, size));
    if region_access(c, off, size) is Some {
        let r = first_where(region_table(c), region_holds(off, size))->Some_0;
        let k = choose|k: int| 0 <= k < region_table(c).len() && region_table(c)[k] == r;
        assert(region_table(c)[k].start >= 0 && region_table(c)[k].end <= 72);
    } else {
        assert forall|fields: Seq<CtxField>, n: int|
            #[trigger] fields_end_by(fields, n) && field_access(fields, off, size)
                is Some implies 0 <= off && off + size <= n && off as int % size as int == 0 by {
            lemma_in_bounds(fields, n, off, size);
        }
    }
}

/// A driver's program reads the six words of its context, each as a whole, and
/// writes only the queue or, where it is attached to a device map, the egress
/// device as well. The first three are the packet's start and end, and the
/// start of the metadata.
pub proof fn law_driver_contexts(ctx: ExecContext, off: i16, size: i64)
    requires
        ctx.prog_kind is Xdp,
        size > 0,
        ctx_access(ctx, off, size) is Some,
    ensures
        size == 4,
        off == 0 || off == 4 || off == 8 || off == 12 || off == 16 || off == 20,
        ctx_writable(ctx, off, size) ==> off == 16 || off == 20,
        off == 20 ==> (ctx.attach_subtype matches Some(t) && t@ == "devmap"@),
        ctx_access(ctx, off, size)->Some_0.kind is PacketStart <==> off == 0,
        ctx_access(ctx, off, size)->Some_0.kind is PacketEnd <==> off == 4,
        ctx_access(ctx, off, size)->Some_0.kind is PacketMeta <==> off == 8,
        off >= 12 ==> ctx_access(ctx, off, size)->Some_0.kind is Scalar,
        ctx_readable(ctx, off, size),
{
    reveal(ctx_access);
    let k = lemma_found(xdp_md_table(), off, size);
    let j = lemma_found(xdp_md_devmap_table(), off, size);
    let i = lemma_found(Seq::<CtxField>::empty(), off, size);
    law_first_where(
        region_table(ctx.prog_kind.context_kind()),
        region_holds(off, size),
    );
}

/// Those words can be read.
pub proof fn law_driver_contexts_are_readable(ctx: ExecContext, off: i16)
    requires
        ctx.prog_kind is Xdp,
        off == 0 || off == 4 || off == 8 || off == 12 || off == 16,
    ensures
        ctx_readable(ctx, off, 4),
        off == 16 ==> ctx_writable(ctx, off, 4),
{
    reveal(ctx_access);
    law_first_where(xdp_md_table(), covers(off, 4));
    assert(covers(off, 4)(xdp_md_table()[off as int / 4]));
    law_first_where(
        region_table(ctx.prog_kind.context_kind()),
        region_holds(off, 4),
    );
    let k = lemma_found(xdp_md_table(), off, 4);
}

/// Contexts of lookups, messages and sockets are read only, those of other
/// kinds are written in a few fields.
pub proof fn law_context_writes_are_few(ctx: ExecContext, off: i16, size: i64)
    requires
        size > 0,
        ctx_writable(ctx, off, size),
    ensures
        !(ctx.prog_kind is SkLookup),
        !(ctx.prog_kind is SkMsg),
        !(ctx.prog_kind is CgroupSock),
        ctx.prog_kind is SockOps ==> 4 <= off && off + size <= 8 || 84 <= off && off + size <= 88
            || 164 <= off && off + size <= 168,
        ctx.prog_kind is CgroupSockopt ==> 24 <= off && off + size <= 40 && size == 4,
        ctx.prog_kind is CgroupSockAddr ==> 0 <= off && off + size <= 28 || 40 <= off && off + size
            <= 60,
        sees_a_buffer(ctx.prog_kind) ==> {
            ||| 8 <= off && off + size <= 12
            ||| off == 12 && size == 4
            ||| off == 32 && size == 4
            ||| 44 <= off && off + size <= 68
            ||| off == 72 && size == 4 && (ctx.prog_kind is SchedCls || ctx.prog_kind is SchedAct)
            ||| off == 152 && size == 8 && (ctx.prog_kind is SchedCls || ctx.prog_kind is SchedAct
                || ctx.prog_kind is CgroupSkb)
        },
        ctx.prog_kind is SkSkb ==> off != 8,
{
    reveal(ctx_access);
    let c = ctx.prog_kind.context_kind();
    law_first_where(region_table(c), region_holds(off, size));
    if region_access(c, off, size) is Some {
        let r = first_where(region_table(c), region_holds(off, size))->Some_0;
        let k = choose|k: int| 0 <= k < region_table(c).len() && region_table(c)[k] == r;
        assert(region_table(c)[k] == r);
    }
    let a = lemma_found(sock_ops_table(), off, size);
    lemma_op_writes();
    let b = lemma_found(sockopt_table(), off, size);
    let d = lemma_found(sock_addr_table(), off, size);
    let e = lemma_found(sk_buff_table(), off, size);
    lemma_buffer_writes();
    let f = lemma_found(sk_buff_extended_table(), off, size);
    let g = lemma_found(sk_lookup_table(), off, size);
    lemma_read_only_tables();
    let h = lemma_found(sk_msg_md_table(), off, size);
    let i = lemma_found(sock_table(), off, size);
    let j = lemma_found(Seq::<CtxField>::empty(), off, size);
}

proof fn lemma_op_writes()
    ensures
        forall|k: int|
            0 <= k < sock_ops_table().len() && (#[trigger] sock_ops_table()[k]).writable ==> (
            sock_ops_table()[k].offset == 4 || sock_ops_table()[k].offset == 84
                || sock_ops_table()[k].offset == 164) && sock_ops_table()[k].size.bytes() == 4,
        forall|k: int|
            0 <= k < sock_addr_table().len() && (#[trigger] sock_addr_table()[k]).writable ==> (
            sock_addr_table()[k].offset <= 24 || 40 <= sock_addr_table()[k].offset <= 56)
                && sock_addr_table()[k].size.bytes() == 4 && sock_addr_table()[k].offset >= 0
                && sock_addr_table()[k].offset % 4 == 0,
        forall|k: int|
            0 <= k < sockopt_table().len() && (#[trigger] sockopt_table()[k]).writable
                ==> sockopt_table()[k].offset >= 24 && sockopt_table()[k].offset <= 36
                && sockopt_table()[k].size.bytes() == 4 && !sockopt_table()[k].narrow_access,
{
}

proof fn lemma_buffer_writes()
    ensures
        forall|k: int|
            0 <= k < sk_buff_table().len() && (#[trigger] sk_buff_table()[k]).writable ==> {
                let f = sk_buff_table()[k];
                &&& f.size.bytes() == 4
                &&& f.offset == 8 || f.offset == 12 || f.offset == 32 || f.offset == 44 || f.offset
                    == 48 || f.offset == 52 || f.offset == 56 || f.offset == 60 || f.offset == 64
                    || f.offset == 72
                &&& f.offset == 12 || f.offset == 32 || f.offset == 72 ==> !f.narrow_access
            },
        forall|k: int|
            0 <= k < sk_buff_table().len() && (#[trigger] sk_buff_table()[k]).offset == 32
                ==> sk_buff_table()[k].size.bytes() == 4 && !sk_buff_table()[k].narrow_access,
        forall|k: int|
            0 <= k < sk_buff_table().len() && (#[trigger] sk_buff_table()[k]).narrow_access
                ==> sk_buff_table()[k].offset != 32 && sk_buff_table()[k].size.bytes() == 4 && (
            sk_buff_table()[k].offset < 24 || sk_buff_table()[k].offset > 44)
                && sk_buff_table()[k].offset < 100,
        forall|k: int|
            0 <= k < sk_buff_table().len() ==> (#[trigger] sk_buff_table()[k]).offset != 152
                && sk_buff_table()[k].readable,
        forall|k: int|
            0 <= k < sk_buff_extended_table().len() ==> !(#[trigger] sk_buff_extended_table()[k]).writable
                && !sk_buff_extended_table()[k].narrow_access && sk_buff_extended_table()[k].readable
                && sk_buff_extended_table()[k].offset >= 152 && (
            sk_buff_extended_table()[k].offset == 152
                ==> sk_buff_extended_table()[k].size.bytes() == 8),
{
}

proof fn lemma_read_only_tables()
    ensures
        forall|k: int|
            0 <= k < sk_lookup_table().len() ==> !(#[trigger] sk_lookup_table()[k]).writable,
        forall|k: int|
            0 <= k < sk_msg_md_table().len() ==> !(#[trigger] sk_msg_md_table()[k]).writable,
        forall|k: int| 0 <= k < sock_table().len() ==> !(#[trigger] sock_table()[k]).writable,
{
}

/// The class of a packet is never read, its ends only by programs that see
/// packets, its addresses only by cgroup and stream programs, and the start of
/// its metadata not by cgroup programs.
pub proof fn law_buffer_reads_are_guarded(ctx: ExecContext, off: i16, size: i64)
    requires
        sees_a_buffer(ctx.prog_kind),
        size > 0,
        ctx_readable(ctx, off, size),
    ensures
        off != 72,
        off == 76 || off == 80 ==> !(ctx.prog_kind is SocketFilter),
        off == 88 || off == 92 || off == 96 || 100 <= off <= 128 || off == 132 || off == 136
            ==> ctx.prog_kind is CgroupSkb || ctx.prog_kind is SkSkb,
        off == 140 ==> !(ctx.prog_kind is CgroupSkb),
        off >= 152 && off != 168 ==> ctx.prog_kind is SchedCls || ctx.prog_kind is SchedAct
            || ctx.prog_kind is CgroupSkb,
        off == 8 ==> !(ctx.prog_kind is SkSkb),
{
    reveal(ctx_access);
    let c = ctx.prog_kind.context_kind();
    law_first_where(region_table(c), region_holds(off, size));
    if region_access(c, off, size) is Some {
        let r = first_where(region_table(c), region_holds(off, size))->Some_0;
        let k = choose|k: int| 0 <= k < region_table(c).len() && region_table(c)[k] == r;
        assert(region_table(c)[k] == r);
    }
    lemma_buffer_ends();
    let e = lemma_found(sk_buff_table(), off, size);
    let f = lemma_found(sk_buff_extended_table(), off, size);
    let j = lemma_found(Seq::<CtxField>::empty(), off, size);
}

proof fn lemma_buffer_ends()
    ensures
        forall|k: int|
            0 <= k < sk_buff_table().len() ==> (#[trigger] sk_buff_table()[k]).offset
                + sk_buff_table()[k].size.bytes() <= 144 || sk_buff_table()[k].offset == 168
                && !sk_buff_table()[k].narrow_access,
{
}

/// Programs that see packets find its start and end at their places, and
/// nothing else there.
pub proof fn law_packet_ends_are_found(ctx: ExecContext, off: i16, size: i64)
    requires
        size > 0,
        ctx_access(ctx, off, size) is Some,
    ensures
        sees_a_buffer(ctx.prog_kind) ==> {
            let kind = ctx_access(ctx, off, size)->Some_0.kind;
            &&& kind is PacketStart <==> off == 76
            &&& kind is PacketEnd <==> off == 80
            &&& kind is PacketMeta <==> off == 140
            &&& kind is SockCommon <==> off == 168
            &&& off == 76 || off == 80 || off == 140 ==> size == 4
        },
        ctx.prog_kind is SkMsg ==> {
            let kind = ctx_access(ctx, off, size)->Some_0.kind;
            &&& kind is PacketStart <==> off == 0
            &&& kind is PacketEnd <==> off == 8
        },
        ctx.prog_kind is CgroupSockopt ==> {
            let kind = ctx_access(ctx, off, size)->Some_0.kind;
            &&& kind is PacketStart <==> off == 8
            &&& kind is PacketEnd <==> off == 16
            &&& kind is Socket <==> off == 0
        },
        ctx.prog_kind is SockOps ==> {
            let kind = ctx_access(ctx, off, size)->Some_0.kind;
            &&& kind is PacketStart <==> off == 192
            &&& kind is PacketEnd <==> off == 200
            &&& kind is SockCommon <==> off == 184
        },
{
    reveal(ctx_access);
    let c = ctx.prog_kind.context_kind();
    law_first_where(region_table(c), region_holds(off, size));
    if region_access(c, off, size) is Some {
        let r = first_where(region_table(c), region_holds(off, size))->Some_0;
        let k = choose|k: int| 0 <= k < region_table(c).len() && region_table(c)[k] == r;
        assert(region_table(c)[k] == r);
    }
    lemma_kinds();
    let a = lemma_found(sk_buff_table(), off, size);
    let b = lemma_found(sk_buff_extended_table(), off, size);
    let d = lemma_found(sk_msg_md_table(), off, size);
    let e = lemma_found(sockopt_table(), off, size);
    let f = lemma_found(sock_ops_table(), off, size);
    let j = lemma_found(Seq::<CtxField>::empty(), off, size);
}

/// Where a field of the table starts decides what it holds; the fields with
/// something else than a number are accessed as a whole.
pub open spec fn placed(
    f: CtxField,
    start: int,
    end: int,
    meta: int,
    common: int,
    socket: int,
) -> bool {
    &&& f.kind is PacketStart <==> f.offset == start
    &&& f.kind is PacketEnd <==> f.offset == end
    &&& f.kind is PacketMeta <==> f.offset == meta
    &&& f.kind is SockCommon <==> f.offset == common
    &&& f.kind is Socket <==> f.offset == socket
    &&& f.kind is Scalar || !f.narrow_access
    &&& f.narrow_access ==> f.size.bytes() == 4 && f.offset as int % 4 == 0
}

proof fn lemma_kinds()
    ensures
        forall|k: int|
            0 <= k < sk_buff_table().len() ==> placed(
                #[trigger] sk_buff_table()[k],
                76,
                80,
                140,
                168,
                -1,
            ),
        forall|k: int|
            0 <= k < sk_buff_table().len() && (#[trigger] sk_buff_table()[k]).offset < 168
                ==> sk_buff_table()[k].size.bytes() == 4,
        forall|k: int|
            0 <= k < sk_buff_table().len() && (#[trigger] sk_buff_table()[k]).narrow_access
                ==> sk_buff_table()[k].offset < 76,
        forall|k: int|
            0 <= k < sk_buff_extended_table().len() ==> placed(
                #[trigger] sk_buff_extended_table()[k],
                76,
                80,
                140,
                168,
                -1,
            ),
        forall|k: int|
            0 <= k < sk_msg_md_table().len() ==> placed(
                #[trigger] sk_msg_md_table()[k],
                0,
                8,
                -1,
                -1,
                72,
            ),
        forall|k: int|
            0 <= k < sockopt_table().len() ==> placed(
                #[trigger] sockopt_table()[k],
                8,
                16,
                -1,
                -1,
                0,
            ),
        forall|k: int|
            0 <= k < sock_ops_table().len() ==> placed(
                #[trigger] sock_ops_table()[k],
                192,
                200,
                -1,
                184,
                -1,
            ),
        forall|k: int|
            0 <= k < sock_ops_table().len() && (#[trigger] sock_ops_table()[k]).narrow_access
                ==> sock_ops_table()[k].offset < 168 || sock_ops_table()[k].offset >= 208,
{
}

/// A program that serves a system call reads and writes any aligned bytes of
/// the first 4096; one that is given arguments reads each as a whole and writes
/// none; a netfilter program reads its two pointers.
pub proof fn law_other_contexts(ctx: ExecContext, off: i16, size: i64)
    requires
        size == 1 || size == 2 || size == 4 || size == 8,
    ensures
        ctx.prog_kind is Syscall ==> (ctx_readable(ctx, off, size) <==> 0 <= off && off + size
            <= 4096 && off as int % size as int == 0),
        ctx.prog_kind is Syscall ==> (ctx_writable(ctx, off, size) <==> 0 <= off && off + size
            <= 4096 && off as int % size as int == 0),
        ctx.prog_kind is Lsm || ctx.prog_kind is RawTracepoint || ctx.prog_kind is Tracepoint
            || ctx.prog_kind is RawTracepointWritable ==> (ctx_readable(ctx, off, size) <==> size
            == 8 && off >= 0 && off as int % 8 == 0),
        ctx.prog_kind is StructOps ==> (ctx_readable(ctx, off, size) <==> size == 8 && off >= 0
            && off as int % 8 == 0 && (ctx.entry_args matches Some(args) && off as int / 8
            < args@.len())),
        ctx.prog_kind is Netfilter ==> (ctx_readable(ctx, off, size) <==> size == 8 && (off == 0
            || off == 8)),
{
    reveal(ctx_access);
    let c = ctx.prog_kind.context_kind();
    law_first_where(region_table(c), region_holds(off, size));
}

/// What can be read of sockets: all words of a full socket up to its 80 bytes,
/// ports only as a whole; the words and the two counters of a TCP socket up to
/// its 112; the family of a common one.
pub proof fn law_socket_reads(t: RegType, off: i16, size: i64)
    requires
        size == 1 || size == 2 || size == 4 || size == 8,
    ensures
        t is PtrToSocket ==> (regions::region_readable(t, off, size) <==> 0 <= off && off + size
            <= 80 && size <= 4 && off as int % size as int == 0 && (48 <= off < 56 ==> size == 4)),
        t is PtrToTcpSock ==> (regions::region_readable(t, off, size) <==> 0 <= off && off + size
            <= 112 && off as int % size as int == 0 && (size == 8 ==> 80 <= off < 96)),
        t is PtrToSockCommon ==> (regions::region_readable(t, off, size) <==> 4 <= off && off
            + size <= 8 && off as int % size as int == 0),
        !(t is PtrToSocket || t is PtrToTcpSock || t is PtrToSockCommon)
            ==> !regions::region_readable(t, off, size),
{
    let p = regions::covers(off, size);
    lemma_socket_tables();
    law_first_where(regions::sock_table(), p);
    law_first_where(regions::tcp_sock_table(), p);
    law_first_where(regions::sock_common_table(), p);
    if 0 <= off < 80 {
        let k = off as int / 4;
        let f = regions::sock_table()[k];
        assert(f.offset == 4 * k);
    }
    if 0 <= off < 80 {
        let k = off as int / 4;
        let f = regions::tcp_sock_table()[k];
        assert(f.offset == 4 * k);
    }
    if 80 <= off < 96 {
        let k = 20 + (off - 80) / 8;
        let f = regions::tcp_sock_table()[k];
        assert(f.offset == 80 + 8 * ((off - 80) / 8));
    }
    if 96 <= off < 112 {
        let k = 22 + (off - 96) / 4;
        let f = regions::tcp_sock_table()[k];
        assert(f.offset == 96 + 4 * ((off - 96) / 4));
    }
    let f = regions::sock_common_table()[0];
}

proof fn lemma_socket_tables()
    ensures
        regions::sock_table().len() == 20,
        forall|k: int|
            0 <= k < 20 ==> (#[trigger] regions::sock_table()[k]).offset == 4 * k
                && regions::sock_table()[k].size.bytes() == 4
                && regions::sock_table()[k].narrow_access == !(k == 12 || k == 13),
        regions::tcp_sock_table().len() == 26,
        forall|k: int|
            0 <= k < 26 ==> (#[trigger] regions::tcp_sock_table()[k]).narrow_access
                && regions::tcp_sock_table()[k].offset == (if k < 20 {
                4 * k
            } else if k < 22 {
                80 + 8 * (k - 20)
            } else {
                96 + 4 * (k - 22)
            }) && regions::tcp_sock_table()[k].size.bytes() == if 20 <= k < 22 {
                8int
            } else {
                4
            },
{
}

/// An argument is what the program's declaration says: a number, a number in a
/// range, or an object that may be missing if it is declared so or if the trace
/// point is known to pass none. It is read as a whole.
pub proof fn law_arguments_are_as_declared(ctx: ExecContext, i: int)
    requires
        ctx.prog_kind is Lsm || ctx.prog_kind is StructOps || ctx.prog_kind is RawTracepoint
            || ctx.prog_kind is Tracepoint || ctx.prog_kind is RawTracepointWritable,
        0 <= i < 256,
        ctx.entry_args matches Some(args) && i < args@.len(),
    ensures
        ctx_readable(ctx, (8 * i) as i16, 8),
        !ctx_writable(ctx, (8 * i) as i16, 8),
        match (ctx.entry_args->Some_0@[i], ctx_access(ctx, (8 * i) as i16, 8)->Some_0.kind) {
            (EntryArg::Scalar, CtxFieldKind::Scalar) => true,
            (EntryArg::BoundedScalar { lo: a, hi: b }, CtxFieldKind::BoundedScalar { lo, hi }) => lo
                == a && hi == b,
            (
                EntryArg::TrustedPtrBtfId { struct_name: n, nullable: m },
                CtxFieldKind::TrustedPtr { struct_name, nullable, .. },
            ) => struct_name == n && (m ==> nullable) && (nullable && !m
                ==> ctx.attach_subtype is Some && ctx.attach_flavor is Some),
            _ => false,
        },
{
    reveal(ctx_access);
    let idx = (8 * i) / 8;
    assert(idx == i);
}

/// The trace points that may pass nothing, and in which argument.
pub proof fn law_missing_arguments_are_known(target: Seq<char>, idx: u8)
    ensures
        maybe_null(target, idx) ==> idx <= 1,
        maybe_null("sched_pi_setprio"@, 1),
        maybe_null("bpf_testmod_test_raw_tp_null"@, 0),
        maybe_null("bpf_testmod_test_nullable_bare"@, 0),
        target != "sched_pi_setprio"@ && target != "bpf_testmod_test_raw_tp_null"@ && target
            != "bpf_testmod_test_nullable_bare"@ ==> !maybe_null(target, idx),
        idx == 0 ==> (maybe_null(target, idx) <==> target == "bpf_testmod_test_raw_tp_null"@
            || target == "bpf_testmod_test_nullable_bare"@),
        idx == 1 ==> (maybe_null(target, idx) <==> target == "sched_pi_setprio"@),
{
}

/// The fields whose pointers can be trusted, by struct: all of those that an
/// iterator is given, and these few of others.
pub proof fn law_trusted_fields_are_few(s: Seq<char>, f: Seq<char>)
    ensures
        trusted_field(s, f) && !"bpf_iter__"@.is_prefix_of(s) ==> {
            ||| s == "task_struct"@ && (f == "cpus_ptr"@ || f == "group_leader"@ || f == "bpf_storage"@ || f == "cgroups"@)
            ||| s == "sk_buff"@ && (f == "sk"@)
            ||| s == "linux_binprm"@ && (f == "file"@)
            ||| s == "file"@ && (f == "f_inode"@)
            ||| s == "dentry"@ && (f == "d_inode"@)
            ||| s == "socket"@ && (f == "sk"@)
            ||| s == "sock"@ && (f == "sk_bpf_storage"@ || f == "cgroup"@)
            ||| s == "bpf_local_storage"@ && (f == "smap"@)
            ||| s == "bpf_iter__sockmap"@ && (f == "sk"@)
            ||| s == "sk_reuseport_md"@ && (f == "sk"@)
            ||| s == "bpf_iter__bpf_map"@ && (f == "map"@)
            ||| s == "cgroup"@ && (f == "kn"@)
            ||| s == "css_set"@ && (f == "dfl_cgrp"@)
            ||| s == "vm_area_struct"@ && (f == "vm_file"@ || f == "vm_mm"@)
            ||| s == "request_sock"@ && (f == "sk"@)
        },
        trusted_field("task_struct"@, "cpus_ptr"@),
        trusted_field("task_struct"@, "group_leader"@),
        trusted_field("task_struct"@, "bpf_storage"@),
        trusted_field("task_struct"@, "cgroups"@),
        trusted_field("sk_buff"@, "sk"@),
        trusted_field("linux_binprm"@, "file"@),
        trusted_field("file"@, "f_inode"@),
        trusted_field("dentry"@, "d_inode"@),
        trusted_field("socket"@, "sk"@),
        trusted_field("sock"@, "sk_bpf_storage"@),
        trusted_field("sock"@, "cgroup"@),
        trusted_field("bpf_local_storage"@, "smap"@),
        trusted_field("bpf_iter__sockmap"@, "sk"@),
        trusted_field("sk_reuseport_md"@, "sk"@),
        trusted_field("bpf_iter__bpf_map"@, "map"@),
        trusted_field("cgroup"@, "kn"@),
        trusted_field("css_set"@, "dfl_cgrp"@),
        trusted_field("vm_area_struct"@, "vm_file"@),
        trusted_field("vm_area_struct"@, "vm_mm"@),
        trusted_field("request_sock"@, "sk"@),
        "bpf_iter__"@.is_prefix_of(s) ==> trusted_field(s, f),
{
}

} // verus!
