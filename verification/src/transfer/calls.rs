//! What registers hold after a call of a helper.
use crate::machine::env::{EnvConfig, EnvView};
use crate::machine::laws::{
    law_moved_packets_have_no_pointers, law_released_references_are_gone,
    points_nowhere_in_the_packet, unreferenced,
};
use crate::machine::reg::Reg;
use crate::machine::reg_types::{FrameLevel, RegType};
use crate::machine::stack_state::DynptrSlot;
use crate::machine::state::{all_packet_ids, by_rule, ids_without, FrameView, Machine, TypeRule};
use crate::transfer::types::call_typed;
use vstd::prelude::*;

verus! {

/// The type of the result of a helper whose prototype does not give it.
pub open spec fn result(
    cfg: EnvConfig,
    v: EnvView,
    in_types: Seq<RegType>,
    s: Machine,
    helper: u32,
    fastcall: bool,
) -> RegType {
    call_typed(cfg, v, in_types, s, helper, None, fastcall).1.types[1]
}

/// R2 points to a slot of a stack that holds one known number, `n` bytes wide
/// and less than `bound`.
pub open spec fn key_is_known(s: Machine, n: int, bound: int) -> bool {
    match (s.types[3], s.domain.fixed_distance(Reg::R2, Reg::R10)) {
        (RegType::PtrToStack { frame_level }, Some(off)) => {
            let slots = s.frames[frame_level.index as int].stack.slots;
            &&& slots.dom().contains(off as i16)
            &&& slots[off as i16].size.bytes() == n
            &&& slots[off as i16].tnum.mask == 0
            &&& slots[off as i16].tnum.value < bound
        },
        _ => false,
    }
}

/// An element is known to be found only in an array, by a known key below the
/// number of its entries. Then, and only then, the result needs no check for
/// null; it points to the start of the element.
pub proof fn law_sure_lookups_have_known_keys(
    cfg: EnvConfig,
    v: EnvView,
    in_types: Seq<RegType>,
    s: Machine,
    fastcall: bool,
    idx: usize,
)
    requires
        s.types.len() == 15,
        in_types[2] == (RegType::PtrToMapObject { map_idx: idx }),
        idx < cfg.ctx.map_defs@.len(),
    ensures
        ({
            let d = cfg.ctx.map_defs@[idx as int];
            let t = result(cfg, v, in_types, s, 1, fastcall);
            &&& t is PtrToMapValue <==> (d.type_ == 2 || d.type_ == 6) && key_is_known(
                s,
                d.key_size as int,
                d.max_entries as int,
            )
            &&& t matches RegType::PtrToMapValue { map_idx, offset, .. } ==> map_idx == idx
                && offset == Some(0i64)
            &&& d.type_ != 15 && d.type_ != 18 && !(t is PtrToMapValue) ==> (
            t matches RegType::PtrToMapValueOrNull { map_idx, .. } && map_idx == idx)
        }),
{
    assert(Reg::R1.idx() == 2 && Reg::R2.idx() == 3 && Reg::R0.idx() == 1);
}

/// Whatever R1 holds, a lookup whose result needs no check for null found an
/// element of an array, by a known key below the number of its entries.
pub proof fn law_found_elements_exist(
    cfg: EnvConfig,
    v: EnvView,
    in_types: Seq<RegType>,
    s: Machine,
    fastcall: bool,
    idx: usize,
)
    requires
        s.types.len() == 15,
        result(cfg, v, in_types, s, 1, fastcall) matches RegType::PtrToMapValue { map_idx, .. }
            && map_idx == idx,
    ensures
        idx < cfg.ctx.map_defs@.len(),
        cfg.ctx.map_defs@[idx as int].type_ == 2 || cfg.ctx.map_defs@[idx as int].type_ == 6,
        key_is_known(
            s,
            cfg.ctx.map_defs@[idx as int].key_size as int,
            cfg.ctx.map_defs@[idx as int].max_entries as int,
        ),
{
    assert(Reg::R1.idx() == 2 && Reg::R2.idx() == 3 && Reg::R0.idx() == 1);
}

/// The map that an element of a map of maps leads to is looked up in its own
/// definition; other pointers lead to the map they came from.
pub proof fn law_inner_maps_are_looked_up(
    cfg: EnvConfig,
    v: EnvView,
    in_types: Seq<RegType>,
    s: Machine,
    fastcall: bool,
    outer: usize,
    inner: usize,
)
    requires
        s.types.len() == 15,
        in_types[2] matches RegType::PtrToMapValue { map_idx, .. } && map_idx == outer,
        outer < cfg.ctx.map_defs@.len(),
        cfg.ctx.map_defs@[outer as int].type_ == 12 || cfg.ctx.map_defs@[outer as int].type_ == 13,
        cfg.ctx.map_defs@[outer as int].inner_map_idx == Some(inner),
        inner < cfg.ctx.map_defs@.len(),
        cfg.ctx.map_defs@[inner as int].type_ == 1,
    ensures
        result(cfg, v, in_types, s, 1, fastcall) matches RegType::PtrToMapValueOrNull {
            map_idx,
            ..
        } && map_idx == inner,
{
    assert(Reg::R1.idx() == 2 && Reg::R2.idx() == 3 && Reg::R0.idx() == 1);
}

/// Lookups on one processor may fail; local storage is always there. Results
/// get identities of their own.
pub proof fn law_other_lookups(
    cfg: EnvConfig,
    v: EnvView,
    in_types: Seq<RegType>,
    s: Machine,
    fastcall: bool,
    idx: usize,
)
    requires
        s.types.len() == 15,
        in_types[2] == (RegType::PtrToMapObject { map_idx: idx }),
        idx < cfg.ctx.map_defs@.len(),
        cfg.ctx.map_defs@[idx as int].type_ != 15,
        cfg.ctx.map_defs@[idx as int].type_ != 18,
    ensures
        result(cfg, v, in_types, s, 195, fastcall) matches RegType::PtrToMapValueOrNull {
            map_idx,
            id,
            ..
        } && map_idx == idx && id == v.ids.next,
        result(cfg, v, in_types, s, 81, fastcall) matches RegType::PtrToMapValue {
            map_idx,
            offset,
            id,
            ..
        } && map_idx == idx && offset == Some(0i64) && id == v.ids.next,
        call_typed(cfg, v, in_types, s, 195, None, fastcall).0.ids == v.ids.after(),
        call_typed(cfg, v, in_types, s, 81, None, fastcall).0.ids == v.ids.after(),
{
    assert(Reg::R1.idx() == 2 && Reg::R2.idx() == 3 && Reg::R0.idx() == 1);
}

/// A socket that is looked up may be missing, and is held from then on under an
/// identity of its own. So is one taken out of a map of sockets.
pub proof fn law_looked_up_sockets_are_held(
    cfg: EnvConfig,
    v: EnvView,
    in_types: Seq<RegType>,
    s: Machine,
    fastcall: bool,
    helper: u32,
)
    requires
        s.types.len() == 15,
        helper == 84 || helper == 85 || helper == 99 || (helper == 1 && (
        in_types[2] matches RegType::PtrToMapObject { map_idx } && map_idx
            < cfg.ctx.map_defs@.len() && (cfg.ctx.map_defs@[map_idx as int].type_ == 15
            || cfg.ctx.map_defs@[map_idx as int].type_ == 18))),
    ensures
        helper == 99 ==> result(cfg, v, in_types, s, helper, fastcall) == (
        RegType::PtrToSockCommonOrNull { ref_id: Some(v.ids.next) }),
        helper != 99 ==> result(cfg, v, in_types, s, helper, fastcall) == (
        RegType::PtrToSocketOrNull { ref_id: Some(v.ids.next) }),
        call_typed(cfg, v, in_types, s, helper, None, fastcall).1.refs == s.refs.push(v.ids.next),
        call_typed(cfg, v, in_types, s, helper, None, fastcall).0.ids == v.ids.after(),
{
    assert(Reg::R1.idx() == 2 && Reg::R2.idx() == 3 && Reg::R0.idx() == 1);
}

/// Sockets that are derived from another one may be missing and hold no more
/// than that one does; memory reserved in a ring buffer may be missing and has
/// at most the size that was asked for; elements of storages may be missing.
pub proof fn law_other_results(
    cfg: EnvConfig,
    v: EnvView,
    in_types: Seq<RegType>,
    s: Machine,
    fastcall: bool,
)
    requires
        s.types.len() == 15,
    ensures
        result(cfg, v, in_types, s, 98, fastcall) == (RegType::PtrToSocketOrNull { ref_id: None }),
        result(cfg, v, in_types, s, 95, fastcall) == (RegType::PtrToSocketOrNull {
            ref_id: s.types[2].get_ref_id(),
        }),
        result(cfg, v, in_types, s, 96, fastcall) == (RegType::PtrToTcpSockOrNull {
            id: s.types[2].get_ref_id(),
        }),
        result(cfg, v, in_types, s, 131, fastcall) matches RegType::PtrToAllocMemOrNull {
            mem_size,
            id,
            ..
        } && id == v.ids.next && mem_size == s.domain.range(Reg::R2).1 as u64,
        forall|h: u32|
            h == 107 || h == 145 || h == 156 || h == 210 ==> (#[trigger] result(
                cfg,
                v,
                in_types,
                s,
                h,
                fastcall,
            )) is PtrToMapValueOrNull,
        in_types[2] matches RegType::PtrToMapObject { map_idx: m } ==> (forall|h: u32|
            h == 107 || h == 145 || h == 156 || h == 210 ==> ((#[trigger] result(
                cfg,
                v,
                in_types,
                s,
                h,
                fastcall,
            )) matches RegType::PtrToMapValueOrNull { map_idx, .. } && map_idx == m)),
{
    assert(Reg::R1.idx() == 2 && Reg::R2.idx() == 3 && Reg::R0.idx() == 1);
}

/// The helpers that return something other than a number.
pub open spec fn returns_a_pointer(h: u32) -> bool {
    ||| h == 1 || h == 81 || h == 195
    ||| h == 84 || h == 85 || h == 99
    ||| h == 95 || h == 96 || h == 98
    ||| h == 162 || h == 175 || h == 131
    ||| h == 107 || h == 145 || h == 156 || h == 210
    ||| h == 136 || h == 137 || h == 138 || h == 139 || h == 140 || h == 178 || h == 196
    ||| h == 153 || h == 154
}

/// All other helpers return a number.
pub proof fn law_most_helpers_return_numbers(
    cfg: EnvConfig,
    v: EnvView,
    in_types: Seq<RegType>,
    s: Machine,
    fastcall: bool,
    helper: u32,
)
    requires
        s.types.len() == 15,
        !returns_a_pointer(helper),
        0 < s.frames.len() <= 8,
    ensures
        result(cfg, v, in_types, s, helper, fastcall) is ScalarValue,
        call_typed(cfg, v, in_types, s, helper, None, fastcall).0 == v,
{
    assert(Reg::R1.idx() == 2 && Reg::R2.idx() == 3 && Reg::R0.idx() == 1);
    lemma_registers_after_a_call(cfg, v, in_types, s, fastcall, helper, 1);
}

/// The types of a register that stay, whatever a helper does.
pub open spec fn stays(t: RegType) -> bool {
    t is ScalarValue || t is NotInit || t is PtrToCtx || t is PtrToStack || t is PtrToMapValue
        || t is PtrToMapObject || t is PtrToMapValueOrNull
}

proof fn lemma_slices_leave(s: Machine, ids: Seq<u32>, i: int)
    requires
        0 <= i < s.types.len(),
        stays(s.types[i]),
    ensures
        s.drop_slices(ids).types.len() == s.types.len(),
        s.drop_slices(ids).types[i] == s.types[i],
        s.drop_slices(ids).domain == s.domain,
        s.drop_slices(ids).refs == s.refs,
    decreases ids.len(),
{
    if ids.len() > 0 {
        lemma_slices_leave(s, ids.drop_last(), i);
    }
}

proof fn lemma_moves_leave(s: Machine, i: int)
    requires
        0 <= i < s.types.len(),
        stays(s.types[i]),
    ensures
        s.packet_moved().types.len() == s.types.len(),
        s.packet_moved().types[i] == s.types[i],
        s.packet_moved().domain == s.domain,
        s.packet_moved().refs == s.refs,
{
    let b = Machine { types: s.types.map_values(by_rule(TypeRule::PacketData)), ..s };
    let c = b.with_stack(b.level(), b.current().stack.without_packet_pointers());
    let d = Machine {
        frames: Seq::new(
            c.frames.len(),
            |k: int|
                FrameView {
                    caller_types: c.frames[k].caller_types.map_values(by_rule(TypeRule::Packet)),
                    ..c.frames[k]
                },
        ),
        ..c
    };
    assert(d.types[i] == s.types[i]);
    lemma_slices_leave(d, all_packet_ids(d.frames), i);
}

proof fn lemma_registers_after_a_call(
    cfg: EnvConfig,
    v: EnvView,
    in_types: Seq<RegType>,
    s: Machine,
    fastcall: bool,
    helper: u32,
    i: int,
)
    requires
        s.types.len() == 15,
        0 < s.frames.len() <= 8,
        i == 1 && !returns_a_pointer(helper) || 7 <= i <= 11 && stays(s.types[i]),
    ensures
        i == 1 ==> call_typed(cfg, v, in_types, s, helper, None, fastcall).1.types[1]
            is ScalarValue,
        i != 1 ==> call_typed(cfg, v, in_types, s, helper, None, fastcall).1.types[i]
            == s.types[i],
{
    assert forall|m: Machine| stays(m.types[i]) && m.types.len() == 15 implies (
    #[trigger] m.packet_moved()).types[i] == m.types[i] && m.packet_moved().types.len() == 15 by {
        lemma_moves_leave(m, i);
    }
}

/// Numbers, stack pointers, map pointers and the context survive a call in R6
/// to R10, whichever helper is called; the arguments do not, unless the call is
/// a fast one.
pub proof fn law_saved_registers_survive_calls(
    cfg: EnvConfig,
    v: EnvView,
    in_types: Seq<RegType>,
    s: Machine,
    fastcall: bool,
    helper: u32,
    i: int,
)
    requires
        s.types.len() == 15,
        0 < s.frames.len() <= 8,
        7 <= i <= 11,
        stays(s.types[i]),
    ensures
        call_typed(cfg, v, in_types, s, helper, None, fastcall).1.types[i] == s.types[i],
{
    lemma_registers_after_a_call(cfg, v, in_types, s, fastcall, helper, i);
}

/// The helpers that may move the packet.
pub open spec fn moves_the_packet(h: u32) -> bool {
    ||| h == 9 || h == 18 || h == 19
    ||| h == 31 || h == 38 || h == 39 || h == 43
    ||| h == 44 || h == 50 || h == 54 || h == 65
}

/// After a helper that may move the packet, no register and no slot of the
/// stack points into it. Other helpers leave pointers into the packet alone.
pub proof fn law_moved_packets_are_read_again(
    cfg: EnvConfig,
    v: EnvView,
    in_types: Seq<RegType>,
    s: Machine,
    fastcall: bool,
    helper: u32,
    routed: Option<RegType>,
)
    requires
        s.types.len() == 15,
        0 < s.frames.len() <= 8,
    ensures
        moves_the_packet(helper) ==> points_nowhere_in_the_packet(
            call_typed(cfg, v, in_types, s, helper, routed, fastcall).1,
        ),
        !moves_the_packet(helper) ==> forall|i: int|
            7 <= i <= 10 && (#[trigger] s.types[i]).is_packet_ptr() ==> call_typed(
                cfg,
                v,
                in_types,
                s,
                helper,
                routed,
                fastcall,
            ).1.types[i] == s.types[i],
{
    if moves_the_packet(helper) {
        assert forall|m: Machine| 0 < m.frames.len() <= 8 implies points_nowhere_in_the_packet(
            #[trigger] m.packet_moved(),
        ) by {
            law_moved_packets_have_no_pointers(m);
        }
    }
}

/// A socket that is released is held no more, nothing leads to it, and all else
/// that was held still is.
pub proof fn law_released_sockets_are_gone(
    cfg: EnvConfig,
    v: EnvView,
    in_types: Seq<RegType>,
    s: Machine,
    fastcall: bool,
    id: u32,
    other: u32,
)
    requires
        s.types.len() == 15,
        s.types[2].get_ref_id() == Some(id),
        other != id,
    ensures
        unreferenced(call_typed(cfg, v, in_types, s, 86, None, fastcall).1, id),
        s.refs.contains(other) <==> call_typed(cfg, v, in_types, s, 86, None, fastcall).1.refs.contains(
            other,
        ),
{
    assert(Reg::R1.idx() == 2 && Reg::R2.idx() == 3 && Reg::R0.idx() == 1);
    let t = s.set_type(Reg::R0, RegType::ScalarValue);
    law_released_references_are_gone(t, id);
    let u = Machine { refs: ids_without(t.refs, id), ..t }.apply_rule(TypeRule::Ref { id });
    assert(u.refs.contains(other) <==> t.refs.contains(other));
}

/// A prototype's result type is the result's type, and calls leave no argument
/// behind.
pub proof fn law_prototypes_give_the_result(
    cfg: EnvConfig,
    v: EnvView,
    in_types: Seq<RegType>,
    s: Machine,
    fastcall: bool,
    helper: u32,
    t: RegType,
    i: int,
)
    requires
        s.types.len() == 15,
        !moves_the_packet(helper),
        helper != 202,
        2 <= i <= 6,
    ensures
        call_typed(cfg, v, in_types, s, helper, Some(t), fastcall).1.types[1] == t,
        call_typed(cfg, v, in_types, s, helper, Some(t), fastcall).0 == v,
        call_typed(cfg, v, in_types, s, helper, Some(t), fastcall).1.types[i] == if fastcall {
            s.types[i]
        } else {
            RegType::NotInit
        },
{
}

/// A write through a dynamic pointer to a buffer of the network stack takes back
/// what the pointer lent; other helpers leave it.
pub proof fn law_written_buffers_take_back_what_they_lent(
    cfg: EnvConfig,
    v: EnvView,
    in_types: Seq<RegType>,
    s: Machine,
    level: FrameLevel,
    at: i64,
    w: DynptrSlot,
    i: int,
    t: RegType,
)
    requires
        s.types.len() == 15,
        0 < s.frames.len() <= 8,
        level.index < s.frames.len(),
        in_types[2] == (RegType::PtrToStack { frame_level: level }),
        s.domain.fixed_distance(Reg::R1, Reg::R10) == Some(at),
        -0x1000 <= at <= 0,
        s.frames[level.index as int].stack.dynptr_at(at as i16) == Some(w),
        w.kind is Skb,
        7 <= i <= 10,
        s.types[i] matches RegType::PtrToAllocMem { dynptr_id, .. } && dynptr_id == Some(
            w.dynptr_id,
        ),
    ensures
        call_typed(cfg, v, in_types, s, 202, Some(t), false).1.types[i] is NotInit,
        call_typed(cfg, v, in_types, s, 201, Some(t), false).1.types[i] == s.types[i],
{
    assert(Reg::R1.idx() == 2 && Reg::R0.idx() == 1);
}

} // verus!
