//! What holds of states as a whole: references that were released, packets that
//! moved.
use crate::machine::state::{all_packet_ids, by_rule, ids_without, FrameView, Machine, TypeRule};
use vstd::prelude::*;

verus! {

proof fn lemma_without(s: Seq<u32>, id: u32)
    ensures
        !ids_without(s, id).contains(id),
        !s.contains(id) ==> ids_without(s, id) == s,
        forall|x: u32| x != id ==> (#[trigger] ids_without(s, id).contains(x) <==> s.contains(x)),
    decreases s.len(),
{
    if s.len() > 0 {
        let rest = ids_without(s.drop_last(), id);
        lemma_without(s.drop_last(), id);
        assert(s =~= s.drop_last().push(s.last()));
        assert(forall|x: u32|
            s.contains(x) <==> #[trigger] s.drop_last().contains(x) || x == s.last()) by {
            assert forall|x: u32| s.contains(x) implies #[trigger] s.drop_last().contains(x) || x
                == s.last() by {
                let k = choose|k: int| 0 <= k < s.len() && s[k] == x;
                if k < s.len() - 1 {
                    assert(s.drop_last()[k] == x);
                }
            }
            assert forall|x: u32| #[trigger] s.drop_last().contains(x) || x == s.last() implies s.contains(
                x,
            ) by {
                if s.drop_last().contains(x) {
                    let k = choose|k: int| 0 <= k < s.len() - 1 && s.drop_last()[k] == x;
                    assert(s[k] == x);
                } else {
                    assert(s[s.len() - 1] == x);
                }
            }
        }
        if s.last() != id {
            assert(forall|x: u32|
                #[trigger] rest.push(s.last()).contains(x) <==> rest.contains(x) || x == s.last()) by {
                assert forall|x: u32| #[trigger] rest.push(s.last()).contains(x) implies rest.contains(
                    x,
                ) || x == s.last() by {
                    let k = choose|k: int|
                        0 <= k < rest.push(s.last()).len() && rest.push(s.last())[k] == x;
                    if k < rest.len() {
                        assert(rest[k] == x);
                    }
                }
                assert forall|x: u32| rest.contains(x) || x == s.last() implies #[trigger] rest.push(
                    s.last(),
                ).contains(x) by {
                    if rest.contains(x) {
                        let k = choose|k: int| 0 <= k < rest.len() && rest[k] == x;
                        assert(rest.push(s.last())[k] == x);
                    } else {
                        assert(rest.push(s.last())[rest.len() as int] == x);
                    }
                }
            }
        }
    }
}

/// To release a reference that was just acquired leaves what was held before.
pub proof fn law_release_undoes_acquire(s: Machine, id: u32)
    requires
        !s.refs.contains(id),
    ensures
        ids_without(s.refs.push(id), id) == s.refs,
{
    lemma_without(s.refs, id);
    assert(s.refs.push(id).drop_last() =~= s.refs);
}

/// A state in which nothing refers to a released reference: it is not held, and
/// neither a register nor a slot of a stack leads to it.
pub open spec fn unreferenced(s: Machine, id: u32) -> bool {
    &&& !s.refs.contains(id)
    &&& forall|i: int| 0 <= i < s.types.len() ==> (#[trigger] s.types[i]).get_ref_id() != Some(id)
    &&& forall|i: int, off: i16|
        0 <= i < s.frames.len() && (#[trigger] s.frames[i].stack.slots.dom().contains(off))
            ==> s.frames[i].stack.slots[off].ty.get_ref_id() != Some(id)
}

/// What was released cannot be reached any more, and all else that was held is
/// still held.
pub proof fn law_released_references_are_gone(s: Machine, id: u32)
    ensures
        ({
            let t = Machine { refs: ids_without(s.refs, id), ..s }.apply_rule(TypeRule::Ref { id });
            &&& unreferenced(t, id)
            &&& forall|x: u32| x != id ==> (#[trigger] t.refs.contains(x) <==> s.refs.contains(x))
        }),
{
    lemma_without(s.refs, id);
}

/// No register points into the packet or to its end, and no slot of the current
/// stack holds such a pointer.
pub open spec fn points_nowhere_in_the_packet(s: Machine) -> bool {
    &&& forall|i: int|
        0 <= i < s.types.len() ==> !((#[trigger] s.types[i]) is PtrToPacket || s.types[i] is PtrToPacketEnd)
    &&& s.frames.len() > 0 && forall|off: i16| #[trigger]
        s.current().stack.slots.dom().contains(off)
            ==> !s.current().stack.slots[off].ty.is_packet_ptr()
}

proof fn lemma_slices_bring_no_packet_pointers(s: Machine, ids: Seq<u32>)
    requires
        points_nowhere_in_the_packet(s),
    ensures
        points_nowhere_in_the_packet(s.drop_slices(ids)),
        s.drop_slices(ids).frames.len() == s.frames.len(),
    decreases ids.len(),
{
    if ids.len() > 0 {
        lemma_slices_bring_no_packet_pointers(s, ids.drop_last());
    }
}

/// After the packet moved, nothing that can be used points into it.
pub proof fn law_moved_packets_have_no_pointers(s: Machine)
    requires
        0 < s.frames.len() <= usize::MAX,
    ensures
        points_nowhere_in_the_packet(s.packet_moved()),
{
    let a = Machine { types: s.types.map_values(by_rule(TypeRule::PacketData)), ..s };
    let b = a.with_stack(a.level(), a.current().stack.without_packet_pointers());
    let c = Machine {
        frames: Seq::new(
            b.frames.len(),
            |i: int|
                FrameView {
                    caller_types: b.frames[i].caller_types.map_values(by_rule(TypeRule::Packet)),
                    ..b.frames[i]
                },
        ),
        ..b
    };
    assert(points_nowhere_in_the_packet(c));
    lemma_slices_bring_no_packet_pointers(c, all_packet_ids(c.frames));
}

} // verus!
