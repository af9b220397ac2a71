//! What the types of registers say of references and trust.
use crate::machine::reg_types::{clobbered, like, PtrFlags, RegType};
use crate::machine::state::Machine;
use vstd::prelude::*;

verus! {

/// Every type that can hold a reference gives it back, and no other has one.
pub proof fn law_references_are_given_back(t: RegType, r: Option<u32>)
    ensures
        (RegType::PtrToSocket { ref_id: r }).get_ref_id() == r,
        (RegType::PtrToSocketOrNull { ref_id: r }).get_ref_id() == r,
        (RegType::PtrToSockCommon { ref_id: r }).get_ref_id() == r,
        (RegType::PtrToSockCommonOrNull { ref_id: r }).get_ref_id() == r,
        (RegType::PtrToTcpSock { id: r }).get_ref_id() == r,
        (RegType::PtrToTcpSockOrNull { id: r }).get_ref_id() == r,
        (RegType::PtrToTask { ref_id: r }).get_ref_id() == r,
        (RegType::PtrToCgroup { ref_id: r }).get_ref_id() == r,
        (RegType::PtrToCpumask { ref_id: r }).get_ref_id() == r,
        (t matches RegType::PtrToBtfId { ref_id, .. } && ref_id == r) ==> t.get_ref_id() == r,
        (t matches RegType::PtrToBtfIdOrNull { ref_id, .. } && ref_id == r) ==> t.get_ref_id() == r,
        (t matches RegType::PtrToAllocMem { ref_id, .. } && ref_id == r) ==> t.get_ref_id() == r,
        (t matches RegType::PtrToAllocMemOrNull { ref_id, .. } && ref_id == r) ==> t.get_ref_id()
            == r,
        (t matches RegType::PtrToOwnedKptr { ref_id, .. } && ref_id == r) ==> t.get_ref_id() == r,
        (t matches RegType::PtrToOwnedKptrOrNull { ref_id, .. } && ref_id == r) ==> t.get_ref_id()
            == r,
        (t matches RegType::PtrToMapKptr { ref_id, .. } && ref_id == r) ==> t.get_ref_id() == r,
        (t matches RegType::PtrToMapKptrOrNull { ref_id, .. } && ref_id == r) ==> t.get_ref_id()
            == r,
        (t matches RegType::PtrToArena { ref_id, .. } && ref_id == r) ==> t.get_ref_id() == r,
        t is NotInit || t is ScalarValue || t is PtrToCtx || t is PtrToStack || t is PtrToMapValue
            || t is PtrToMapValueOrNull || t is PtrToMapObject || t is PtrToPacket
            || t is PtrToPacketMeta || t is PtrToPacketEnd || t is PtrToCallback ==> t.get_ref_id()
            is None,
{
}

/// A union has the properties of either part, and trust is a property of
/// objects of the kernel only.
pub proof fn law_properties_add_up(a: PtrFlags, b: PtrFlags, t: RegType)
    ensures
        a.union(b) == b.union(a),
        a.union(PtrFlags::empty()) == a,
        a.union(b).trusted == (a.trusted || b.trusted),
        a.union(b).untrusted == (a.untrusted || b.untrusted),
        a.union(b).rcu == (a.rcu || b.rcu),
        a.union(b).percpu == (a.percpu || b.percpu),
        a.union(b).user == (a.user || b.user),
        a.union(b).mem_alloc == (a.mem_alloc || b.mem_alloc),
        a.union(b).rdonly == (a.rdonly || b.rdonly),
        PtrFlags::with_trusted().trusted && !PtrFlags::with_trusted().untrusted,
        t.is_trusted() ==> t is PtrToBtfId || t is PtrToBtfIdOrNull || t is PtrToMapKptr
            || t is PtrToMapKptrOrNull,
        t matches RegType::PtrToBtfId { flags, .. } ==> t.is_trusted() == flags.trusted,
        t matches RegType::PtrToMapKptr { flags, .. } ==> t.is_trusted() == flags.trusted,
        t.is_pointer() <==> !(t is NotInit || t is ScalarValue),
        t.is_packet_ptr() <==> t is PtrToPacket || t is PtrToPacketMeta || t is PtrToPacketEnd,
{
}

/// Only the five registers that carry arguments are taken.
pub proof fn law_five_registers_carry_arguments(t: Seq<RegType>, ty: RegType, i: int)
    requires
        t.len() == 15,
        0 <= i < 15,
    ensures
        clobbered(t, ty).len() == 15,
        clobbered(t, ty)[i] == if 2 <= i <= 6 { ty } else { t[i] },
{
}

/// Types are alike only if they are of the same kind and say the same; names
/// count by their letters.
pub proof fn law_like_types_say_the_same(a: RegType, b: RegType, c: RegType)
    ensures
        like(a, a),
        like(a, b) ==> like(b, a),
        like(a, b) && like(b, c) ==> like(a, c),
        like(a, b) ==> a.get_ref_id() == b.get_ref_id() && a.ptr_flags() == b.ptr_flags()
            && a.is_pointer() == b.is_pointer(),
        like(a, b) && !(a is PtrToBtfId) && !(a is PtrToBtfIdOrNull) ==> a == b,
{
}

/// The type points into memory that a dynamic pointer of the list lent.
pub open spec fn lent_by(t: RegType, ids: Seq<u32>) -> bool {
    match t {
        RegType::PtrToAllocMem { dynptr_id: Some(d), .. } => ids.contains(d),
        RegType::PtrToAllocMemOrNull { dynptr_id: Some(d), .. } => ids.contains(d),
        _ => false,
    }
}

/// When dynamic pointers go, what they lent goes with them, and nothing else.
pub proof fn law_lent_memory_goes_with_its_lender(s: Machine, ids: Seq<u32>, i: int)
    requires
        0 <= i < s.types.len(),
    ensures
        s.drop_slices(ids).types.len() == s.types.len(),
        lent_by(s.types[i], ids) ==> s.drop_slices(ids).types[i] is NotInit,
        !lent_by(s.types[i], ids) ==> s.drop_slices(ids).types[i] == s.types[i],
    decreases ids.len(),
{
    if ids.len() > 0 {
        let rest = ids.drop_last();
        law_lent_memory_goes_with_its_lender(s, rest, i);
        assert(ids[ids.len() - 1] == ids.last());
        assert forall|d: u32| ids.contains(d) <==> #[trigger] rest.contains(d) || d == ids.last() by {
            if ids.contains(d) && d != ids.last() {
                let k = choose|k: int| 0 <= k < ids.len() && ids[k] == d;
                assert(rest[k] == d);
            }
            if rest.contains(d) {
                let k = choose|k: int| 0 <= k < rest.len() && rest[k] == d;
                assert(ids[k] == d);
            }
        }
    }
}

} // verus!
