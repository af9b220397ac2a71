//! What a branch teaches about pointers.
use crate::ast::instr::Instr;
use crate::ast::{CmpOp, Operand};
use crate::domains::zone::dbm::{Dbm, Zone, INF};
use crate::domains::zone::ops::wrapped_neg;
use crate::machine::reg::{Reg, DBM_DIM};
use crate::machine::reg_types::RegType;
use crate::machine::state::{ids_without, nullable_socket, Machine, State, TypeRule};
use vstd::prelude::*;

verus! {

/// Whether a register that is compared with zero counts as not null on the path
/// where the jump is or is not taken. Everywhere else it counts as null.
pub open spec fn counts_as_non_null(op: CmpOp, branch_taken: bool) -> bool {
    match op {
        CmpOp::Ne => branch_taken,
        CmpOp::Eq => !branch_taken,
        CmpOp::SGe => branch_taken,
        CmpOp::UGe => branch_taken,
        CmpOp::SGt => branch_taken,
        CmpOp::UGt => branch_taken,
        CmpOp::SLe => !branch_taken,
        CmpOp::ULe => !branch_taken,
        CmpOp::SLt => !branch_taken,
        CmpOp::ULt => !branch_taken,
        CmpOp::Test => branch_taken,
    }
}

/// The state after a map value was found to be there: every copy of the pointer
/// is one.
pub open spec fn map_value_promoted(s: Machine, reg: Reg) -> Machine {
    match s.ty(reg) {
        RegType::PtrToMapValueOrNull { id, .. } => s.apply_rule(TypeRule::MapValueFound { id }),
        _ => s,
    }
}

fn maybe_promote_map_val(state: &mut State, reg: Reg)
    requires
        old(state).wf(),
    ensures
        final(state).wf(),
        final(state)@ == map_value_promoted(old(state)@, reg),
{
    if let RegType::PtrToMapValueOrNull { id, .. } = state.types.get(reg) {
        state.apply_rule(TypeRule::MapValueFound { id });
    }
}

/// The state after a socket was found to be there or not. If it is not, the
/// reference to it is gone.
pub open spec fn socket_refined(s: Machine, reg: Reg, is_non_null: bool) -> Machine {
    match nullable_socket(s.ty(reg)) {
        Some((kind, ref_id)) => if is_non_null {
            s.apply_rule_here(TypeRule::SocketFound { kind, ref_id })
        } else {
            let s = match ref_id {
                Some(id) => Machine { refs: ids_without(s.refs, id), ..s },
                None => s,
            };
            s.apply_rule_here(TypeRule::SocketAbsent { kind, ref_id })
        },
        None => s,
    }
}

fn maybe_refine_acquired_ref(state: &mut State, reg: Reg, is_non_null: bool)
    requires
        old(state).wf(),
    ensures
        final(state).wf(),
        final(state)@ == socket_refined(old(state)@, reg, is_non_null),
{
    if let Some((kind, ref_id)) = nullable_socket(state.types.get(reg)) {
        if is_non_null {
            state.apply_rule_here(TypeRule::SocketFound { kind, ref_id });
        } else {
            if let Some(id) = ref_id {
                state.release_ref(id);
            }
            state.apply_rule_here(TypeRule::SocketAbsent { kind, ref_id });
        }
    }
}

/// The state on one path of a branch. Only comparisons with zero change
/// what is known of pointers.
pub open spec fn branch_refined(s: Machine, i: Instr, branch_taken: bool) -> Machine {
    match i {
        Instr::If { op, left, right: Operand::Imm(k), .. } => if k == 0 {
            let non_null = counts_as_non_null(op, branch_taken);
            let s = if non_null { map_value_promoted(s, left) } else { s };
            socket_refined(s, left, non_null)
        } else {
            s
        },
        _ => s,
    }
}

/// Refines types on one path of a branch.
pub fn refine_branch(state: &mut State, instr: Instr, branch_taken: bool)
    requires
        old(state).wf(),
    ensures
        final(state).wf(),
        final(state)@ == branch_refined(old(state)@, instr, branch_taken),
{
    if let Instr::If { op, left, right: Operand::Imm(k), .. } = instr {
        if k == 0 {
            let non_null: bool = match op {
                CmpOp::Ne | CmpOp::SGe | CmpOp::UGe | CmpOp::SGt | CmpOp::UGt
                | CmpOp::Test => branch_taken,
                CmpOp::Eq | CmpOp::SLe | CmpOp::ULe | CmpOp::SLt | CmpOp::ULt => !branch_taken,
            };
            if non_null {
                maybe_promote_map_val(state, left);
            }
            maybe_refine_acquired_ref(state, left, non_null);
        }
    }
}

/// On the path where a nullable map value counts as there, the register
/// points to the value's start.
pub proof fn law_null_checks_promote(s: Machine, i: Instr, branch_taken: bool, reg: Reg)
    requires
        s.types.len() == DBM_DIM,
        i matches Instr::If { op, left, right, .. } && left == reg && right == Operand::Imm(0)
            && counts_as_non_null(op, branch_taken),
        s.ty(reg) is PtrToMapValueOrNull,
    ensures
        branch_refined(s, i, branch_taken).ty(reg) matches RegType::PtrToMapValue {
            id,
            offset,
            map_idx,
            ..
        } && id == s.ty(reg)->PtrToMapValueOrNull_id && offset == Some(0i64) && map_idx == s.ty(
            reg,
        )->PtrToMapValueOrNull_map_idx,
{
}

/// On the path where a socket counts as absent, its reference is no longer
/// held.
pub proof fn law_absent_sockets_hold_nothing(s: Machine, reg: Reg, id: u32)
    requires
        nullable_socket(s.ty(reg)) matches Some((_, r)) && r == Some(id),
    ensures
        !socket_refined(s, reg, false).refs.contains(id),
{
    lemma_ids_without(s.refs, id);
}

proof fn lemma_ids_without(s: Seq<u32>, id: u32)
    ensures
        !ids_without(s, id).contains(id),
    decreases s.len(),
{
    if s.len() > 0 {
        lemma_ids_without(s.drop_last(), id);
        let rest = ids_without(s.drop_last(), id);
        if s.last() != id {
            assert forall|k: int| 0 <= k < rest.push(s.last()).len() implies rest.push(
                s.last(),
            )[k] != id by {
                if k < rest.len() {
                    assert(rest.contains(rest[k]));
                }
            }
        }
    }
}

/// A pointer into the packet with as many bytes after it as are known to be
/// there.
#[derive(Debug, Clone, Copy, PartialEq, Eq, Structural)]
pub struct PacketPtr {
    pub id: u32,
    pub is_base: bool,
    pub range: i64,
}

/// What a register or slot is, as far as packets are concerned.
#[derive(Debug, Clone, Copy, PartialEq, Eq, Structural)]
pub enum PacketValue {
    Pointer(PacketPtr),
    End,
    Other,
}

/// The packet pointers of a state, and the distances between its registers.
#[derive(Debug)]
pub struct PacketState {
    pub regs: Vec<PacketValue>,
    /// The slots of all frames.
    pub slots: Vec<PacketValue>,
    pub dbm: Dbm,
}

#[verifier::ext_equal]
pub struct Packets {
    pub regs: Seq<PacketValue>,
    pub slots: Seq<PacketValue>,
}

/// The value with its range raised to `range` if it is a pointer of an
/// identity and its own is smaller.
pub open spec fn raised(v: PacketValue, id: u32, range: i64) -> PacketValue {
    match v {
        PacketValue::Pointer(p) => if p.id == id && range > p.range {
            PacketValue::Pointer(PacketPtr { range, ..p })
        } else {
            v
        },
        _ => v,
    }
}

fn raise(v: PacketValue, id: u32, range: i64) -> (r: PacketValue)
    ensures
        r == raised(v, id, range),
{
    match v {
        PacketValue::Pointer(p) => if p.id == id && range > p.range {
            PacketValue::Pointer(PacketPtr { id: p.id, is_base: p.is_base, range })
        } else {
            v
        },
        _ => v,
    }
}

/// The largest range of the pointers of an identity among the first `n`
/// values, if there is one.
pub open spec fn largest_range(regs: Seq<PacketValue>, id: u32, n: int) -> Option<i64>
    decreases n,
{
    if n <= 0 {
        None
    } else {
        match (regs[n - 1], largest_range(regs, id, n - 1)) {
            (PacketValue::Pointer(p), Some(m)) => if p.id == id && p.range >= m {
                Some(p.range)
            } else {
                Some(m)
            },
            (PacketValue::Pointer(p), None) => if p.id == id {
                Some(p.range)
            } else {
                None
            },
            (_, m) => m,
        }
    }
}

impl Packets {
    /// The registers after their pointers of an identity were compared with the
    /// end of the packet.
    pub open spec fn compared(self, z: Zone, id: u32, end: Reg) -> Seq<PacketValue> {
        Seq::new(
            self.regs.len(),
            |i: int|
                {
                    let d = z.m[i][end.idx() as int];
                    if d < INF && d <= 0 {
                        raised(self.regs[i], id, wrapped_neg(d))
                    } else {
                        self.regs[i]
                    }
                },
        )
    }

    /// The state after a register's pointer was compared with the packet's end:
    /// every register learns its own distance, every slot the largest of them.
    pub open spec fn refined(self, z: Zone, id: u32, end: Reg) -> Packets {
        let regs = self.compared(z, id, end);
        let most = match largest_range(regs, id, regs.len() as int) {
            Some(m) => m,
            None => 0,
        };
        Packets {
            regs,
            slots: Seq::new(self.slots.len(), |i: int| raised(self.slots[i], id, most)),
        }
    }

    /// The same, for registers given in either order.
    pub open spec fn packet_ranges_refined(self, z: Zone, a: Reg, b: Reg) -> Packets {
        match (self.regs[a.idx() as int], self.regs[b.idx() as int]) {
            (PacketValue::Pointer(p), PacketValue::End) => self.refined(z, p.id, b),
            (PacketValue::End, PacketValue::Pointer(p)) => self.refined(z, p.id, a),
            _ => self,
        }
    }
}

impl PacketState {
    pub open spec fn view(&self) -> Packets {
        Packets { regs: self.regs@, slots: self.slots@ }
    }

    pub open spec fn wf(&self) -> bool {
        &&& self.regs@.len() == DBM_DIM
        &&& self.dbm.full()
    }
}

fn refine_for_end(state: &mut PacketState, id: u32, end: Reg)
    requires
        old(state).wf(),
    ensures
        final(state).wf(),
        final(state).dbm == old(state).dbm,
        final(state)@ == old(state)@.refined(old(state).dbm@, id, end),
{
    let ghost before = *state;
    let mut most: Option<i64> = None;
    let mut i: usize = 0;
    while i < DBM_DIM
        invariant
            i <= DBM_DIM,
            before.wf(),
            state.wf(),
            state.dbm == before.dbm,
            state.slots == before.slots,
            forall|k: int|
                0 <= k < DBM_DIM ==> (#[trigger] state.regs@[k]) == if k < i {
                    before@.compared(before.dbm@, id, end)[k]
                } else {
                    before.regs@[k]
                },
            most == largest_range(before@.compared(before.dbm@, id, end), id, i as int),
        decreases DBM_DIM - i,
    {
        let d: i64 = state.dbm.get_idx(i, end.idx());
        let old_value: PacketValue = state.regs[i];
        let mut v: PacketValue = old_value;
        if d < INF && d <= 0 {
            let safe: i64 = if d == i64::MIN { d } else { -d };
            v = raise(old_value, id, safe);
        }
        state.regs[i] = v;
        assert(v == before@.compared(before.dbm@, id, end)[i as int]);
        if let PacketValue::Pointer(p) = v {
            if p.id == id {
                most = match most {
                    Some(m) => if p.range >= m {
                        Some(p.range)
                    } else {
                        Some(m)
                    },
                    None => Some(p.range),
                };
            }
        }
        i = i + 1;
    }
    assert(state.regs@ =~= before@.compared(before.dbm@, id, end));
    let most: i64 = match most {
        Some(m) => m,
        None => 0,
    };
    let mut i: usize = 0;
    while i < state.slots.len()
        invariant
            i <= state.slots@.len(),
            state.wf(),
            state.dbm == before.dbm,
            state.regs@ == before@.compared(before.dbm@, id, end),
            state.slots@.len() == before.slots@.len(),
            forall|k: int|
                0 <= k < before.slots@.len() ==> (#[trigger] state.slots@[k]) == if k < i {
                    raised(before.slots@[k], id, most)
                } else {
                    before.slots@[k]
                },
        decreases state.slots@.len() - i,
    {
        let v: PacketValue = raise(state.slots[i], id, most);
        state.slots[i] = v;
        i = i + 1;
    }
    assert(state@ =~= before@.refined(before.dbm@, id, end));
}

/// Raises the ranges of packet pointers after one was compared with the end of
/// the packet.
pub fn refine_packet_ranges(state: &mut PacketState, pkt_reg: Reg, end_reg: Reg)
    requires
        old(state).wf(),
    ensures
        final(state).wf(),
        final(state).dbm == old(state).dbm,
        final(state)@ == old(state)@.packet_ranges_refined(old(state).dbm@, pkt_reg, end_reg),
{
    match (state.regs[pkt_reg.idx()], state.regs[end_reg.idx()]) {
        (PacketValue::Pointer(p), PacketValue::End) => refine_for_end(state, p.id, end_reg),
        (PacketValue::End, PacketValue::Pointer(p)) => refine_for_end(state, p.id, pkt_reg),
        _ => {},
    }
}

/// Ranges only grow, and pointers keep their identity.
pub proof fn law_ranges_only_grow(s: Packets, z: Zone, a: Reg, b: Reg, i: int)
    requires
        0 <= i < s.regs.len(),
    ensures
        match (s.regs[i], s.packet_ranges_refined(z, a, b).regs[i]) {
            (PacketValue::Pointer(p), PacketValue::Pointer(q)) => p.id == q.id && p.is_base
                == q.is_base && q.range >= p.range,
            (v, w) => v == w,
        },
{
}

/// The bytes that a packet pointer is known to have before it reach no further
/// than the packet, for all values the zone allows.
pub open spec fn ranges_are_true(s: Packets, end: Reg, w: spec_fn(int) -> int) -> bool {
    forall|i: int|
        0 <= i < s.regs.len() ==> ((#[trigger] s.regs[i]) matches PacketValue::Pointer(p) ==> (
        p.range > 0 ==> w(i) + p.range <= w(end.idx() as int)))
}

/// What a comparison with the packet's end teaches is true: no pointer is given
/// more bytes than there are.
pub proof fn law_learned_ranges_are_true(
    s: Packets,
    z: Zone,
    a: Reg,
    b: Reg,
    w: spec_fn(int) -> int,
)
    requires
        s.regs.len() == DBM_DIM,
        z.sized(DBM_DIM as int),
        crate::domains::zone::laws::models(z.m, w),
        s.regs[b.idx() as int] is End,
        ranges_are_true(s, b, w),
        forall|i: int, j: int|
            0 <= i < DBM_DIM && 0 <= j < DBM_DIM ==> #[trigger] z.m[i][j] > i64::MIN,
    ensures
        ranges_are_true(s.packet_ranges_refined(z, a, b), b, w),
{
    let t = s.packet_ranges_refined(z, a, b);
    assert forall|i: int| 0 <= i < t.regs.len() implies ((#[trigger] t.regs[i]) matches PacketValue::Pointer(
        p,
    ) ==> (p.range > 0 ==> w(i) + p.range <= w(b.idx() as int))) by {
        let old_value = s.regs[i];
        assert(z.m[i][b.idx() as int] > i64::MIN);
    }
}

/// A pointer that the comparison shows to have bytes before the packet's end is
/// given them.
pub proof fn law_shown_bytes_are_learned(s: Packets, z: Zone, a: Reg, b: Reg, i: int, id: u32, n: i64)
    requires
        s.regs.len() == DBM_DIM,
        0 <= i < DBM_DIM,
        s.regs[b.idx() as int] is End,
        s.regs[a.idx() as int] matches PacketValue::Pointer(p) && p.id == id,
        s.regs[i] matches PacketValue::Pointer(p) && p.id == id,
        n >= 0,
        z.m[i][b.idx() as int] == -n,
    ensures
        s.packet_ranges_refined(z, a, b).regs[i] matches PacketValue::Pointer(p) && p.range >= n,
{
}

} // verus!
