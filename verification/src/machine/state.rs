//! The abstract machine: registers, call frames, and what the program holds.
use crate::ast::MemSize;
use crate::domains::interval::state::PtrOffset;
use crate::domains::numeric::{Numeric, NumericDomain};
use crate::domains::zone::dbm::INF;
use crate::machine::reg::{Reg, DBM_DIM};
use crate::machine::reg_types::{clobbered, FrameLevel, RegType, TypeState};
use crate::machine::stack_state::{packet_ids, Slot, StackState, StackView};
use crate::machine::tnum::Tnum;
use vstd::prelude::*;

verus! {

/// Facts about a register that live beside its type and value.
#[derive(Debug, Clone, Copy, PartialEq, Eq, Structural)]
pub struct Notes {
    /// The register was loaded from a typed kernel field.
    pub btf_field: bool,
    /// Its known bits are coarser than what the kernel tracks.
    pub tnum_imprecise: bool,
    /// A constant that was added to a pointer.
    pub ptr_const_off: Option<i64>,
    /// The register whose value made the offset variable.
    pub contributor: Option<Reg>,
    /// The expression that describes the value symbolically.
    pub symbolic: Option<u32>,
    /// Registers with the same identity hold the same value.
    pub scalar_id: Option<u32>,
}

impl Notes {
    pub open spec fn spec_none() -> Notes {
        Notes {
            btf_field: false,
            tnum_imprecise: false,
            ptr_const_off: None,
            contributor: None,
            symbolic: None,
            scalar_id: None,
        }
    }

    /// Nothing is noted.
    #[verifier::when_used_as_spec(spec_none)]
    pub fn none() -> (r: Self)
        ensures
            r == Notes::spec_none(),
    {
        Notes {
            btf_field: false,
            tnum_imprecise: false,
            ptr_const_off: None,
            contributor: None,
            symbolic: None,
            scalar_id: None,
        }
    }
}

/// What a frame that runs a callback knows of its caller.
#[derive(Debug)]
pub struct Callback {
    pub helper: u32,
    /// The range of the helper's own result.
    pub result: (i64, i64),
    pub should_widen: bool,
    pub caller_level: Option<usize>,
    pub snapshot: Option<StackState>,
    pub writeable: Vec<i16>,
}

#[verifier::ext_equal]
pub struct CallbackView {
    pub helper: u32,
    pub result: (i64, i64),
    pub should_widen: bool,
    pub caller_level: Option<usize>,
    pub snapshot: Option<StackView>,
    pub writeable: Seq<i16>,
}

impl Callback {
    pub open spec fn view(&self) -> CallbackView {
        CallbackView {
            helper: self.helper,
            result: self.result,
            should_widen: self.should_widen,
            caller_level: self.caller_level,
            snapshot: match self.snapshot {
                Some(s) => Some(s@),
                None => None,
            },
            writeable: self.writeable@,
        }
    }

    pub open spec fn wf(&self) -> bool {
        self.snapshot matches Some(s) ==> s.wf()
    }
}

impl Clone for Callback {
    fn clone(&self) -> (r: Self)
        ensures
            r@ == self@,
            self.wf() ==> r.wf(),
    {
        let snapshot: Option<StackState> = match &self.snapshot {
            Some(s) => Some(s.clone()),
            None => None,
        };
        let writeable: Vec<i16> = self.writeable.clone();
        assert(writeable@ =~= self.writeable@);
        Callback {
            helper: self.helper,
            result: self.result,
            should_widen: self.should_widen,
            caller_level: self.caller_level,
            snapshot,
            writeable,
        }
    }
}

/// A call frame, with what its caller looked like at the call.
#[derive(Debug)]
pub struct Frame {
    pub return_pc: usize,
    pub caller_types: TypeState,
    pub caller_domain: NumericDomain,
    pub caller_tnums: Vec<Tnum>,
    pub caller_rcu_read_depth_snapshot: Option<u32>,
    pub stack: StackState,
    pub depth: u32,
    pub callback: Option<Callback>,
}

#[verifier::ext_equal]
pub struct FrameView {
    pub return_pc: usize,
    pub caller_types: Seq<RegType>,
    pub caller_domain: Numeric,
    pub caller_tnums: Seq<Tnum>,
    pub caller_rcu_read_depth_snapshot: Option<u32>,
    pub stack: StackView,
    pub depth: u32,
    pub callback: Option<CallbackView>,
}

impl Frame {
    pub open spec fn view(&self) -> FrameView {
        FrameView {
            return_pc: self.return_pc,
            caller_types: self.caller_types@,
            caller_domain: self.caller_domain@,
            caller_tnums: self.caller_tnums@,
            caller_rcu_read_depth_snapshot: self.caller_rcu_read_depth_snapshot,
            stack: self.stack@,
            depth: self.depth,
            callback: match self.callback {
                Some(c) => Some(c@),
                None => None,
            },
        }
    }

    pub open spec fn wf(&self) -> bool {
        &&& self.caller_types.wf()
        &&& self.caller_domain.wf()
        &&& self.caller_tnums@.len() == DBM_DIM
        &&& self.stack.wf()
        &&& self.callback matches Some(c) ==> c.wf()
    }
}

/// A copy of a list of tristate numbers.
pub fn copy_tnums(v: &Vec<Tnum>) -> (r: Vec<Tnum>)
    ensures
        r@ == v@,
{
    let mut r: Vec<Tnum> = Vec::new();
    let mut i: usize = 0;
    while i < v.len()
        invariant
            i <= v@.len(),
            r@ == v@.take(i as int),
        decreases v@.len() - i,
    {
        r.push(v[i]);
        assert(v@.take(i + 1) =~= v@.take(i as int).push(v@[i as int]));
        i = i + 1;
    }
    assert(v@.take(v@.len() as int) =~= v@);
    r
}

impl Clone for Frame {
    fn clone(&self) -> (r: Self)
        ensures
            r@ == self@,
            self.wf() ==> r.wf(),
    {
        let callback: Option<Callback> = match &self.callback {
            Some(c) => Some(c.clone()),
            None => None,
        };
        Frame {
            return_pc: self.return_pc,
            caller_types: self.caller_types.clone(),
            caller_domain: self.caller_domain.clone(),
            caller_tnums: copy_tnums(&self.caller_tnums),
            caller_rcu_read_depth_snapshot: self.caller_rcu_read_depth_snapshot,
            stack: self.stack.clone(),
            depth: self.depth,
            callback,
        }
    }
}

/// Pointers to sockets that may be absent.
#[derive(Debug, Clone, Copy, PartialEq, Eq, Structural)]
pub enum SocketKind {
    Socket,
    SockCommon,
    TcpSock,
}

/// How types change when something becomes known or invalid.
#[derive(Debug, Clone, Copy, PartialEq, Eq, Structural)]
pub enum TypeRule {
    /// Pointers that hold a reference become unusable.
    Ref { id: u32 },
    /// Pointers into the memory behind a dynamic pointer become unusable.
    Slice { dynptr: u32 },
    /// Pointers into the packet become unusable.
    Packet,
    /// Pointers to the packet's data or its end become scalars.
    PacketData,
    /// A map value is there.
    MapValueFound { id: u32 },
    /// A socket is there.
    SocketFound { kind: SocketKind, ref_id: Option<u32> },
    /// A socket is not there.
    SocketAbsent { kind: SocketKind, ref_id: Option<u32> },
}

pub open spec fn spec_nullable_socket(t: RegType) -> Option<(SocketKind, Option<u32>)> {
    match t {
        RegType::PtrToSocketOrNull { ref_id } => Some((SocketKind::Socket, ref_id)),
        RegType::PtrToSockCommonOrNull { ref_id } => Some((SocketKind::SockCommon, ref_id)),
        RegType::PtrToTcpSockOrNull { id } => Some((SocketKind::TcpSock, id)),
        _ => None,
    }
}

/// The kind and the reference of a socket that may be absent.
#[verifier::when_used_as_spec(spec_nullable_socket)]
pub fn nullable_socket(t: RegType) -> (r: Option<(SocketKind, Option<u32>)>)
    ensures
        r == spec_nullable_socket(t),
{
    match t {
        RegType::PtrToSocketOrNull { ref_id } => Some((SocketKind::Socket, ref_id)),
        RegType::PtrToSockCommonOrNull { ref_id } => Some((SocketKind::SockCommon, ref_id)),
        RegType::PtrToTcpSockOrNull { id } => Some((SocketKind::TcpSock, id)),
        _ => None,
    }
}

pub open spec fn spec_socket_type(kind: SocketKind, ref_id: Option<u32>) -> RegType {
    match kind {
        SocketKind::Socket => RegType::PtrToSocket { ref_id },
        SocketKind::SockCommon => RegType::PtrToSockCommon { ref_id },
        SocketKind::TcpSock => RegType::PtrToTcpSock { id: ref_id },
    }
}

/// The type of a socket that is there.
#[verifier::when_used_as_spec(spec_socket_type)]
pub fn socket_type(kind: SocketKind, ref_id: Option<u32>) -> (r: RegType)
    ensures
        r == spec_socket_type(kind, ref_id),
{
    match kind {
        SocketKind::Socket => RegType::PtrToSocket { ref_id },
        SocketKind::SockCommon => RegType::PtrToSockCommon { ref_id },
        SocketKind::TcpSock => RegType::PtrToTcpSock { id: ref_id },
    }
}

pub open spec fn spec_retyped(rule: TypeRule, ty: RegType) -> RegType {
    match rule {
        TypeRule::Ref { id } => if ty.get_ref_id() == Some(id) {
            RegType::NotInit
        } else {
            ty
        },
        TypeRule::Slice { dynptr } => match ty {
            RegType::PtrToAllocMem { dynptr_id, .. } => if dynptr_id == Some(dynptr) {
                RegType::NotInit
            } else {
                ty
            },
            RegType::PtrToAllocMemOrNull { dynptr_id, .. } => if dynptr_id == Some(dynptr) {
                RegType::NotInit
            } else {
                ty
            },
            _ => ty,
        },
        TypeRule::Packet => if ty.is_packet_ptr() {
            RegType::NotInit
        } else {
            ty
        },
        TypeRule::PacketData => if ty is PtrToPacket || ty is PtrToPacketEnd {
            RegType::ScalarValue
        } else {
            ty
        },
        TypeRule::MapValueFound { id: found } => match ty {
            RegType::PtrToMapValueOrNull { id, map_idx, map_uid } => if id == found {
                RegType::PtrToMapValue { id, offset: Some(0), map_idx, map_uid }
            } else {
                ty
            },
            _ => ty,
        },
        TypeRule::SocketFound { kind, ref_id } => if nullable_socket(ty) == Some((kind, ref_id)) {
            socket_type(kind, ref_id)
        } else {
            ty
        },
        TypeRule::SocketAbsent { kind, ref_id } => if nullable_socket(ty) == Some((kind, ref_id)) {
            RegType::ScalarValue
        } else {
            ty
        },
    }
}

/// The type after a rule was applied.
#[verifier::when_used_as_spec(spec_retyped)]
pub fn retyped(rule: TypeRule, ty: RegType) -> (r: RegType)
    ensures
        r == spec_retyped(rule, ty),
{
    match rule {
        TypeRule::Ref { id } => if ty.get_ref_id() == Some(id) {
            RegType::NotInit
        } else {
            ty
        },
        TypeRule::Slice { dynptr } => match ty {
            RegType::PtrToAllocMem { dynptr_id, .. } => if dynptr_id == Some(dynptr) {
                RegType::NotInit
            } else {
                ty
            },
            RegType::PtrToAllocMemOrNull { dynptr_id, .. } => if dynptr_id == Some(dynptr) {
                RegType::NotInit
            } else {
                ty
            },
            _ => ty,
        },
        TypeRule::Packet => if ty.is_packet_ptr() {
            RegType::NotInit
        } else {
            ty
        },
        TypeRule::PacketData => if matches!(ty, RegType::PtrToPacket | RegType::PtrToPacketEnd) {
            RegType::ScalarValue
        } else {
            ty
        },
        TypeRule::MapValueFound { id: found } => match ty {
            RegType::PtrToMapValueOrNull { id, map_idx, map_uid } => if id == found {
                RegType::PtrToMapValue { id, offset: Some(0), map_idx, map_uid }
            } else {
                ty
            },
            _ => ty,
        },
        TypeRule::SocketFound { kind, ref_id } => match nullable_socket(ty) {
            Some((k, r)) => if k == kind && r == ref_id {
                socket_type(kind, ref_id)
            } else {
                ty
            },
            None => ty,
        },
        TypeRule::SocketAbsent { kind, ref_id } => match nullable_socket(ty) {
            Some((k, r)) => if k == kind && r == ref_id {
                RegType::ScalarValue
            } else {
                ty
            },
            None => ty,
        },
    }
}

pub open spec fn by_rule(rule: TypeRule) -> spec_fn(RegType) -> RegType {
    |t: RegType| retyped(rule, t)
}

/// Applies a rule to every register.
pub fn retype_regs(types: &mut TypeState, rule: TypeRule)
    requires
        old(types).wf(),
    ensures
        final(types).wf(),
        final(types)@ == old(types)@.map_values(by_rule(rule)),
{
    let ghost before = types@;
    let mut i: usize = 0;
    while i < types.regs.len()
        invariant
            i <= types.regs@.len(),
            types.regs@.len() == before.len(),
            forall|k: int|
                0 <= k < before.len() ==> (#[trigger] types.regs@[k]) == (if k < i {
                    retyped(rule, before[k])
                } else {
                    before[k]
                }),
        decreases types.regs@.len() - i,
    {
        let t: RegType = retyped(rule, types.regs[i]);
        types.regs[i] = t;
        i = i + 1;
    }
    assert(types@ =~= before.map_values(by_rule(rule)));
}

/// Applies a rule to every byte of a stack.
pub fn retype_slots(stack: &mut StackState, rule: TypeRule)
    requires
        old(stack).wf(),
    ensures
        final(stack).wf(),
        final(stack)@ == old(stack)@.map_types(by_rule(rule)),
{
    let ghost before = *stack;
    let mut i: usize = 0;
    while i < stack.recs.len()
        invariant
            i <= stack.recs@.len(),
            stack.wf(),
            before.wf(),
            stack.offs@ == before.offs@,
            stack.dynptrs == before.dynptrs,
            stack.iters == before.iters,
            stack.irq_flags == before.irq_flags,
            forall|k: int|
                0 <= k < before.recs@.len() ==> (#[trigger] stack.recs@[k]) == (if k < i {
                    Slot { ty: retyped(rule, before.recs@[k].ty), ..before.recs@[k] }
                } else {
                    before.recs@[k]
                }),
        decreases stack.recs@.len() - i,
    {
        let mut s: Slot = stack.recs[i];
        s.ty = retyped(rule, s.ty);
        stack.recs[i] = s;
        i = i + 1;
    }
    proof {
        let a = before@.map_types(by_rule(rule)).slots;
        let b = stack@.slots;
        assert forall|o: i16| a.dom().contains(o) implies a[o] == b[o] by {
            let k = before.offs@.index_of(o);
            assert(before.offs@[k] == o);
            assert(stack.recs@[k] == b[o]);
        }
        assert(a =~= b);
    }
}

/// The numbers of a list but one.
pub open spec fn ids_without(s: Seq<u32>, id: u32) -> Seq<u32>
    decreases s.len(),
{
    if s.len() == 0 {
        s
    } else {
        let rest = ids_without(s.drop_last(), id);
        if s.last() == id { rest } else { rest.push(s.last()) }
    }
}

/// An abstract state of the machine.
#[derive(Debug)]
pub struct State {
    pub pc: usize,
    pub types: TypeState,
    pub domain: NumericDomain,
    pub tnums: Vec<Tnum>,
    pub notes: Vec<Notes>,
    /// The main program's frame first.
    pub frames: Vec<Frame>,
    pub active_refs: Vec<u32>,
    pub rcu_read_depth: u32,
    pub implicit_rcu_at_entry: bool,
    pub lock_depth: u32,
    pub preempt_depth: u32,
    pub irq_depth: u32,
    pub goto_budget: u32,
    pub may_goto_depth: u32,
    pub history_idx: Option<usize>,
    pub parent_cache_id: Option<usize>,
    /// Whether values are also tracked symbolically.
    pub symbolic: bool,
}

#[verifier::ext_equal]
pub struct Machine {
    pub pc: usize,
    pub types: Seq<RegType>,
    pub domain: Numeric,
    pub tnums: Seq<Tnum>,
    pub notes: Seq<Notes>,
    pub frames: Seq<FrameView>,
    pub refs: Seq<u32>,
    pub rcu_read_depth: u32,
    pub implicit_rcu_at_entry: bool,
    pub lock_depth: u32,
    pub preempt_depth: u32,
    pub irq_depth: u32,
    pub goto_budget: u32,
    pub may_goto_depth: u32,
    pub history_idx: Option<usize>,
    pub parent_cache_id: Option<usize>,
    pub symbolic: bool,
}

pub open spec fn frame_views(frames: Seq<Frame>) -> Seq<FrameView> {
    Seq::new(frames.len(), |i: int| frames[i]@)
}

/// The depths of all frames together.
pub open spec fn depth_sum(frames: Seq<FrameView>) -> int
    decreases frames.len(),
{
    if frames.len() == 0 { 0 } else { depth_sum(frames.drop_last()) + frames.last().depth }
}

/// Identities of the dynamic pointers into the packet, over all frames.
pub open spec fn all_packet_ids(frames: Seq<FrameView>) -> Seq<u32>
    decreases frames.len(),
{
    if frames.len() == 0 {
        seq![]
    } else {
        all_packet_ids(frames.drop_last()) + packet_ids(frames.last().stack.dynptrs)
    }
}

impl Machine {
    /// Where a program starts: one frame with an empty stack, nothing held.
    pub open spec fn at_entry(domain: Numeric, types: Seq<RegType>) -> Machine {
        let unknown = Seq::new(DBM_DIM as nat, |i: int| Tnum::unknown());
        let frame = FrameView {
            return_pc: 0,
            caller_types: Seq::new(DBM_DIM as nat, |i: int| RegType::NotInit),
            caller_domain: domain,
            caller_tnums: unknown,
            caller_rcu_read_depth_snapshot: None,
            stack: StackView {
                slots: Map::empty(),
                dynptrs: seq![],
                iters: seq![],
                irq_flags: seq![],
            },
            depth: 0,
            callback: None,
        };
        Machine {
            pc: 0,
            types,
            domain,
            tnums: unknown,
            notes: Seq::new(DBM_DIM as nat, |i: int| Notes::none()),
            frames: seq![frame],
            refs: seq![],
            rcu_read_depth: 0,
            implicit_rcu_at_entry: false,
            lock_depth: 0,
            preempt_depth: 0,
            irq_depth: 0,
            goto_budget: 0,
            may_goto_depth: 0,
            history_idx: None,
            parent_cache_id: None,
            symbolic: false,
        }
    }

    pub open spec fn ty(self, r: Reg) -> RegType {
        self.types[r.idx() as int]
    }

    pub open spec fn note(self, r: Reg) -> Notes {
        self.notes[r.idx() as int]
    }

    pub open spec fn set_type(self, r: Reg, t: RegType) -> Machine {
        Machine { types: self.types.update(r.idx() as int, t), ..self }
    }

    pub open spec fn set_tnum(self, r: Reg, t: Tnum) -> Machine {
        Machine { tnums: self.tnums.update(r.idx() as int, t), ..self }
    }

    pub open spec fn set_note(self, r: Reg, n: Notes) -> Machine {
        Machine { notes: self.notes.update(r.idx() as int, n), ..self }
    }

    pub open spec fn forget(self, r: Reg) -> Machine {
        Machine { domain: self.domain.forget(r), ..self }
    }

    pub open spec fn with_domain(self, d: Numeric) -> Machine {
        Machine { domain: d, ..self }
    }

    pub open spec fn at(self, pc: int) -> Machine {
        Machine { pc: pc as usize, ..self }
    }

    pub open spec fn at_main_frame(self) -> bool {
        self.frames.len() == 1
    }

    pub open spec fn current(self) -> FrameView {
        self.frames.last()
    }

    pub open spec fn level(self) -> FrameLevel {
        FrameLevel { index: (self.frames.len() - 1) as usize }
    }

    pub open spec fn stack_at(self, level: FrameLevel) -> StackView {
        self.frames[level.index as int].stack
    }

    /// A pointer into a stack points into a frame that exists.
    pub open spec fn has_frame(self, r: Reg) -> bool {
        self.ty(r) matches RegType::PtrToStack { frame_level } ==> frame_level.index
            < self.frames.len()
    }

    pub open spec fn with_stack(self, level: FrameLevel, s: StackView) -> Machine {
        Machine {
            frames: self.frames.update(
                level.index as int,
                FrameView { stack: s, ..self.frames[level.index as int] },
            ),
            ..self
        }
    }

    /// The current frame reaches down to `off`.
    pub open spec fn deepen(self, off: i16) -> Machine {
        let i = self.frames.len() - 1;
        let f = self.frames[i];
        if off < 0 && -off > f.depth {
            Machine {
                frames: self.frames.update(i, FrameView { depth: (-off) as u32, ..f }),
                ..self
            }
        } else {
            self
        }
    }

    pub open spec fn in_rcu(self) -> bool {
        self.rcu_read_depth > 0
    }

    /// A rule is applied to registers and to all stacks.
    pub open spec fn apply_rule(self, rule: TypeRule) -> Machine {
        Machine {
            types: self.types.map_values(by_rule(rule)),
            frames: Seq::new(
                self.frames.len(),
                |i: int|
                    FrameView {
                        stack: self.frames[i].stack.map_types(by_rule(rule)),
                        ..self.frames[i]
                    },
            ),
            ..self
        }
    }

    /// A rule is applied to registers and to the current stack.
    pub open spec fn apply_rule_here(self, rule: TypeRule) -> Machine {
        let s = Machine { types: self.types.map_values(by_rule(rule)), ..self };
        s.with_stack(s.level(), s.current().stack.map_types(by_rule(rule)))
    }

    /// The five registers that carry arguments become unusable.
    pub open spec fn clobber_args(self) -> Machine {
        Machine { types: clobbered(self.types, RegType::NotInit), ..self }
    }

    /// The state after the packet moved: no pointer into it is valid any more.
    pub open spec fn packet_moved(self) -> Machine {
        let s = Machine { types: self.types.map_values(by_rule(TypeRule::PacketData)), ..self };
        let s = s.with_stack(s.level(), s.current().stack.without_packet_pointers());
        let s = Machine {
            frames: Seq::new(
                s.frames.len(),
                |i: int|
                    FrameView {
                        caller_types: s.frames[i].caller_types.map_values(by_rule(TypeRule::Packet)),
                        ..s.frames[i]
                    },
            ),
            ..s
        };
        s.drop_slices(all_packet_ids(s.frames))
    }

    /// The same for several dynamic pointers, one after the other.
    pub open spec fn drop_slices(self, ids: Seq<u32>) -> Machine
        decreases ids.len(),
    {
        if ids.len() == 0 {
            self
        } else {
            self.drop_slices(ids.drop_last()).apply_rule(TypeRule::Slice { dynptr: ids.last() })
        }
    }

    /// The record that a spill of a register writes.
    pub open spec fn spill_record(self, reg: Reg, size: MemSize) -> Slot {
        if size is U64 {
            let (lo, hi) = self.domain.range(reg);
            Slot {
                ty: self.ty(reg),
                size,
                tnum: self.tnums[reg.idx() as int],
                lo,
                hi,
                source_reg: Some(reg),
            }
        } else {
            unknown_record(size)
        }
    }

    /// Whether a load of `size` bytes finds a whole spilled value at `off`.
    pub open spec fn can_fill(self, level: FrameLevel, off: i16, size: MemSize) -> bool {
        self.stack_at(level).slot_at(off) matches Some(s) && s.size == size && (s.source_reg is Some
            || s.tnum.is_const())
    }

    /// The state after a register took the value spilled at `off`.
    pub open spec fn filled(self, level: FrameLevel, dst: Reg, off: i16) -> Machine {
        let s = self.stack_at(level).slots[off];
        self.set_type(dst, s.ty).set_tnum(dst, s.tnum).with_domain(
            self.domain.assign_interval(dst, s.lo, s.hi),
        )
    }

    /// The packet anchor a register is relative to.
    pub open spec fn anchor(self, r: Reg) -> Option<Reg> {
        match self.ty(r) {
            RegType::PtrToPacket => Some(Reg::AnchorData),
            RegType::PtrToPacketMeta => Some(Reg::AnchorDataMeta),
            RegType::PtrToPacketEnd => Some(Reg::AnchorDataEnd),
            _ => None,
        }
    }

    /// The bounds between a packet pointer and its anchor, both ways.
    pub open spec fn anchor_info(self, r: Reg) -> (Option<Reg>, Option<i64>, Option<i64>) {
        match (self.anchor(r), self.domain) {
            (Some(a), Numeric::Zone(z)) => {
                let lo = z.m[a.idx() as int][r.idx() as int];
                let hi = z.m[r.idx() as int][a.idx() as int];
                (
                    Some(a),
                    if lo < INF { Some(lo) } else { None },
                    if hi < INF { Some(hi) } else { None },
                )
            },
            (a, _) => (a, None, None),
        }
    }

    /// Where the interval domain has a pointer relative to its anchor.
    pub open spec fn ptr_offset(self, r: Reg) -> Option<PtrOffset> {
        match self.domain {
            Numeric::Zone(_) => None,
            Numeric::Interval(s) => s.reg(r).ptr_offset,
        }
    }
}

/// The record of a store of which only the size is known.
pub open spec fn unknown_record(size: MemSize) -> Slot {
    Slot {
        ty: RegType::ScalarValue,
        size,
        tnum: Tnum::unknown(),
        lo: size.unbounded_scalar_bounds().0,
        hi: size.unbounded_scalar_bounds().1,
        source_reg: None,
    }
}

/// The record that a store of a constant writes.
pub open spec fn imm_record(k: i64, size: MemSize) -> Slot {
    let (lo, hi) = size.unbounded_scalar_bounds();
    if lo <= k <= hi {
        Slot {
            ty: RegType::ScalarValue,
            size,
            tnum: Tnum::constant(k as u64),
            lo: k,
            hi: k,
            source_reg: None,
        }
    } else {
        unknown_record(size)
    }
}

impl State {
    pub open spec fn view(&self) -> Machine {
        Machine {
            pc: self.pc,
            types: self.types@,
            domain: self.domain@,
            tnums: self.tnums@,
            notes: self.notes@,
            frames: frame_views(self.frames@),
            refs: self.active_refs@,
            rcu_read_depth: self.rcu_read_depth,
            implicit_rcu_at_entry: self.implicit_rcu_at_entry,
            lock_depth: self.lock_depth,
            preempt_depth: self.preempt_depth,
            irq_depth: self.irq_depth,
            goto_budget: self.goto_budget,
            may_goto_depth: self.may_goto_depth,
            history_idx: self.history_idx,
            parent_cache_id: self.parent_cache_id,
            symbolic: self.symbolic,
        }
    }

    pub open spec fn wf(&self) -> bool {
        &&& self.types.wf()
        &&& self.domain.wf()
        &&& self.tnums@.len() == DBM_DIM
        &&& self.notes@.len() == DBM_DIM
        &&& self.frames@.len() > 0
        &&& forall|i: int|
            0 <= i < self.frames@.len() ==> (#[trigger] self.frames@[i]).wf()
                && (self.frames@[i].caller_domain is Zone <==> self.domain is Zone)
    }

    /// A program's first state.
    pub fn entry(domain: NumericDomain, types: TypeState) -> (r: Self)
        requires
            domain.wf(),
            types.wf(),
        ensures
            r.wf(),
            r@ == Machine::at_entry(domain@, types@),
    {
        let mut tnums: Vec<Tnum> = Vec::new();
        let mut notes: Vec<Notes> = Vec::new();
        let mut i: usize = 0;
        while i < DBM_DIM
            invariant
                i <= DBM_DIM,
                tnums@ == Seq::new(i as nat, |k: int| Tnum::unknown()),
                notes@ == Seq::new(i as nat, |k: int| Notes::none()),
            decreases DBM_DIM - i,
        {
            tnums.push(Tnum::unknown());
            notes.push(Notes::none());
            assert(tnums@ =~= Seq::new((i + 1) as nat, |k: int| Tnum::unknown()));
            assert(notes@ =~= Seq::new((i + 1) as nat, |k: int| Notes::none()));
            i = i + 1;
        }
        let frame: Frame = Frame {
            return_pc: 0,
            caller_types: TypeState::new(),
            caller_domain: domain.clone(),
            caller_tnums: copy_tnums(&tnums),
            caller_rcu_read_depth_snapshot: None,
            stack: StackState::new(),
            depth: 0,
            callback: None,
        };
        let mut frames: Vec<Frame> = Vec::new();
        frames.push(frame);
        let r: State = State {
            pc: 0,
            types,
            domain,
            tnums,
            notes,
            frames,
            active_refs: Vec::new(),
            rcu_read_depth: 0,
            implicit_rcu_at_entry: false,
            lock_depth: 0,
            preempt_depth: 0,
            irq_depth: 0,
            goto_budget: 0,
            may_goto_depth: 0,
            history_idx: None,
            parent_cache_id: None,
            symbolic: false,
        };
        assert(r@.frames =~= Machine::at_entry(domain@, types@).frames);
        assert(r@.refs =~= seq![]);
        r
    }

    /// Replaces the type of a register.
    pub fn set_type(&mut self, r: Reg, t: RegType)
        requires
            old(self).wf(),
        ensures
            final(self).wf(),
            final(self)@ == old(self)@.set_type(r, t),
    {
        self.types.set(r, t);
    }

    /// Forgets the value of a register.
    pub fn forget(&mut self, r: Reg)
        requires
            old(self).wf(),
            !r.is_anchor(),
        ensures
            final(self).wf(),
            final(self)@ == old(self)@.forget(r),
    {
        self.domain.forget(r);
    }

    /// Moves on to an instruction.
    pub fn go(&mut self, pc: usize)
        requires
            old(self).wf(),
        ensures
            final(self).wf(),
            final(self)@ == old(self)@.at(pc as int),
    {
        self.pc = pc;
    }

    /// Replaces the known bits of a register.
    pub fn set_tnum(&mut self, r: Reg, t: Tnum)
        requires
            old(self).wf(),
        ensures
            final(self).wf(),
            final(self)@ == old(self)@.set_tnum(r, t),
    {
        self.tnums[r.idx()] = t;
    }

    /// The known bits of a register.
    pub fn get_tnum(&self, r: Reg) -> (t: Tnum)
        requires
            self.wf(),
        ensures
            t == self@.tnums[r.idx() as int],
    {
        self.tnums[r.idx()]
    }

    /// Replaces the notes on a register.
    pub fn set_note(&mut self, r: Reg, n: Notes)
        requires
            old(self).wf(),
        ensures
            final(self).wf(),
            final(self)@ == old(self)@.set_note(r, n),
    {
        self.notes[r.idx()] = n;
    }

    /// Forgets which other registers hold the same value.
    pub fn clear_scalar_id(&mut self, r: Reg)
        requires
            old(self).wf(),
        ensures
            final(self).wf(),
            final(self)@ == old(self)@.set_note(
                r,
                (Notes { scalar_id: None, ..old(self)@.note(r) }),
            ),
    {
        let mut n: Notes = self.notes[r.idx()];
        n.scalar_id = None;
        self.notes[r.idx()] = n;
    }

    /// Whether the main program runs, and no function it called.
    pub fn at_main_frame(&self) -> (r: bool)
        requires
            self.wf(),
        ensures
            r == self@.at_main_frame(),
    {
        self.frames.len() == 1
    }

    /// The number of frames.
    pub fn num_frames(&self) -> (r: usize)
        ensures
            r == self@.frames.len(),
    {
        self.frames.len()
    }

    /// The level of the current frame.
    pub fn current_frame_level(&self) -> (r: FrameLevel)
        requires
            self.wf(),
        ensures
            r == self@.level(),
            r.index + 1 == self@.frames.len(),
    {
        FrameLevel { index: self.frames.len() - 1 }
    }

    /// The stack of a frame.
    pub fn stack_at(&self, level: FrameLevel) -> (r: &StackState)
        requires
            self.wf(),
            level.index < self@.frames.len(),
        ensures
            r@ == self@.stack_at(level),
            r.wf(),
    {
        &self.frames[level.index].stack
    }

    /// Replaces the stack of a frame.
    pub fn set_stack(&mut self, level: FrameLevel, s: StackState)
        requires
            old(self).wf(),
            level.index < old(self)@.frames.len(),
            s.wf(),
        ensures
            final(self).wf(),
            final(self)@ == old(self)@.with_stack(level, s@),
    {
        self.frames[level.index].stack = s;
        assert(self@.frames =~= old(self)@.with_stack(level, s@).frames);
    }

    /// Takes the stack of a frame out, leaving an empty one.
    pub fn take_stack(&mut self, level: FrameLevel) -> (r: StackState)
        requires
            old(self).wf(),
            level.index < old(self)@.frames.len(),
        ensures
            final(self).wf(),
            r.wf(),
            r@ == old(self)@.stack_at(level),
            final(self)@ == old(self)@.with_stack(level, final(self)@.stack_at(level)),
    {
        let mut s: StackState = StackState::new();
        core::mem::swap(&mut s, &mut self.frames[level.index].stack);
        assert(self@.frames =~= old(self)@.with_stack(level, self@.stack_at(level)).frames);
        s
    }

    /// Whether the program runs inside an RCU read section.
    pub fn in_rcu_read_section(&self) -> (r: bool)
        ensures
            r == self@.in_rcu(),
    {
        self.rcu_read_depth > 0
    }

    /// Takes note of a new reference.
    pub fn acquire_ref(&mut self, id: u32)
        requires
            old(self).wf(),
        ensures
            final(self).wf(),
            final(self)@ == (Machine { refs: old(self)@.refs.push(id), ..old(self)@ }),
    {
        self.active_refs.push(id);
    }

    /// Drops a reference.
    pub fn release_ref(&mut self, id: u32)
        requires
            old(self).wf(),
        ensures
            final(self).wf(),
            final(self)@ == (Machine { refs: ids_without(old(self)@.refs, id), ..old(self)@ }),
    {
        let mut r: Vec<u32> = Vec::new();
        let mut i: usize = 0;
        while i < self.active_refs.len()
            invariant
                i <= self.active_refs@.len(),
                r@ == ids_without(self.active_refs@.take(i as int), id),
            decreases self.active_refs@.len() - i,
        {
            let x: u32 = self.active_refs[i];
            assert(self.active_refs@.take(i + 1).drop_last() =~= self.active_refs@.take(i as int));
            if x != id {
                r.push(x);
            }
            i = i + 1;
        }
        assert(self.active_refs@.take(self.active_refs@.len() as int) =~= self.active_refs@);
        self.active_refs = r;
    }

    /// A rule is applied to registers and to all stacks.
    pub fn apply_rule(&mut self, rule: TypeRule)
        requires
            old(self).wf(),
        ensures
            final(self).wf(),
            final(self)@ == old(self)@.apply_rule(rule),
    {
        let ghost before = *self;
        retype_regs(&mut self.types, rule);
        let mut i: usize = 0;
        while i < self.frames.len()
            invariant
                i <= self.frames@.len(),
                self.wf(),
                before.wf(),
                self.frames@.len() == before.frames@.len(),
                self@ == (Machine {
                    types: before@.types.map_values(by_rule(rule)),
                    frames: self@.frames,
                    ..before@
                }),
                forall|k: int|
                    0 <= k < before.frames@.len() ==> (#[trigger] self.frames@[k])@ == (if k < i {
                        FrameView {
                            stack: before.frames@[k]@.stack.map_types(by_rule(rule)),
                            ..before.frames@[k]@
                        }
                    } else {
                        before.frames@[k]@
                    }),
            decreases self.frames@.len() - i,
        {
            retype_slots(&mut self.frames[i].stack, rule);
            i = i + 1;
        }
        assert(self@.frames =~= before@.apply_rule(rule).frames);
    }

    /// A rule is applied to registers and to the current stack.
    pub fn apply_rule_here(&mut self, rule: TypeRule)
        requires
            old(self).wf(),
        ensures
            final(self).wf(),
            final(self)@ == old(self)@.apply_rule_here(rule),
    {
        let i: usize = self.frames.len() - 1;
        retype_regs(&mut self.types, rule);
        let ghost s1 = self@;
        retype_slots(&mut self.frames[i].stack, rule);
        assert(self@.frames =~= s1.with_stack(
            s1.level(),
            s1.current().stack.map_types(by_rule(rule)),
        ).frames);
    }

    /// The pointers through which a reference was held become unusable.
    pub fn invalidate_ref(&mut self, id: u32)
        requires
            old(self).wf(),
        ensures
            final(self).wf(),
            final(self)@ == old(self)@.apply_rule(TypeRule::Ref { id }),
    {
        self.apply_rule(TypeRule::Ref { id });
    }

    /// The pointers into the memory behind a dynamic pointer become unusable.
    pub fn invalidate_dynptr_slices(&mut self, id: u32)
        requires
            old(self).wf(),
        ensures
            final(self).wf(),
            final(self)@ == old(self)@.apply_rule(TypeRule::Slice { dynptr: id }),
    {
        self.apply_rule(TypeRule::Slice { dynptr: id });
    }

    /// The same for several dynamic pointers.
    pub fn invalidate_all_slices(&mut self, ids: &Vec<u32>)
        requires
            old(self).wf(),
        ensures
            final(self).wf(),
            final(self)@ == old(self)@.drop_slices(ids@),
            final(self)@.frames.len() == old(self)@.frames.len(),
    {
        let ghost before = self@;
        let mut i: usize = 0;
        while i < ids.len()
            invariant
                i <= ids@.len(),
                self.wf(),
                self@ == before.drop_slices(ids@.take(i as int)),
                self@.frames.len() == before.frames.len(),
            decreases ids@.len() - i,
        {
            assert(ids@.take(i + 1).drop_last() =~= ids@.take(i as int));
            self.invalidate_dynptr_slices(ids[i]);
            i = i + 1;
        }
        assert(ids@.take(ids@.len() as int) =~= ids@);
    }

    /// Identities of the dynamic pointers into the packet.
    pub fn collect_packet_dynptr_ids(&self) -> (r: Vec<u32>)
        requires
            self.wf(),
        ensures
            r@ == all_packet_ids(self@.frames),
    {
        let mut r: Vec<u32> = Vec::new();
        let mut i: usize = 0;
        while i < self.frames.len()
            invariant
                i <= self.frames@.len(),
                r@ == all_packet_ids(self@.frames.take(i as int)),
            decreases self.frames@.len() - i,
        {
            let mut ids: Vec<u32> = self.frames[i].stack.packet_dynptr_ids();
            assert(self@.frames.take(i + 1).drop_last() =~= self@.frames.take(i as int));
            assert(self@.frames.take(i + 1).last() == self@.frames[i as int]);
            r.append(&mut ids);
            i = i + 1;
        }
        assert(self@.frames.take(self@.frames.len() as int) =~= self@.frames);
        r
    }

    /// Packet pointers that callers hold become unusable.
    pub fn invalidate_caller_packet_pointers(&mut self)
        requires
            old(self).wf(),
        ensures
            final(self).wf(),
            final(self)@ == (Machine {
                frames: Seq::new(
                    old(self)@.frames.len(),
                    |i: int|
                        FrameView {
                            caller_types: old(self)@.frames[i].caller_types.map_values(
                                by_rule(TypeRule::Packet),
                            ),
                            ..old(self)@.frames[i]
                        },
                ),
                ..old(self)@
            }),
    {
        let ghost before = *self;
        let mut i: usize = 0;
        while i < self.frames.len()
            invariant
                i <= self.frames@.len(),
                self.wf(),
                before.wf(),
                self.frames@.len() == before.frames@.len(),
                self@ == (Machine { frames: self@.frames, ..before@ }),
                forall|k: int|
                    0 <= k < before.frames@.len() ==> (#[trigger] self.frames@[k])@ == (if k < i {
                        FrameView {
                            caller_types: before.frames@[k]@.caller_types.map_values(
                                by_rule(TypeRule::Packet),
                            ),
                            ..before.frames@[k]@
                        }
                    } else {
                        before.frames@[k]@
                    }),
            decreases self.frames@.len() - i,
        {
            retype_regs(&mut self.frames[i].caller_types, TypeRule::Packet);
            i = i + 1;
        }
        assert(self@.frames =~= Seq::new(
            before@.frames.len(),
            |i: int|
                FrameView {
                    caller_types: before@.frames[i].caller_types.map_values(
                        by_rule(TypeRule::Packet),
                    ),
                    ..before@.frames[i]
                },
        ));
    }

    /// The five registers that carry arguments become unusable.
    pub fn clobber_args(&mut self)
        requires
            old(self).wf(),
        ensures
            final(self).wf(),
            final(self)@ == old(self)@.clobber_args(),
    {
        self.types.set(Reg::R1, RegType::NotInit);
        self.types.set(Reg::R2, RegType::NotInit);
        self.types.set(Reg::R3, RegType::NotInit);
        self.types.set(Reg::R4, RegType::NotInit);
        self.types.set(Reg::R5, RegType::NotInit);
    }

    /// The packet moved: no pointer into it is valid any more.
    pub fn move_packet(&mut self)
        requires
            old(self).wf(),
        ensures
            final(self).wf(),
            final(self)@ == old(self)@.packet_moved(),
            final(self)@.frames.len() == old(self)@.frames.len(),
    {
        retype_regs(&mut self.types, TypeRule::PacketData);
        let ghost s1 = self@;
        let level: FrameLevel = self.current_frame_level();
        let mut stack: StackState = self.take_stack(level);
        stack.invalidate_packet_pointers();
        self.set_stack(level, stack);
        assert(self@ =~= s1.with_stack(level, s1.current().stack.without_packet_pointers()));
        self.invalidate_caller_packet_pointers();
        let ids: Vec<u32> = self.collect_packet_dynptr_ids();
        self.invalidate_all_slices(&ids);
    }

    /// Writes a register to a stack.
    pub fn spill_at(&mut self, level: FrameLevel, reg: Reg, off: i16, size: MemSize)
        requires
            old(self).wf(),
            level.index < old(self)@.frames.len(),
        ensures
            final(self).wf(),
            final(self)@ == old(self)@.with_stack(
                level,
                old(self)@.stack_at(level).put(off, old(self)@.spill_record(reg, size)),
            ),
    {
        let rec: Slot = if size == MemSize::U64 {
            let (lo, hi) = self.domain.get_interval(reg);
            Slot {
                ty: self.types.get(reg),
                size,
                tnum: self.get_tnum(reg),
                lo,
                hi,
                source_reg: Some(reg),
            }
        } else {
            unknown_slot(size)
        };
        self.frames[level.index].stack.put(off, rec);
        assert(self@.frames =~= old(self)@.with_stack(
            level,
            old(self)@.stack_at(level).put(off, rec),
        ).frames);
    }

    /// Writes a constant to a stack.
    pub fn store_imm_to_stack_at(&mut self, level: FrameLevel, k: i64, off: i16, size: MemSize)
        requires
            old(self).wf(),
            level.index < old(self)@.frames.len(),
        ensures
            final(self).wf(),
            final(self)@ == old(self)@.with_stack(
                level,
                old(self)@.stack_at(level).put(off, imm_record(k, size)),
            ),
    {
        let (lo, hi) = size.unbounded_scalar_bounds();
        let rec: Slot = if lo <= k && k <= hi {
            Slot {
                ty: RegType::ScalarValue,
                size,
                tnum: Tnum::constant(k as u64),
                lo: k,
                hi: k,
                source_reg: None,
            }
        } else {
            unknown_slot(size)
        };
        self.frames[level.index].stack.put(off, rec);
        assert(self@.frames =~= old(self)@.with_stack(
            level,
            old(self)@.stack_at(level).put(off, rec),
        ).frames);
    }

    /// Reads a spilled value back into a register, if there is a whole one.
    pub fn fill_at(&mut self, level: FrameLevel, dst: Reg, off: i16, size: MemSize) -> (r: bool)
        requires
            old(self).wf(),
            level.index < old(self)@.frames.len(),
            !dst.is_anchor(),
        ensures
            final(self).wf(),
            r == old(self)@.can_fill(level, off, size),
            final(self)@ == if r { old(self)@.filled(level, dst, off) } else { old(self)@ },
    {
        match self.frames[level.index].stack.get_slot(off) {
            Some(s) => {
                if s.size == size && (s.source_reg.is_some() || s.tnum.is_const()) {
                    self.types.set(dst, s.ty);
                    self.domain.assign_interval(dst, s.lo, s.hi);
                    self.set_tnum(dst, s.tnum);
                    true
                } else {
                    false
                }
            },
            None => false,
        }
    }

    /// The current frame reaches down to `off`.
    pub fn update_frame_depth(&mut self, off: i16)
        requires
            old(self).wf(),
        ensures
            final(self).wf(),
            final(self)@ == old(self)@.deepen(off),
    {
        let i: usize = self.frames.len() - 1;
        let d: i32 = -(off as i32);
        if off < 0 && d as i64 > self.frames[i].depth as i64 {
            self.frames[i].depth = d as u32;
        }
        assert(self@.frames =~= old(self)@.deepen(off).frames);
    }

    /// The depths of all frames together.
    pub fn total_stack_depth(&self) -> (r: i128)
        requires
            self.wf(),
        ensures
            r == depth_sum(self@.frames),
            0 <= r <= usize::MAX * 0xFFFF_FFFF,
    {
        let mut sum: i128 = 0;
        let mut i: usize = 0;
        while i < self.frames.len()
            invariant
                i <= self.frames@.len(),
                sum == depth_sum(self@.frames.take(i as int)),
                0 <= sum <= i * 0xFFFF_FFFF,
            decreases self.frames@.len() - i,
        {
            assert(self@.frames.take(i + 1).drop_last() =~= self@.frames.take(i as int));
            assert(self@.frames.take(i + 1).last() == self@.frames[i as int]);
            sum = sum + self.frames[i].depth as i128;
            i = i + 1;
        }
        assert(self@.frames.take(self@.frames.len() as int) =~= self@.frames);
        sum
    }

    /// Leaves the current frame, unless it is the main program's.
    pub fn pop_frame(&mut self) -> (r: Option<Frame>)
        requires
            old(self).wf(),
        ensures
            final(self).wf(),
            match r {
                Some(f) => !old(self)@.at_main_frame() && f@ == old(self)@.current() && f.wf() && (
                f.caller_domain is Zone <==> old(self)@.domain is Zone) && final(self)@ == (
                Machine { frames: old(self)@.frames.drop_last(), ..old(self)@ }),
                None => old(self)@.at_main_frame() && final(self)@ == old(self)@,
            },
    {
        if self.frames.len() <= 1 {
            return None;
        }
        let f: Option<Frame> = self.frames.pop();
        assert(self@.frames =~= old(self)@.frames.drop_last());
        f
    }

    /// The bounds between a packet pointer and its anchor, both ways.
    pub fn save_anchor_info(&self, r: Reg) -> (x: (Option<Reg>, Option<i64>, Option<i64>))
        requires
            self.wf(),
        ensures
            x == self@.anchor_info(r),
    {
        let anchor: Option<Reg> = match self.types.get(r) {
            RegType::PtrToPacket => Some(Reg::AnchorData),
            RegType::PtrToPacketMeta => Some(Reg::AnchorDataMeta),
            RegType::PtrToPacketEnd => Some(Reg::AnchorDataEnd),
            _ => None,
        };
        match anchor {
            Some(a) => {
                let lo: i64 = self.domain.get(a, r);
                let hi: i64 = self.domain.get(r, a);
                (
                    Some(a),
                    if lo < INF { Some(lo) } else { None },
                    if hi < INF { Some(hi) } else { None },
                )
            },
            None => (None, None, None),
        }
    }

    /// Where the interval domain has a pointer relative to its anchor.
    pub fn save_interval_ptr_offset(&self, r: Reg) -> (x: Option<PtrOffset>)
        requires
            self.wf(),
        ensures
            x == self@.ptr_offset(r),
    {
        match &self.domain {
            NumericDomain::Zone(_) => None,
            NumericDomain::Interval(s) => match s.get_ptr_offset(r) {
                Some(p) => Some(*p),
                None => None,
            },
        }
    }
}

fn unknown_slot(size: MemSize) -> (r: Slot)
    ensures
        r == unknown_record(size),
{
    let (lo, hi) = size.unbounded_scalar_bounds();
    Slot { ty: RegType::ScalarValue, size, tnum: Tnum::unknown(), lo, hi, source_reg: None }
}

impl Clone for State {
    fn clone(&self) -> (r: Self)
        ensures
            r@ == self@,
            self.wf() ==> r.wf(),
    {
        let mut notes: Vec<Notes> = Vec::new();
        let mut i: usize = 0;
        while i < self.notes.len()
            invariant
                i <= self.notes@.len(),
                notes@ == self.notes@.take(i as int),
            decreases self.notes@.len() - i,
        {
            notes.push(self.notes[i]);
            assert(self.notes@.take(i + 1) =~= self.notes@.take(i as int).push(
                self.notes@[i as int],
            ));
            i = i + 1;
        }
        assert(self.notes@.take(self.notes@.len() as int) =~= self.notes@);
        let mut frames: Vec<Frame> = Vec::new();
        let mut i: usize = 0;
        while i < self.frames.len()
            invariant
                i <= self.frames@.len(),
                frames@.len() == i,
                forall|k: int|
                    0 <= k < i ==> (#[trigger] frames@[k])@ == self.frames@[k]@ && (
                    self.frames@[k].wf() ==> frames@[k].wf()),
            decreases self.frames@.len() - i,
        {
            let f: Frame = self.frames[i].clone();
            frames.push(f);
            i = i + 1;
        }
        assert(frame_views(frames@) =~= frame_views(self.frames@));
        let active_refs: Vec<u32> = self.active_refs.clone();
        assert(active_refs@ =~= self.active_refs@);
        let r: State = State {
            pc: self.pc,
            types: self.types.clone(),
            domain: self.domain.clone(),
            tnums: copy_tnums(&self.tnums),
            notes,
            frames,
            active_refs,
            rcu_read_depth: self.rcu_read_depth,
            implicit_rcu_at_entry: self.implicit_rcu_at_entry,
            lock_depth: self.lock_depth,
            preempt_depth: self.preempt_depth,
            irq_depth: self.irq_depth,
            goto_budget: self.goto_budget,
            may_goto_depth: self.may_goto_depth,
            history_idx: self.history_idx,
            parent_cache_id: self.parent_cache_id,
            symbolic: self.symbolic,
        };
        proof {
            if self.wf() {
                assert(r.domain@ == self.domain@);
                assert forall|k: int| 0 <= k < r.frames@.len() implies (#[trigger] r.frames@[k]).wf()
                    && (r.frames@[k].caller_domain is Zone <==> r.domain is Zone) by {
                    assert(self.frames@[k].wf());
                    assert(r.frames@[k]@.caller_domain == self.frames@[k]@.caller_domain);
                }
            }
        }
        r
    }
}

} // verus!
