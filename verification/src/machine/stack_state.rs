//! One frame's stack: what is known of each byte, and the kernel objects that
//! live there.
use crate::ast::MemSize;
use crate::machine::reg::Reg;
use crate::machine::reg_types::{like, same_type, RegType};
use crate::machine::tnum::Tnum;
use crate::num::wadd;
use vstd::prelude::*;

verus! {

/// What is known of the stack from one offset on.
#[derive(Debug, Clone, Copy, PartialEq, Eq)]
pub struct Slot {
    pub ty: RegType,
    pub size: MemSize,
    pub tnum: Tnum,
    pub lo: i64,
    pub hi: i64,
    /// The register that was spilled here.
    pub source_reg: Option<Reg>,
}

impl Slot {
    pub open spec fn spec_plain(ty: RegType) -> Slot {
        Slot {
            ty,
            size: MemSize::U8,
            tnum: Tnum::unknown(),
            lo: i64::MIN,
            hi: i64::MAX,
            source_reg: None,
        }
    }

    /// A byte of a type of which nothing else is known.
    #[verifier::when_used_as_spec(spec_plain)]
    pub fn plain(ty: RegType) -> (r: Self)
        ensures
            r == Slot::spec_plain(ty),
    {
        Slot {
            ty,
            size: MemSize::U8,
            tnum: Tnum::unknown(),
            lo: i64::MIN,
            hi: i64::MAX,
            source_reg: None,
        }
    }
}

/// What a dynamic pointer points into.
#[derive(Debug, Clone, Copy, PartialEq, Eq, Structural)]
pub enum DynptrKind {
    Local,
    Ringbuf,
    Skb,
    Xdp,
}

/// One of the two stack words of a dynamic pointer.
#[derive(Debug, Clone, Copy, PartialEq, Eq, Structural)]
pub struct DynptrSlot {
    pub off: i16,
    pub first: bool,
    pub kind: DynptrKind,
    pub dynptr_id: u32,
    pub ref_id: Option<u32>,
}

/// Kinds of open-coded iterators.
#[derive(Debug, Clone, Copy, PartialEq, Eq, Structural)]
pub enum IterKind {
    Num,
    Task,
    Css,
    Bits,
    TaskVma,
    TestmodSeq,
    CssTask,
    KmemCache,
}

/// An iterator that lives on the stack.
#[derive(Debug, Clone, Copy, PartialEq, Eq, Structural)]
pub struct IterSlot {
    pub off: i16,
    pub kind: IterKind,
}

pub const BPF_ITER_NUM_SIZE: usize = 8;

pub const BPF_ITER_TASK_SIZE: usize = 40;

pub const BPF_ITER_CSS_SIZE: usize = 24;

pub const BPF_ITER_BITS_SIZE: usize = 16;

pub const BPF_ITER_TASK_VMA_SIZE: usize = 8;

pub const BPF_ITER_TESTMOD_SEQ_SIZE: usize = 16;

pub const BPF_ITER_CSS_TASK_SIZE: usize = 8;

pub const BPF_ITER_KMEM_CACHE_SIZE: usize = 8;

/// Bytes a dynamic pointer takes.
pub const BPF_DYNPTR_SIZE: usize = 16;

pub open spec fn spec_bpf_iter_size(kind: IterKind) -> usize {
    match kind {
        IterKind::Num => BPF_ITER_NUM_SIZE,
        IterKind::Task => BPF_ITER_TASK_SIZE,
        IterKind::Css => BPF_ITER_CSS_SIZE,
        IterKind::Bits => BPF_ITER_BITS_SIZE,
        IterKind::TaskVma => BPF_ITER_TASK_VMA_SIZE,
        IterKind::TestmodSeq => BPF_ITER_TESTMOD_SEQ_SIZE,
        IterKind::CssTask => BPF_ITER_CSS_TASK_SIZE,
        IterKind::KmemCache => BPF_ITER_KMEM_CACHE_SIZE,
    }
}

/// Bytes an open-coded iterator takes on the stack.
#[verifier::when_used_as_spec(spec_bpf_iter_size)]
pub fn bpf_iter_size(kind: IterKind) -> (r: usize)
    ensures
        r == spec_bpf_iter_size(kind),
        8 <= r <= 40,
{
    match kind {
        IterKind::Num => BPF_ITER_NUM_SIZE,
        IterKind::Task => BPF_ITER_TASK_SIZE,
        IterKind::Css => BPF_ITER_CSS_SIZE,
        IterKind::Bits => BPF_ITER_BITS_SIZE,
        IterKind::TaskVma => BPF_ITER_TASK_VMA_SIZE,
        IterKind::TestmodSeq => BPF_ITER_TESTMOD_SEQ_SIZE,
        IterKind::CssTask => BPF_ITER_CSS_TASK_SIZE,
        IterKind::KmemCache => BPF_ITER_KMEM_CACHE_SIZE,
    }
}

/// Whether an access of `size` bytes at `off` meets the `n` bytes at `at`.
pub open spec fn meets(off: i64, size: i64, at: i16, n: int) -> bool {
    off < at + n && at < off + size
}

fn exec_meets(off: i64, size: i64, at: i16, n: i64) -> (r: bool)
    requires
        0 <= n <= 64,
    ensures
        r == meets(off, size, at, n as int),
{
    (off as i128) < at as i128 + n as i128 && (at as i128) < off as i128 + size as i128
}

/// What a stack holds.
#[verifier::ext_equal]
pub struct StackView {
    pub slots: Map<i16, Slot>,
    pub dynptrs: Seq<DynptrSlot>,
    pub iters: Seq<IterSlot>,
    pub irq_flags: Seq<i16>,
}

/// The words of a sequence but those at one offset.
pub open spec fn words_without(s: Seq<DynptrSlot>, off: i16) -> Seq<DynptrSlot>
    decreases s.len(),
{
    if s.len() == 0 {
        s
    } else {
        let rest = words_without(s.drop_last(), off);
        if s.last().off == off { rest } else { rest.push(s.last()) }
    }
}

/// Offset and identity of each dynamic pointer that a write meets.
pub open spec fn touched(s: Seq<DynptrSlot>, off: i64, size: i64) -> Seq<(i16, u32)>
    decreases s.len(),
{
    if s.len() == 0 {
        seq![]
    } else {
        let rest = touched(s.drop_last(), off, size);
        let w = s.last();
        if w.first && meets(off, size, w.off, 16) { rest.push((w.off, w.dynptr_id)) } else { rest }
    }
}

/// Identities of the dynamic pointers into the packet.
pub open spec fn packet_ids(s: Seq<DynptrSlot>) -> Seq<u32>
    decreases s.len(),
{
    if s.len() == 0 {
        seq![]
    } else {
        let rest = packet_ids(s.drop_last());
        let w = s.last();
        if w.kind is Skb || w.kind is Xdp { rest.push(w.dynptr_id) } else { rest }
    }
}

impl StackView {
    /// The type of the byte at `off`.
    pub open spec fn type_at(self, off: i16) -> RegType {
        if self.slots.dom().contains(off) { self.slots[off].ty } else { RegType::NotInit }
    }

    pub open spec fn slot_at(self, off: i16) -> Option<Slot> {
        if self.slots.dom().contains(off) { Some(self.slots[off]) } else { None }
    }

    pub open spec fn put(self, off: i16, slot: Slot) -> StackView {
        StackView { slots: self.slots.insert(off, slot), ..self }
    }

    /// The stack with the type of one byte replaced.
    pub open spec fn retype(self, off: i16, ty: RegType) -> StackView {
        self.put(
            off,
            if self.slots.dom().contains(off) {
                Slot { ty, ..self.slots[off] }
            } else {
                Slot::plain(ty)
            },
        )
    }

    /// The stack after the bytes `from <= k < to` past `off` became scalars.
    pub open spec fn retype_run(self, off: i16, from: int, to: int) -> StackView
        decreases to - from,
    {
        if to <= from {
            self
        } else {
            self.retype_run(off, from, to - 1).retype(
                (off + (to - 1)) as i16,
                RegType::ScalarValue,
            )
        }
    }

    /// The stack after a number was written to each of `n` bytes, offsets being
    /// cut to 16 bits.
    pub open spec fn scalar_run(self, off: i64, n: int) -> StackView
        decreases n,
    {
        if n <= 0 {
            self
        } else {
            self.scalar_run(off, n - 1).retype(
                wadd(off, (n - 1) as i64) as i16,
                RegType::ScalarValue,
            )
        }
    }

    /// The stack without what was known of one byte; an uninitialized byte
    /// stays so.
    pub open spec fn blur(self, off: i16) -> StackView {
        if self.slots.dom().contains(off) {
            self.put(off, Slot::plain(RegType::ScalarValue))
        } else {
            self
        }
    }

    /// The stack with the bytes `from <= o < to` blurred, each offset cut to
    /// 16 bits.
    pub open spec fn blur_run(self, from: int, to: int) -> StackView
        decreases to - from,
    {
        if to <= from {
            self
        } else {
            self.blur_run(from, to - 1).blur((to - 1) as i16)
        }
    }

    /// The stack with each of some bytes blurred.
    pub open spec fn blur_all(self, offs: Seq<i16>) -> StackView
        decreases offs.len(),
    {
        if offs.len() == 0 {
            self
        } else {
            self.blur_all(offs.drop_last()).blur(offs.last())
        }
    }

    /// The stack with every byte blurred that differs from `snap`.
    pub open spec fn blur_changed(self, snap: StackView) -> StackView {
        StackView {
            slots: Map::new(
                |o: i16| self.slots.dom().contains(o),
                |o: i16|
                    if same_record(snap.slot_at(o), self.slots[o]) {
                        self.slots[o]
                    } else {
                        Slot::plain(RegType::ScalarValue)
                    },
            ),
            ..self
        }
    }

    /// The stack with packet pointers turned into scalars.
    pub open spec fn without_packet_pointers(self) -> StackView {
        StackView {
            slots: self.slots.map_values(
                |s: Slot| if s.ty.is_packet_ptr() { Slot::plain(RegType::ScalarValue) } else { s },
            ),
            ..self
        }
    }

    /// The stack with the type of every slot replaced.
    pub open spec fn map_types(self, f: spec_fn(RegType) -> RegType) -> StackView {
        StackView { slots: self.slots.map_values(|s: Slot| Slot { ty: f(s.ty), ..s }), ..self }
    }

    pub open spec fn without_dynptr(self, off: i16) -> StackView {
        StackView { dynptrs: words_without(self.dynptrs, off), ..self }
    }

    pub open spec fn overlaps_dynptr(self, off: i64, size: i64) -> bool {
        exists|i: int|
            0 <= i < self.dynptrs.len() && meets(off, size, #[trigger] self.dynptrs[i].off, 8)
    }

    pub open spec fn overlaps_referenced_dynptr(self, off: i64, size: i64) -> bool {
        exists|i: int|
            0 <= i < self.dynptrs.len() && (#[trigger] self.dynptrs[i]).first
                && self.dynptrs[i].ref_id is Some && meets(off, size, self.dynptrs[i].off, 16)
    }

    pub open spec fn overlaps_iterator(self, off: i64, size: i64) -> bool {
        exists|i: int|
            0 <= i < self.iters.len() && meets(
                off,
                size,
                (#[trigger] self.iters[i]).off,
                bpf_iter_size(self.iters[i].kind) as int,
            )
    }

    pub open spec fn overlaps_irq_flag(self, off: i64, size: i64) -> bool {
        exists|i: int|
            0 <= i < self.irq_flags.len() && meets(off, size, #[trigger] self.irq_flags[i], 8)
    }

    pub open spec fn leaks_dynptr(self) -> bool {
        exists|i: int| 0 <= i < self.dynptrs.len() && (#[trigger] self.dynptrs[i]).ref_id is Some
    }

    /// The first word of the dynamic pointers that starts at `off`.
    pub open spec fn dynptr_at(self, off: i16) -> Option<DynptrSlot> {
        crate::machine::find::first_where(self.dynptrs, at_offset(off))
    }
}

pub open spec fn at_offset(off: i16) -> spec_fn(DynptrSlot) -> bool {
    |w: DynptrSlot| w.off == off
}

/// A frame's stack. Bytes are kept as a list without repeated offsets.
#[derive(Debug)]
pub struct StackState {
    pub offs: Vec<i16>,
    pub recs: Vec<Slot>,
    pub dynptrs: Vec<DynptrSlot>,
    pub iters: Vec<IterSlot>,
    pub irq_flags: Vec<i16>,
}

/// The table that a list of offsets and a list of records give.
pub open spec fn slot_map(offs: Seq<i16>, recs: Seq<Slot>) -> Map<i16, Slot> {
    Map::new(|o: i16| offs.contains(o), |o: i16| recs[offs.index_of(o)])
}

impl StackState {
    pub open spec fn view(&self) -> StackView {
        StackView {
            slots: slot_map(self.offs@, self.recs@),
            dynptrs: self.dynptrs@,
            iters: self.iters@,
            irq_flags: self.irq_flags@,
        }
    }

    pub open spec fn wf(&self) -> bool {
        &&& self.offs@.no_duplicates()
        &&& self.offs@.len() == self.recs@.len()
    }

    /// A stack of which nothing is initialized.
    pub fn new() -> (r: Self)
        ensures
            r.wf(),
            r@ == (StackView {
                slots: Map::empty(),
                dynptrs: seq![],
                iters: seq![],
                irq_flags: seq![],
            }),
    {
        let r: StackState = StackState {
            offs: Vec::new(),
            recs: Vec::new(),
            dynptrs: Vec::new(),
            iters: Vec::new(),
            irq_flags: Vec::new(),
        };
        assert(r@.slots =~= Map::empty());
        r
    }

    fn position(&self, off: i16) -> (r: Option<usize>)
        requires
            self.wf(),
        ensures
            match r {
                Some(i) => i < self.offs@.len() && self.offs@[i as int] == off
                    && self@.slots.dom().contains(off) && self@.slots[off] == self.recs@[i as int],
                None => !self.offs@.contains(off) && !self@.slots.dom().contains(off),
            },
    {
        let mut i: usize = 0;
        while i < self.offs.len()
            invariant
                self.wf(),
                i <= self.offs@.len(),
                forall|k: int| 0 <= k < i ==> self.offs@[k] != off,
            decreases self.offs@.len() - i,
        {
            if self.offs[i] == off {
                assert(self.offs@.contains(off));
                assert(self.offs@.index_of(off) == i);
                return Some(i);
            }
            i = i + 1;
        }
        None
    }

    /// The record of the byte at `off`.
    pub fn get_slot(&self, off: i16) -> (r: Option<Slot>)
        requires
            self.wf(),
        ensures
            r == self@.slot_at(off),
    {
        match self.position(off) {
            Some(i) => Some(self.recs[i]),
            None => None,
        }
    }

    /// The type of the byte at `off`.
    pub fn get_slot_type(&self, off: i16) -> (r: RegType)
        requires
            self.wf(),
        ensures
            r == self@.type_at(off),
    {
        match self.position(off) {
            Some(i) => self.recs[i].ty,
            None => RegType::NotInit,
        }
    }

    /// Whether the byte at `off` was written.
    pub fn is_slot_initialized(&self, off: i16) -> (r: bool)
        requires
            self.wf(),
        ensures
            r == self@.slots.dom().contains(off),
    {
        self.position(off).is_some()
    }

    /// The offsets of the bytes that were written, each once.
    pub fn slot_offsets(&self) -> (r: Vec<i16>)
        requires
            self.wf(),
        ensures
            r@.no_duplicates(),
            forall|o: i16| r@.contains(o) <==> #[trigger] self@.slots.dom().contains(o),
    {
        let mut r: Vec<i16> = Vec::new();
        let mut i: usize = 0;
        while i < self.offs.len()
            invariant
                i <= self.offs@.len(),
                r@ == self.offs@.take(i as int),
            decreases self.offs@.len() - i,
        {
            r.push(self.offs[i]);
            assert(self.offs@.take(i + 1) =~= self.offs@.take(i as int).push(self.offs@[i as int]));
            i = i + 1;
        }
        assert(self.offs@.take(self.offs@.len() as int) =~= self.offs@);
        r
    }

    /// Replaces the record of the byte at `off`.
    pub fn put(&mut self, off: i16, slot: Slot)
        requires
            old(self).wf(),
        ensures
            final(self).wf(),
            final(self)@ == old(self)@.put(off, slot),
    {
        match self.position(off) {
            Some(i) => {
                self.recs[i] = slot;
                proof {
                    let a = old(self)@.put(off, slot).slots;
                    let b = self@.slots;
                    assert forall|o: i16| a.dom().contains(o) implies b.dom().contains(o) && a[o]
                        == b[o] by {
                        if o != off {
                            let k = self.offs@.index_of(o);
                            assert(self.offs@[k] == o);
                            assert(k != i);
                        } else {
                            assert(self.offs@.contains(o));
                            assert(self.offs@.index_of(o) == i);
                        }
                    }
                    assert(a =~= b);
                }
            },
            None => {
                let ghost n = self.offs@.len() as int;
                self.offs.push(off);
                self.recs.push(slot);
                proof {
                    let a = old(self)@.put(off, slot).slots;
                    let b = self@.slots;
                    assert(self.offs@[n] == off);
                    assert forall|o: i16|
                        a.dom().contains(o) <==> #[trigger] b.dom().contains(o) by {
                        if old(self).offs@.contains(o) {
                            let k = old(self).offs@.index_of(o);
                            assert(self.offs@[k] == o);
                        }
                        if self.offs@.contains(o) && o != off {
                            let k = self.offs@.index_of(o);
                            assert(old(self).offs@[k] == o);
                        }
                    }
                    assert forall|o: i16| a.dom().contains(o) implies a[o] == b[o] by {
                        if o != off {
                            let k = old(self).offs@.index_of(o);
                            assert(self.offs@[k] == o);
                            assert(self.offs@.index_of(o) == k);
                        } else {
                            assert(self.offs@.index_of(o) == n);
                        }
                    }
                    assert(a =~= b);
                }
            },
        }
    }

    /// Replaces the type of the byte at `off`.
    pub fn set_slot_type(&mut self, off: i16, ty: RegType)
        requires
            old(self).wf(),
        ensures
            final(self).wf(),
            final(self)@ == old(self)@.retype(off, ty),
    {
        match self.get_slot(off) {
            Some(s) => {
                let mut s: Slot = s;
                s.ty = ty;
                self.put(off, s);
            },
            None => self.put(off, Slot::plain(ty)),
        }
    }

    /// Writes a number of which nothing is known to each of `n` bytes.
    pub fn write_scalars(&mut self, off: i64, n: i16)
        requires
            old(self).wf(),
        ensures
            final(self).wf(),
            final(self)@ == old(self)@.scalar_run(off, n as int),
    {
        let ghost before = self@;
        let mut i: i16 = 0;
        while i < n
            invariant
                self.wf(),
                0 <= i,
                i <= n || i == 0,
                self@ == before.scalar_run(off, i as int),
            decreases n - i,
        {
            self.set_slot_type(wadd(off, i as i64) as i16, RegType::ScalarValue);
            i = i + 1;
        }
    }

    /// Drops what is known of the byte at `off`.
    pub fn invalidate_slot(&mut self, off: i16)
        requires
            old(self).wf(),
        ensures
            final(self).wf(),
            final(self)@ == old(self)@.blur(off),
    {
        if self.is_slot_initialized(off) {
            self.put(off, Slot::plain(RegType::ScalarValue));
        }
    }

    /// Drops what is known of each byte that differs from `snap`.
    pub fn invalidate_changed(&mut self, snap: &StackState)
        requires
            old(self).wf(),
            snap.wf(),
        ensures
            final(self).wf(),
            final(self)@ == old(self)@.blur_changed(snap@),
    {
        let ghost before = *self;
        let mut i: usize = 0;
        while i < self.recs.len()
            invariant
                i <= self.recs@.len(),
                self.wf(),
                snap.wf(),
                before.wf(),
                self.offs@ == before.offs@,
                self.dynptrs == before.dynptrs,
                self.iters == before.iters,
                self.irq_flags == before.irq_flags,
                forall|k: int|
                    0 <= k < self.recs@.len() ==> (#[trigger] self.recs@[k]) == (if k < i
                        && !same_record(snap@.slot_at(before.offs@[k]), before.recs@[k]) {
                        Slot::plain(RegType::ScalarValue)
                    } else {
                        before.recs@[k]
                    }),
            decreases self.recs@.len() - i,
        {
            let same: bool = match snap.get_slot(self.offs[i]) {
                Some(s) => same_slot(&s, &self.recs[i]),
                None => false,
            };
            if !same {
                self.recs[i] = Slot::plain(RegType::ScalarValue);
            }
            i = i + 1;
        }
        proof {
            let a = before@.blur_changed(snap@).slots;
            let b = self@.slots;
            assert forall|o: i16| a.dom().contains(o) implies a[o] == b[o] by {
                let k = before.offs@.index_of(o);
                assert(before.offs@[k] == o);
                assert(self.recs@[k] == b[o]);
            }
            assert(a =~= b);
        }
    }

    /// Turns packet pointers into scalars.
    pub fn invalidate_packet_pointers(&mut self)
        requires
            old(self).wf(),
        ensures
            final(self).wf(),
            final(self)@ == old(self)@.without_packet_pointers(),
    {
        let ghost before = *self;
        let mut i: usize = 0;
        while i < self.recs.len()
            invariant
                i <= self.recs@.len(),
                self.wf(),
                before.wf(),
                self.offs@ == before.offs@,
                self.dynptrs == before.dynptrs,
                self.iters == before.iters,
                self.irq_flags == before.irq_flags,
                forall|k: int|
                    0 <= k < self.recs@.len() ==> (#[trigger] self.recs@[k]) == (if k < i
                        && before.recs@[k].ty.is_packet_ptr() {
                        Slot::plain(RegType::ScalarValue)
                    } else {
                        before.recs@[k]
                    }),
            decreases self.recs@.len() - i,
        {
            if self.recs[i].ty.is_packet_ptr() {
                self.recs[i] = Slot::plain(RegType::ScalarValue);
            }
            i = i + 1;
        }
        proof {
            let a = before@.without_packet_pointers().slots;
            let b = self@.slots;
            assert forall|o: i16| a.dom().contains(o) implies a[o] == b[o] by {
                let k = before.offs@.index_of(o);
                assert(before.offs@[k] == o);
                assert(self.recs@[k] == b[o]);
            }
            assert(a =~= b);
        }
    }

    /// Whether any iterator is live.
    pub fn has_active_iterators(&self) -> (r: bool)
        ensures
            r == (self@.iters.len() > 0),
    {
        self.iters.len() > 0
    }

    /// Whether any irq flag is still saved.
    pub fn has_unreleased_irq_flags(&self) -> (r: bool)
        ensures
            r == (self@.irq_flags.len() > 0),
    {
        self.irq_flags.len() > 0
    }

    /// Whether any dynamic pointer still holds a reference.
    pub fn has_unreleased_dynptr_refs(&self) -> (r: bool)
        ensures
            r == self@.leaks_dynptr(),
    {
        let mut i: usize = 0;
        while i < self.dynptrs.len()
            invariant
                i <= self.dynptrs@.len(),
                forall|k: int| 0 <= k < i ==> (#[trigger] self.dynptrs@[k]).ref_id is None,
            decreases self.dynptrs@.len() - i,
        {
            if self.dynptrs[i].ref_id.is_some() {
                assert(self@.dynptrs[i as int].ref_id is Some);
                return true;
            }
            i = i + 1;
        }
        false
    }

    /// Whether an access meets a dynamic pointer.
    pub fn read_overlaps_dynptr(&self, off: i64, size: i64) -> (r: bool)
        ensures
            r == self@.overlaps_dynptr(off, size),
    {
        let mut i: usize = 0;
        while i < self.dynptrs.len()
            invariant
                i <= self.dynptrs@.len(),
                forall|k: int|
                    0 <= k < i ==> !meets(off, size, #[trigger] self@.dynptrs[k].off, 8),
            decreases self.dynptrs@.len() - i,
        {
            if exec_meets(off, size, self.dynptrs[i].off, 8) {
                assert(meets(off, size, self@.dynptrs[i as int].off, 8));
                return true;
            }
            i = i + 1;
        }
        false
    }

    /// Whether a write meets a dynamic pointer that holds a reference.
    pub fn write_overlaps_referenced_dynptr(&self, off: i64, size: i64) -> (r: bool)
        ensures
            r == self@.overlaps_referenced_dynptr(off, size),
    {
        let mut i: usize = 0;
        while i < self.dynptrs.len()
            invariant
                i <= self.dynptrs@.len(),
                forall|k: int|
                    0 <= k < i ==> !((#[trigger] self@.dynptrs[k]).first
                        && self@.dynptrs[k].ref_id is Some && meets(
                        off,
                        size,
                        self@.dynptrs[k].off,
                        16,
                    )),
            decreases self.dynptrs@.len() - i,
        {
            let w: DynptrSlot = self.dynptrs[i];
            if w.first && w.ref_id.is_some() && exec_meets(off, size, w.off, 16) {
                assert(self@.dynptrs[i as int].first);
                return true;
            }
            i = i + 1;
        }
        false
    }

    /// Whether an access meets an iterator.
    pub fn access_overlaps_iterator(&self, off: i64, size: i64) -> (r: bool)
        ensures
            r == self@.overlaps_iterator(off, size),
    {
        let mut i: usize = 0;
        while i < self.iters.len()
            invariant
                i <= self.iters@.len(),
                forall|k: int|
                    0 <= k < i ==> !meets(
                        off,
                        size,
                        (#[trigger] self@.iters[k]).off,
                        bpf_iter_size(self@.iters[k].kind) as int,
                    ),
            decreases self.iters@.len() - i,
        {
            let it: IterSlot = self.iters[i];
            if exec_meets(off, size, it.off, bpf_iter_size(it.kind) as i64) {
                assert(self@.iters[i as int] == it);
                return true;
            }
            i = i + 1;
        }
        false
    }

    /// Whether an access meets a saved irq flag.
    pub fn access_overlaps_irq_flag(&self, off: i64, size: i64) -> (r: bool)
        ensures
            r == self@.overlaps_irq_flag(off, size),
    {
        let mut i: usize = 0;
        while i < self.irq_flags.len()
            invariant
                i <= self.irq_flags@.len(),
                forall|k: int|
                    0 <= k < i ==> !meets(off, size, #[trigger] self@.irq_flags[k], 8),
            decreases self.irq_flags@.len() - i,
        {
            if exec_meets(off, size, self.irq_flags[i], 8) {
                assert(meets(off, size, self@.irq_flags[i as int], 8));
                return true;
            }
            i = i + 1;
        }
        false
    }

    /// Offset and identity of each dynamic pointer that a write meets.
    pub fn dynptr_pairs_touched_by_write(&self, off: i64, size: i64) -> (r: Vec<(i16, u32)>)
        ensures
            r@ == touched(self@.dynptrs, off, size),
    {
        let mut r: Vec<(i16, u32)> = Vec::new();
        let mut i: usize = 0;
        while i < self.dynptrs.len()
            invariant
                i <= self.dynptrs@.len(),
                r@ == touched(self.dynptrs@.take(i as int), off, size),
            decreases self.dynptrs@.len() - i,
        {
            let w: DynptrSlot = self.dynptrs[i];
            assert(self.dynptrs@.take(i + 1).drop_last() =~= self.dynptrs@.take(i as int));
            if w.first && exec_meets(off, size, w.off, 16) {
                r.push((w.off, w.dynptr_id));
            }
            i = i + 1;
        }
        assert(self.dynptrs@.take(self.dynptrs@.len() as int) =~= self.dynptrs@);
        r
    }

    /// Identities of the dynamic pointers into the packet.
    pub fn packet_dynptr_ids(&self) -> (r: Vec<u32>)
        ensures
            r@ == packet_ids(self@.dynptrs),
    {
        let mut r: Vec<u32> = Vec::new();
        let mut i: usize = 0;
        while i < self.dynptrs.len()
            invariant
                i <= self.dynptrs@.len(),
                r@ == packet_ids(self.dynptrs@.take(i as int)),
            decreases self.dynptrs@.len() - i,
        {
            let w: DynptrSlot = self.dynptrs[i];
            assert(self.dynptrs@.take(i + 1).drop_last() =~= self.dynptrs@.take(i as int));
            if matches!(w.kind, DynptrKind::Skb | DynptrKind::Xdp) {
                r.push(w.dynptr_id);
            }
            i = i + 1;
        }
        assert(self.dynptrs@.take(self.dynptrs@.len() as int) =~= self.dynptrs@);
        r
    }

    /// Removes the dynamic-pointer words at `off`.
    pub fn stack_clear_dynptr(&mut self, off: i16)
        requires
            old(self).wf(),
        ensures
            final(self).wf(),
            final(self)@ == old(self)@.without_dynptr(off),
    {
        let mut r: Vec<DynptrSlot> = Vec::new();
        let mut i: usize = 0;
        while i < self.dynptrs.len()
            invariant
                i <= self.dynptrs@.len(),
                r@ == words_without(self.dynptrs@.take(i as int), off),
            decreases self.dynptrs@.len() - i,
        {
            let w: DynptrSlot = self.dynptrs[i];
            assert(self.dynptrs@.take(i + 1).drop_last() =~= self.dynptrs@.take(i as int));
            if w.off != off {
                r.push(w);
            }
            i = i + 1;
        }
        assert(self.dynptrs@.take(self.dynptrs@.len() as int) =~= self.dynptrs@);
        self.dynptrs = r;
    }

    /// The dynamic-pointer word at `off`.
    pub fn stack_get_dynptr(&self, off: i16) -> (r: Option<DynptrSlot>)
        ensures
            r == self@.dynptr_at(off),
    {
        let mut i: usize = 0;
        while i < self.dynptrs.len()
            invariant
                i <= self.dynptrs@.len(),
                forall|k: int| 0 <= k < i ==> !at_offset(off)(#[trigger] self.dynptrs@[k]),
            decreases self.dynptrs@.len() - i,
        {
            if self.dynptrs[i].off == off {
                proof {
                    crate::machine::find::lemma_first_where_at(
                        self.dynptrs@,
                        at_offset(off),
                        i as int,
                    );
                }
                return Some(self.dynptrs[i]);
            }
            i = i + 1;
        }
        proof {
            crate::machine::find::lemma_first_where_none(self.dynptrs@, at_offset(off));
        }
        None
    }
}

/// Whether there is a record and it agrees with another.
pub open spec fn same_record(a: Option<Slot>, b: Slot) -> bool {
    a matches Some(s) && like(s.ty, b.ty) && s == (Slot { ty: s.ty, ..b })
}

/// Whether two records agree.
fn same_slot(a: &Slot, b: &Slot) -> (r: bool)
    ensures
        r == same_record(Some(*a), *b),
{
    same_type(a.ty, b.ty) && a.size == b.size && a.tnum == b.tnum && a.lo
        == b.lo && a.hi == b.hi && a.source_reg == b.source_reg
}

impl Clone for StackState {
    fn clone(&self) -> (r: Self)
        ensures
            r@ == self@,
            self.wf() ==> r.wf(),
    {
        let r: StackState = StackState {
            offs: self.offs.clone(),
            recs: copy_slots(&self.recs),
            dynptrs: copy_words(&self.dynptrs),
            iters: copy_iters(&self.iters),
            irq_flags: self.irq_flags.clone(),
        };
        assert(r.offs@ =~= self.offs@);
        assert(r.irq_flags@ =~= self.irq_flags@);
        r
    }
}

fn copy_slots(v: &Vec<Slot>) -> (r: Vec<Slot>)
    ensures
        r@ == v@,
{
    let mut r: Vec<Slot> = Vec::new();
    let mut i: usize = 0;
    while i < v.len()
        invariant
            i <= v@.len(),
            r@ == v@.take(i as int),
        decreases v@.len() - i,
    {
        r.push(v[i]);
        assert(v@.take(i + 1) =~= v@.take(i as int).push(v@[i as int]));
        i = i + 1;
    }
    assert(v@.take(v@.len() as int) =~= v@);
    r
}

fn copy_words(v: &Vec<DynptrSlot>) -> (r: Vec<DynptrSlot>)
    ensures
        r@ == v@,
{
    let mut r: Vec<DynptrSlot> = Vec::new();
    let mut i: usize = 0;
    while i < v.len()
        invariant
            i <= v@.len(),
            r@ == v@.take(i as int),
        decreases v@.len() - i,
    {
        r.push(v[i]);
        assert(v@.take(i + 1) =~= v@.take(i as int).push(v@[i as int]));
        i = i + 1;
    }
    assert(v@.take(v@.len() as int) =~= v@);
    r
}

fn copy_iters(v: &Vec<IterSlot>) -> (r: Vec<IterSlot>)
    ensures
        r@ == v@,
{
    let mut r: Vec<IterSlot> = Vec::new();
    let mut i: usize = 0;
    while i < v.len()
        invariant
            i <= v@.len(),
            r@ == v@.take(i as int),
        decreases v@.len() - i,
    {
        r.push(v[i]);
        assert(v@.take(i + 1) =~= v@.take(i as int).push(v@[i as int]));
        i = i + 1;
    }
    assert(v@.take(v@.len() as int) =~= v@);
    r
}

} // verus!
