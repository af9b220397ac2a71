//! What stacks hold after they were written.
use crate::ast::MemSize;
use crate::machine::reg::Reg;
use crate::machine::stack_state::{
    meets, packet_ids, touched, words_without, DynptrSlot, Slot, StackView,
};
use crate::machine::state::{depth_sum, imm_record, FrameView, Machine};
use vstd::prelude::*;

verus! {

/// A slot of which nothing is known but that it holds a number.
pub open spec fn says_nothing(s: Slot) -> bool {
    &&& s.ty is ScalarValue
    &&& s.tnum.mask == u64::MAX
    &&& s.lo == i64::MIN
    &&& s.hi == i64::MAX
    &&& s.source_reg is None
}

/// Two runs of bytes meet if they have a byte in common.
pub proof fn law_runs_meet_in_a_byte(off: i64, size: i64, at: i16, n: int)
    requires
        size > 0,
        n > 0,
    ensures
        meets(off, size, at, n) <==> exists|b: int| #[trigger] in_both(off, size, at, n, b),
{
    if meets(off, size, at, n) {
        let b = if off < at { at as int } else { off as int };
        assert(in_both(off, size, at, n, b));
    }
}

/// A byte of both runs.
pub open spec fn in_both(off: i64, size: i64, at: i16, n: int, b: int) -> bool {
    off <= b < off + size && at <= b < at + n
}

/// An access overlaps what is kept on the stack if it has a byte in common with
/// it: eight for a word of a dynamic pointer or an irq flag, sixteen for a
/// dynamic pointer that holds a reference, and what an iterator takes.
pub proof fn law_overlaps_share_a_byte(s: StackView, off: i64, size: i64, i: int, b: int)
    requires
        size > 0,
        off <= b < off + size,
    ensures
        0 <= i < s.dynptrs.len() && s.dynptrs[i].off <= b < s.dynptrs[i].off + 8
            ==> s.overlaps_dynptr(off, size),
        0 <= i < s.dynptrs.len() && s.dynptrs[i].first && s.dynptrs[i].ref_id is Some
            && s.dynptrs[i].off <= b < s.dynptrs[i].off + 16 ==> s.overlaps_referenced_dynptr(
            off,
            size,
        ),
        0 <= i < s.irq_flags.len() && s.irq_flags[i] <= b < s.irq_flags[i] + 8
            ==> s.overlaps_irq_flag(off, size),
        0 <= i < s.iters.len() && s.iters[i].off <= b < s.iters[i].off + 8 ==> s.overlaps_iterator(
            off,
            size,
        ),
        0 <= i < s.iters.len() && s.iters[i].kind is Task && s.iters[i].off <= b < s.iters[i].off
            + 40 ==> s.overlaps_iterator(off, size),
        0 <= i < s.iters.len() && s.iters[i].kind is Css && s.iters[i].off <= b < s.iters[i].off
            + 24 ==> s.overlaps_iterator(off, size),
        0 <= i < s.iters.len() && (s.iters[i].kind is Bits || s.iters[i].kind is TestmodSeq)
            && s.iters[i].off <= b < s.iters[i].off + 16 ==> s.overlaps_iterator(off, size),
{
}

/// An access that overlaps nothing that is kept is reported as such.
pub proof fn law_free_bytes_overlap_nothing(s: StackView, off: i64, size: i64)
    requires
        forall|i: int|
            0 <= i < s.dynptrs.len() ==> off + size <= (#[trigger] s.dynptrs[i]).off || off
                >= s.dynptrs[i].off + 16,
        forall|i: int|
            0 <= i < s.irq_flags.len() ==> off + size <= (#[trigger] s.irq_flags[i]) || off
                >= s.irq_flags[i] + 8,
        forall|i: int|
            0 <= i < s.iters.len() ==> off + size <= (#[trigger] s.iters[i]).off || off
                >= s.iters[i].off + 40,
    ensures
        !s.overlaps_dynptr(off, size),
        !s.overlaps_referenced_dynptr(off, size),
        !s.overlaps_irq_flag(off, size),
        !s.overlaps_iterator(off, size),
{
}

/// A run of bytes that became numbers holds numbers, and no other byte changed.
pub proof fn law_written_runs_hold_numbers(s: StackView, off: i16, from: int, to: int, k: int)
    requires
        0 <= from <= to <= 64,
        -0x4000 <= off <= 0x4000,
        -0x8000 <= k <= 0x7FFF,
    ensures
        off + from <= k < off + to ==> s.retype_run(off, from, to).slots.dom().contains(k as i16)
            && s.retype_run(off, from, to).slots[k as i16].ty is ScalarValue,
        !(off + from <= k < off + to) ==> s.retype_run(off, from, to).slot_at(k as i16)
            == s.slot_at(k as i16),
        s.retype_run(off, from, to).dynptrs == s.dynptrs,
        s.retype_run(off, from, to).iters == s.iters,
        s.retype_run(off, from, to).irq_flags == s.irq_flags,
    decreases to - from,
{
    if from < to {
        law_written_runs_hold_numbers(s, off, from, to - 1, k);
    }
}

/// The same for a run of any length.
pub proof fn law_filled_runs_hold_numbers(s: StackView, off: i64, n: int, k: int)
    requires
        0 <= n <= 0x4000,
        -0x4000 <= off <= 0x3FFF,
        -0x8000 <= k <= 0x7FFF,
    ensures
        off <= k < off + n ==> s.scalar_run(off, n).slots.dom().contains(k as i16) && s.scalar_run(
            off,
            n,
        ).slots[k as i16].ty is ScalarValue,
        !(off <= k < off + n) ==> s.scalar_run(off, n).slot_at(k as i16) == s.slot_at(k as i16),
    decreases n,
{
    if n > 0 {
        law_filled_runs_hold_numbers(s, off, n - 1, k);
    }
}

/// Of bytes that may have been written nothing is known any more; bytes that
/// were never written stay so, and bytes outside the run keep what is known.
pub proof fn law_blurred_runs_say_nothing(s: StackView, from: int, to: int, k: int)
    requires
        -0x8000 <= from,
        to <= 0x7FFF,
        -0x8000 <= k <= 0x7FFF,
    ensures
        s.blur_run(from, to).slots.dom().contains(k as i16) <==> s.slots.dom().contains(k as i16),
        from <= k < to && s.slots.dom().contains(k as i16) ==> says_nothing(
            s.blur_run(from, to).slots[k as i16],
        ),
        !(from <= k < to) ==> s.blur_run(from, to).slot_at(k as i16) == s.slot_at(k as i16),
    decreases to - from,
{
    if from < to {
        law_blurred_runs_say_nothing(s, from, to - 1, k);
    }
}

/// The same for single bytes.
pub proof fn law_blurred_bytes_say_nothing(s: StackView, offs: Seq<i16>, k: i16)
    ensures
        s.blur_all(offs).slots.dom().contains(k) <==> s.slots.dom().contains(k),
        offs.contains(k) && s.slots.dom().contains(k) ==> says_nothing(s.blur_all(offs).slots[k]),
        !offs.contains(k) ==> s.blur_all(offs).slot_at(k) == s.slot_at(k),
    decreases offs.len(),
{
    if offs.len() > 0 {
        let rest = offs.drop_last();
        law_blurred_bytes_say_nothing(s, rest, k);
        assert(offs[offs.len() - 1] == offs.last());
        if rest.contains(k) {
            let i = choose|i: int| 0 <= i < rest.len() && rest[i] == k;
            assert(offs[i] == k);
        }
        if offs.contains(k) && offs.last() != k {
            let i = choose|i: int| 0 <= i < offs.len() && offs[i] == k;
            assert(rest[i] == k);
        }
    }
}

/// Of bytes that changed since they were last looked at nothing is known; what
/// did not change is kept.
pub proof fn law_changed_bytes_say_nothing(s: StackView, snap: StackView, k: i16)
    requires
        s.slots.dom().contains(k),
    ensures
        s.blur_changed(snap).slots.dom().contains(k),
        !snap.slots.dom().contains(k) || snap.slots[k].lo != s.slots[k].lo || snap.slots[k].hi
            != s.slots[k].hi || snap.slots[k].tnum != s.slots[k].tnum || snap.slots[k].size
            != s.slots[k].size || snap.slots[k].source_reg != s.slots[k].source_reg ==> says_nothing(
            s.blur_changed(snap).slots[k],
        ),
        snap.slots.dom().contains(k) && snap.slots[k] == s.slots[k] ==> s.blur_changed(
            snap,
        ).slots[k] == s.slots[k],
        s.slots[k].ty is ScalarValue && snap.slots.dom().contains(k) && snap.slots[k].ty
            is PtrToStack ==> says_nothing(s.blur_changed(snap).slots[k]),
{
}

/// The dynamic pointers that a write meets are those that have a byte of their
/// sixteen in common with it.
pub proof fn law_met_dynamic_pointers_are_found(
    s: Seq<DynptrSlot>,
    off: i64,
    size: i64,
    at: i16,
    id: u32,
)
    ensures
        touched(s, off, size).contains((at, id)) <==> exists|i: int|
            0 <= i < s.len() && (#[trigger] s[i]).first && s[i].off == at && s[i].dynptr_id == id
                && off < s[i].off + 16 && s[i].off < off + size,
    decreases s.len(),
{
    if s.len() > 0 {
        let rest = s.drop_last();
        law_met_dynamic_pointers_are_found(rest, off, size, at, id);
        let w = s.last();
        assert(s[s.len() - 1] == w);
        let t = touched(rest, off, size);
        let u = t.push((w.off, w.dynptr_id));
        assert(u[u.len() - 1] == (w.off, w.dynptr_id));
        if t.contains((at, id)) {
            let i = choose|i: int| 0 <= i < t.len() && t[i] == (at, id);
            assert(u[i] == (at, id));
            let j = choose|j: int|
                0 <= j < rest.len() && (#[trigger] rest[j]).first && rest[j].off == at
                    && rest[j].dynptr_id == id && off < rest[j].off + 16 && rest[j].off < off
                    + size;
            assert(s[j] == rest[j]);
        }
        if touched(s, off, size).contains((at, id)) && !t.contains((at, id)) {
            let i = choose|i: int|
                0 <= i < touched(s, off, size).len() && touched(s, off, size)[i] == (at, id);
            if i < t.len() {
                assert(t[i] == (at, id));
            }
        }
        if exists|i: int|
            0 <= i < s.len() && (#[trigger] s[i]).first && s[i].off == at && s[i].dynptr_id == id
                && off < s[i].off + 16 && s[i].off < off + size {
            let i = choose|i: int|
                0 <= i < s.len() && (#[trigger] s[i]).first && s[i].off == at && s[i].dynptr_id
                    == id && off < s[i].off + 16 && s[i].off < off + size;
            if i < rest.len() {
                assert(rest[i] == s[i]);
            }
        }
    }
}

/// A dynamic pointer that was cleared is gone, and the others are kept.
pub proof fn law_cleared_dynamic_pointers_are_gone(s: Seq<DynptrSlot>, off: i16, w: DynptrSlot)
    ensures
        words_without(s, off).contains(w) <==> s.contains(w) && w.off != off,
    decreases s.len(),
{
    if s.len() > 0 {
        let rest = s.drop_last();
        law_cleared_dynamic_pointers_are_gone(rest, off, w);
        let l = s.last();
        assert(s[s.len() - 1] == l);
        let t = words_without(rest, off);
        let u = t.push(l);
        assert(u[u.len() - 1] == l);
        if rest.contains(w) {
            let i = choose|i: int| 0 <= i < rest.len() && rest[i] == w;
            assert(s[i] == w);
        }
        if t.contains(w) {
            let i = choose|i: int| 0 <= i < t.len() && t[i] == w;
            assert(u[i] == w);
        }
        if u.contains(w) && w != l {
            let i = choose|i: int| 0 <= i < u.len() && u[i] == w;
            assert(t[i] == w);
        }
        if s.contains(w) && w != l {
            let i = choose|i: int| 0 <= i < s.len() && s[i] == w;
            assert(rest[i] == w);
        }
    }
}

/// The dynamic pointers into the packet are those to buffers of the network
/// stack and to frames of a driver.
pub proof fn law_packet_dynamic_pointers_are_found(s: Seq<DynptrSlot>, id: u32)
    ensures
        packet_ids(s).contains(id) <==> exists|i: int|
            0 <= i < s.len() && (#[trigger] s[i]).dynptr_id == id && (s[i].kind is Skb || s[i].kind
                is Xdp),
    decreases s.len(),
{
    if s.len() > 0 {
        let rest = s.drop_last();
        law_packet_dynamic_pointers_are_found(rest, id);
        let w = s.last();
        assert(s[s.len() - 1] == w);
        let t = packet_ids(rest);
        let u = t.push(w.dynptr_id);
        assert(u[u.len() - 1] == w.dynptr_id);
        if t.contains(id) {
            let i = choose|i: int| 0 <= i < t.len() && t[i] == id;
            assert(u[i] == id);
            let j = choose|j: int|
                0 <= j < rest.len() && (#[trigger] rest[j]).dynptr_id == id && (rest[j].kind is Skb
                    || rest[j].kind is Xdp);
            assert(s[j] == rest[j]);
        }
        if packet_ids(s).contains(id) && !t.contains(id) {
            let i = choose|i: int| 0 <= i < packet_ids(s).len() && packet_ids(s)[i] == id;
            if i < t.len() {
                assert(t[i] == id);
            }
        }
        if exists|i: int|
            0 <= i < s.len() && (#[trigger] s[i]).dynptr_id == id && (s[i].kind is Skb || s[i].kind
                is Xdp) {
            let i = choose|i: int|
                0 <= i < s.len() && (#[trigger] s[i]).dynptr_id == id && (s[i].kind is Skb
                    || s[i].kind is Xdp);
            if i < rest.len() {
                assert(rest[i] == s[i]);
            }
        }
    }
}

/// One more than the greatest number of that many bytes.
pub open spec fn bytes_end(size: MemSize) -> int {
    match size {
        MemSize::U8 => 0x100,
        MemSize::U16 => 0x1_0000,
        MemSize::U32 => 0x1_0000_0000,
        MemSize::U64 => 0x1_0000_0000_0000_0000,
    }
}

/// The record of a stored constant holds the number that is loaded back: all
/// its bits if the constant fits the bytes stored, else no more than that it
/// fits them.
pub proof fn law_stored_constants_are_true(k: i64, size: MemSize)
    ensures
        ({
            let r = imm_record(k, size);
            &&& r.size == size
            &&& r.ty is ScalarValue
            &&& r.tnum.mask == 0 || r.tnum.mask == u64::MAX
            &&& !(size is U64) ==> r.lo <= k as int % bytes_end(size) <= r.hi
            &&& size is U64 ==> r.lo <= k <= r.hi
            &&& !(size is U64) && r.tnum.mask == 0 ==> r.tnum.value == k as int % bytes_end(size)
            &&& 0 <= k < bytes_end(size) || size is U64 ==> r.tnum.mask == 0 && r.tnum.value
                == k as u64 && r.lo == k && r.hi == k
            &&& !(size is U64) ==> 0 <= r.lo && r.hi < bytes_end(size)
        }),
{
}

/// A register that is spilled as a whole is recorded with all that is known of
/// it; of a part no more is known than that it fits its bytes.
pub proof fn law_spilled_registers_are_recorded(s: Machine, r: Reg, size: MemSize)
    ensures
        size is U64 ==> ({
            let x = s.spill_record(r, size);
            &&& x.ty == s.types[r.idx() as int]
            &&& x.tnum == s.tnums[r.idx() as int]
            &&& (x.lo, x.hi) == s.domain.range(r)
            &&& x.source_reg == Some(r)
            &&& x.size is U64
        }),
        !(size is U64) ==> ({
            let x = s.spill_record(r, size);
            &&& x.ty is ScalarValue
            &&& x.tnum.mask == u64::MAX
            &&& x.lo == 0
            &&& x.hi == bytes_end(size) - 1
            &&& x.source_reg is None
            &&& x.size == size
        }),
{
}

/// A whole slot is loaded back as one only by a load of its size, and only if
/// it holds a spilled register or a constant.
pub proof fn law_filled_registers_are_true(s: Machine, r: Reg, off: i16, size: MemSize)
    requires
        s.types.len() == 15,
        s.tnums.len() == 15,
        0 < s.frames.len() <= 8,
        s.can_fill(s.level(), off, size),
    ensures
        ({
            let x = s.frames.last().stack.slots[off];
            let t = s.filled(s.level(), r, off);
            &&& s.frames.last().stack.slots.dom().contains(off)
            &&& x.size == size
            &&& x.source_reg is Some || x.tnum.mask == 0
            &&& t.types[r.idx() as int] == x.ty
            &&& t.tnums[r.idx() as int] == x.tnum
            &&& t.domain == s.domain.assign_interval(r, x.lo, x.hi)
        }),
{
}

/// A frame is as deep as the deepest access through its frame pointer.
pub proof fn law_frames_are_as_deep_as_used(s: Machine, off: i16)
    requires
        s.frames.len() > 0,
    ensures
        ({
            let f = s.frames.last();
            let t = s.deepen(off);
            &&& t.frames.len() == s.frames.len()
            &&& t.frames.last().depth >= f.depth
            &&& t.frames.last().depth >= -off
            &&& t.frames.last().depth == f.depth || t.frames.last().depth == -off
            &&& t.frames.last().stack == f.stack
            &&& t.frames.drop_last() == s.frames.drop_last()
        }),
{
    assert(s.deepen(off).frames.drop_last() =~= s.frames.drop_last());
}

/// The depth of a stack is the sum of its frames' depths.
pub proof fn law_depths_add_up(frames: Seq<FrameView>, f: FrameView)
    ensures
        depth_sum(Seq::<FrameView>::empty()) == 0,
        depth_sum(frames.push(f)) == depth_sum(frames) + f.depth,
{
    assert(frames.push(f).drop_last() =~= frames);
}

} // verus!
