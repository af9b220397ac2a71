//! What branches and arithmetic make of pointers.
use crate::ast::instr::Instr;
use crate::ast::{AluOp, CmpOp, Operand, Width};
use crate::domains::numeric::Numeric;
use crate::machine::env::{EnvConfig, EnvView};
use crate::machine::reg::Reg;
use crate::machine::reg_types::RegType;
use crate::machine::state::{ids_without, Machine};
use crate::transfer::access::load_checked;
use crate::transfer::exits::{lemma_faults_are_heard, silent};
use crate::transfer::refinement::branch_refined;
use crate::transfer::types::alu_type;
use vstd::prelude::*;

verus! {

/// Whether 0 compared with 0 takes the jump.
pub open spec fn null_jumps(op: CmpOp) -> bool {
    match op {
        CmpOp::Eq => true,
        CmpOp::ULe => true,
        CmpOp::SLe => true,
        CmpOp::UGe => true,
        CmpOp::SGe => true,
        CmpOp::Ne => false,
        CmpOp::ULt => false,
        CmpOp::SLt => false,
        CmpOp::UGt => false,
        CmpOp::SGt => false,
        CmpOp::Test => false,
    }
}

/// The comparisons with 0 of which a null pointer takes one path only.
pub open spec fn tells_null(op: CmpOp) -> bool {
    !(op is UGe || op is SGe || op is ULt || op is SLt)
}

/// A pointer to a map's value that may be null is known not to be on the path
/// that a null pointer does not take, and stays as it is on the other.
pub proof fn law_null_checks_tell_null(
    s: Machine,
    i: Instr,
    branch_taken: bool,
    op: CmpOp,
    reg: Reg,
    id: u32,
    m: usize,
)
    requires
        s.types.len() == 15,
        i matches Instr::If { op: o, left, right, .. } && o == op && left == reg && right
            == Operand::Imm(0),
        tells_null(op),
        s.ty(reg) matches RegType::PtrToMapValueOrNull { id: k, map_idx, .. } && k == id && map_idx
            == m,
    ensures
        branch_taken != null_jumps(op) ==> (branch_refined(s, i, branch_taken).ty(
            reg,
        ) matches RegType::PtrToMapValue { id: k, map_idx, offset, .. } && k == id && map_idx == m
            && offset == Some(0i64)),
        branch_taken == null_jumps(op) ==> branch_refined(s, i, branch_taken).ty(reg) == s.ty(reg),
{
}

/// Copies of a checked pointer are checked with it, in registers and on every
/// stack; pointers from other lookups are not.
pub proof fn law_copies_are_checked_together(
    s: Machine,
    i: Instr,
    branch_taken: bool,
    op: CmpOp,
    reg: Reg,
    id: u32,
    k: int,
    f: int,
    off: i16,
)
    requires
        s.types.len() == 15,
        0 <= k < 15,
        i matches Instr::If { op: o, left, right, .. } && o == op && left == reg && right
            == Operand::Imm(0),
        tells_null(op),
        branch_taken != null_jumps(op),
        s.ty(reg) matches RegType::PtrToMapValueOrNull { id: j, .. } && j == id,
        0 <= f < s.frames.len(),
        s.frames[f].stack.slots.dom().contains(off),
    ensures
        ({
            let t = branch_refined(s, i, branch_taken);
            &&& s.types[k] matches RegType::PtrToMapValueOrNull { id: j, .. } ==> (t.types[k]
                is PtrToMapValue <==> j == id)
            &&& !(s.types[k] is PtrToMapValueOrNull) ==> t.types[k] == s.types[k]
            &&& s.frames[f].stack.slots[off].ty matches RegType::PtrToMapValueOrNull { id: j, .. }
                ==> (t.frames[f].stack.slots[off].ty is PtrToMapValue <==> j == id)
            &&& !(s.frames[f].stack.slots[off].ty is PtrToMapValueOrNull)
                ==> t.frames[f].stack.slots[off] == s.frames[f].stack.slots[off]
        }),
{
    let t = branch_refined(s, i, branch_taken);
    assert(t.frames[f].stack.slots.dom().contains(off));
}

/// A socket that may be missing is there on the path that a null pointer does
/// not take, under the reference it has. On the other path it is a number, and
/// its reference is not held any more.
pub proof fn law_missing_sockets_are_told(
    s: Machine,
    i: Instr,
    branch_taken: bool,
    op: CmpOp,
    reg: Reg,
    r: Option<u32>,
)
    requires
        s.types.len() == 15,
        0 < s.frames.len() <= 8,
        i matches Instr::If { op: o, left, right, .. } && o == op && left == reg && right
            == Operand::Imm(0),
        tells_null(op),
    ensures
        ({
            let t = branch_refined(s, i, branch_taken);
            let found = branch_taken != null_jumps(op);
            &&& s.ty(reg) == (RegType::PtrToSocketOrNull { ref_id: r }) ==> t.ty(reg) == if found {
                RegType::PtrToSocket { ref_id: r }
            } else {
                RegType::ScalarValue
            }
            &&& s.ty(reg) == (RegType::PtrToSockCommonOrNull { ref_id: r }) ==> t.ty(reg)
                == if found {
                RegType::PtrToSockCommon { ref_id: r }
            } else {
                RegType::ScalarValue
            }
            &&& s.ty(reg) == (RegType::PtrToTcpSockOrNull { id: r }) ==> t.ty(reg) == if found {
                RegType::PtrToTcpSock { id: r }
            } else {
                RegType::ScalarValue
            }
            &&& found ==> t.refs == s.refs
            &&& !found && (s.ty(reg) is PtrToSocketOrNull || s.ty(reg) is PtrToSockCommonOrNull)
                && s.ty(reg).get_ref_id() == r ==> (r matches Some(id) ==> t.refs == ids_without(
                s.refs,
                id,
            ))
        }),
{
}

/// Comparisons with other numbers or registers say nothing of null, and what is
/// no pointer that may be null stays as it is.
pub proof fn law_other_comparisons_tell_nothing(s: Machine, i: Instr, branch_taken: bool, k: int)
    requires
        s.types.len() == 15,
        0 <= k < 15,
        0 < s.frames.len() <= 8,
    ensures
        !(i matches Instr::If { right, .. } && right == Operand::Imm(0)) ==> branch_refined(
            s,
            i,
            branch_taken,
        ) == s,
        !(s.types[k] is PtrToMapValueOrNull || s.types[k] is PtrToSocketOrNull || s.types[k]
            is PtrToSockCommonOrNull || s.types[k] is PtrToTcpSockOrNull) ==> branch_refined(
            s,
            i,
            branch_taken,
        ).types[k] == s.types[k],
        branch_refined(s, i, branch_taken).domain == s.domain,
        branch_refined(s, i, branch_taken).pc == s.pc,
{
}

/// What the operand of arithmetic adds, if it is known.
pub open spec fn known_operand(d: Numeric, src: Operand) -> Option<i64> {
    match src {
        Operand::Imm(k) => Some(k),
        Operand::Reg(r) => d.fixed(r),
    }
}

/// A result of 32 bits is a number, and so is the result of any operation on
/// pointers but moves, sums and differences. A move of a register keeps its
/// type.
pub proof fn law_only_moves_and_sums_keep_pointers(
    cfg: EnvConfig,
    id: u32,
    in_types: Seq<RegType>,
    cur: RegType,
    d: Numeric,
    width: Width,
    op: AluOp,
    dst: Reg,
    src: Operand,
    pc: usize,
)
    requires
        !cfg.arena_cast_pcs@.contains(pc),
    ensures
        ({
            let t = alu_type(cfg, id, in_types, cur, d, width, op, dst, src, pc);
            let old_type = in_types[dst.idx() as int];
            &&& width is W32 ==> t is ScalarValue
            &&& !(op is Mov || op is Add || op is Sub) && !(old_type is PtrToArena) ==> t
                is ScalarValue
            &&& width is W64 && op is Mov ==> (src matches Operand::Reg(r) ==> t
                == in_types[r.idx() as int])
            &&& op is Mov && src is Imm && cfg.ctx.relocs@.len() == 0 ==> t is ScalarValue
            &&& width is W64 && (op is Add || op is Sub) && (old_type is ScalarValue) && src is Imm
                ==> t is ScalarValue
            &&& width is W64 && op is Sub && !old_type.is_pointer() ==> t is ScalarValue
        }),
{
}

/// Pointers that may be null, to the end of the packet, to sockets, tasks and
/// functions are not moved; the context only by 0.
pub proof fn law_fixed_pointers_are_not_moved(
    cfg: EnvConfig,
    id: u32,
    in_types: Seq<RegType>,
    cur: RegType,
    d: Numeric,
    op: AluOp,
    dst: Reg,
    src: Operand,
    pc: usize,
)
    requires
        op is Add || op is Sub,
    ensures
        ({
            let t = alu_type(cfg, id, in_types, cur, d, Width::W64, op, dst, src, pc);
            let old_type = in_types[dst.idx() as int];
            &&& crate::transfer::safety::never_dereferenced(old_type) && old_type.is_pointer()
                ==> t is ScalarValue
            &&& old_type is PtrToSocket || old_type is PtrToSockCommon || old_type is PtrToTcpSock
                || old_type is PtrToTask || old_type is PtrToCgroup || old_type is PtrToCpumask
                ==> t is ScalarValue
            &&& old_type is PtrToCtx ==> if known_operand(d, src) == Some(0i64) {
                t is PtrToCtx
            } else {
                t is ScalarValue
            }
            &&& old_type is PtrToStack ==> t == old_type
        }),
{
}

/// A pointer into a map's value moves by a known number, forwards by a sum and
/// backwards by a difference; by an unknown number, it is somewhere in the
/// value.
pub proof fn law_map_pointers_move(
    cfg: EnvConfig,
    id: u32,
    in_types: Seq<RegType>,
    cur: RegType,
    d: Numeric,
    op: AluOp,
    dst: Reg,
    src: Operand,
    pc: usize,
    at: Option<i64>,
    m: usize,
)
    requires
        op is Add || op is Sub,
        in_types[dst.idx() as int] matches RegType::PtrToMapValue { offset, map_idx, .. } && offset
            == at && map_idx == m,
    ensures
        alu_type(
            cfg,
            id,
            in_types,
            cur,
            d,
            Width::W64,
            op,
            dst,
            src,
            pc,
        ) matches RegType::PtrToMapValue { offset, map_idx, .. } && map_idx == m && match (
            at,
            known_operand(d, src),
        ) {
            (Some(a), Some(x)) => {
                &&& op is Add && i64::MIN <= a + x <= i64::MAX ==> offset == Some((a + x) as i64)
                &&& op is Sub && x != i64::MIN && i64::MIN <= a - x <= i64::MAX ==> offset == Some(
                    (a - x) as i64,
                )
            },
            _ => offset is None,
        },
{
}

/// Moving a pointer into allocated memory by a known number moves what may be
/// loaded through it by that number: a load through the new pointer is let
/// through if it lies in what is left. A pointer that leaves the memory, or
/// moves by an unknown number, cannot be used.
pub proof fn law_moved_memory_is_what_is_left(
    cfg: EnvConfig,
    v: EnvView,
    id: u32,
    in_types: Seq<RegType>,
    cur: RegType,
    d: Numeric,
    dst: Reg,
    src: Operand,
    pc: usize,
    n: u64,
    s: Machine,
    size: i64,
    off: i16,
)
    requires
        in_types[dst.idx() as int] matches RegType::PtrToAllocMem { mem_size, .. } && mem_size == n,
        n <= i64::MAX,
        size > 0,
        s.ty(dst) == alu_type(cfg, id, in_types, cur, d, Width::W64, AluOp::Add, dst, src, pc),
    ensures
        match known_operand(d, src) {
            Some(x) => if 0 <= x <= n {
                silent(v, load_checked(cfg, v, s, dst, size, off)) <==> off >= 0 && x + off + size
                    <= n
            } else {
                s.ty(dst) is ScalarValue
            },
            None => s.ty(dst) is ScalarValue,
        },
{
    lemma_faults_are_heard(v);
}

/// A pointer into the packet stays one when a known number below 65535 is
/// added, and is of no use after a greater one.
pub proof fn law_packet_pointers_move_little(
    cfg: EnvConfig,
    id: u32,
    in_types: Seq<RegType>,
    cur: RegType,
    d: Numeric,
    dst: Reg,
    x: i64,
    pc: usize,
)
    requires
        in_types[dst.idx() as int] is PtrToPacket,
    ensures
        ({
            let t = alu_type(
                cfg,
                id,
                in_types,
                cur,
                d,
                Width::W64,
                AluOp::Add,
                dst,
                Operand::Imm(x),
                pc,
            );
            if x >= 65535 {
                t is ScalarValue
            } else {
                t == cur
            }
        }),
{
}

} // verus!
