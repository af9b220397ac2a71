//! Instructions and their textual form.
use crate::ast::{
    AluOp, AtomicOp, CmpOp, EndianOp, MapLoadKind, MemSize, Operand, PacketLoadMode, SxWidth, Width,
};
use crate::machine::reg::Reg;
use crate::text::{dec, hex, pad_zero, push_dec, push_hex_padded, push_nat};
use std::collections::HashSet;
use vstd::prelude::*;

verus! {

/// What a call instruction calls, other than a function of the program.
#[derive(Clone, Copy, Debug, PartialEq, Eq, Structural)]
pub enum CallKind {
    /// A helper with a fixed number.
    Helper { id: u32 },
    /// A kernel function, named by its type in the module that `offset`
    /// selects.
    Kfunc { btf_id: u32, offset: i16 },
}

impl CallKind {
    pub open spec fn spec_helper_id(self) -> Option<u32> {
        match self {
            CallKind::Helper { id } => Some(id),
            _ => None,
        }
    }

    /// The number of the helper, if it is one.
    #[verifier::when_used_as_spec(spec_helper_id)]
    pub fn helper_id(self) -> (r: Option<u32>)
        ensures
            r == self.spec_helper_id(),
    {
        match self {
            CallKind::Helper { id } => Some(id),
            _ => None,
        }
    }

    /// Whether a kernel function is called.
    pub fn is_kfunc(self) -> (r: bool)
        ensures
            r == (self is Kfunc),
    {
        matches!(self, CallKind::Kfunc { .. })
    }
}

/// One instruction.
#[allow(inconsistent_fields)]
#[derive(Clone, Copy, Debug, PartialEq, Eq, Structural)]
pub enum Instr {
    /// `dst = dst op src`, or `dst = src`.
    Alu { width: Width, op: AluOp, dst: Reg, src: Operand },
    /// `dst` becomes the low bits of `src`, sign-extended.
    MovSx { width: Width, src_bits: SxWidth, dst: Reg, src: Operand },
    /// Byte order conversion.
    Endian { dst: Reg, width: Width, op: EndianOp, size: u32 },
    /// Conditional jump.
    If { width: Width, left: Reg, op: CmpOp, right: Operand, target: usize },
    /// Jump.
    Jmp { target: usize },
    /// A jump that is taken a bounded number of times.
    MayGoto { target: usize },
    /// `dst = *(base + off)`.
    Load { size: MemSize, dst: Reg, base: Reg, off: i16 },
    /// `dst = *(base + off)`, sign-extended.
    LoadSx { size: MemSize, dst: Reg, base: Reg, off: i16 },
    /// `*(base + off) = src`.
    Store { size: MemSize, base: Reg, off: i16, src: Operand },
    /// A load with acquire ordering.
    LoadAcq { size: MemSize, dst: Reg, base: Reg, off: i16 },
    /// A store with release ordering.
    StoreRel { size: MemSize, base: Reg, off: i16, src: Reg },
    /// An atomic read-modify-write.
    Atomic { op: AtomicOp, size: MemSize, fetch: bool, base: Reg, off: i16, src: Reg },
    /// A call of a helper or a kernel function.
    Call { kind: CallKind },
    /// A call of a function of the program.
    CallRel { target: usize },
    /// A load from the packet.
    LoadPacket { size: MemSize, mode: PacketLoadMode, offset_imm: i32, src: Option<Reg> },
    /// A wide load of a pseudo value.
    LoadMap { dst: Reg, kind: MapLoadKind, map_fd: i32, off: i32 },
    /// Return.
    Exit,
}

/// A program: its instructions, and the positions no jump may go to.
#[derive(Debug)]
pub struct Program {
    pub instrs: Vec<Instr>,
    pub invalid_pc_set: HashSet<usize>,
}

pub open spec fn spec_alu_sign(x: AluOp) -> &'static str {
    match x {
        AluOp::Add => "+",
        AluOp::Sub => "-",
        AluOp::And => "&",
        AluOp::Or => "|",
        AluOp::Xor => "^",
        AluOp::Mov => "=",
        AluOp::Shl => "<<",
        AluOp::Shr => ">>",
        AluOp::Arsh => "s>>",
        AluOp::Mul => "*",
        AluOp::Mod => "%",
        AluOp::Div => "/",
        AluOp::Neg => "-",
        AluOp::Rsh => ">>",
        AluOp::Lsh => "<<",
    }
}

/// The sign of an arithmetic operation.
#[verifier::when_used_as_spec(spec_alu_sign)]
pub fn alu_sign(x: AluOp) -> (r: &'static str)
    ensures
        r == spec_alu_sign(x),
{
    match x {
        AluOp::Add => "+",
        AluOp::Sub => "-",
        AluOp::And => "&",
        AluOp::Or => "|",
        AluOp::Xor => "^",
        AluOp::Mov => "=",
        AluOp::Shl => "<<",
        AluOp::Shr => ">>",
        AluOp::Arsh => "s>>",
        AluOp::Mul => "*",
        AluOp::Mod => "%",
        AluOp::Div => "/",
        AluOp::Neg => "-",
        AluOp::Rsh => ">>",
        AluOp::Lsh => "<<",
    }
}

pub open spec fn spec_condition_sign(x: CmpOp) -> &'static str {
    match x {
        CmpOp::UGe => ">=u",
        CmpOp::ULe => "<=u",
        CmpOp::UGt => ">u",
        CmpOp::ULt => "<u",
        CmpOp::Eq => "==",
        CmpOp::Ne => "!=",
        CmpOp::SLt => "<",
        CmpOp::SGt => ">",
        CmpOp::SLe => "<=",
        CmpOp::SGe => ">=",
        CmpOp::Test => "&",
    }
}

/// The sign of a condition.
#[verifier::when_used_as_spec(spec_condition_sign)]
pub fn condition_sign(x: CmpOp) -> (r: &'static str)
    ensures
        r == spec_condition_sign(x),
{
    match x {
        CmpOp::UGe => ">=u",
        CmpOp::ULe => "<=u",
        CmpOp::UGt => ">u",
        CmpOp::ULt => "<u",
        CmpOp::Eq => "==",
        CmpOp::Ne => "!=",
        CmpOp::SLt => "<",
        CmpOp::SGt => ">",
        CmpOp::SLe => "<=",
        CmpOp::SGe => ">=",
        CmpOp::Test => "&",
    }
}

pub open spec fn spec_atomic_sign(x: AtomicOp) -> &'static str {
    match x {
        AtomicOp::Add => "+",
        AtomicOp::Or => "||",
        AtomicOp::And => "&&",
        AtomicOp::CmpXchg => "cmpxchg",
        AtomicOp::Xor => "^",
        AtomicOp::Xchg => "xchg",
    }
}

/// The sign of an atomic operation.
#[verifier::when_used_as_spec(spec_atomic_sign)]
pub fn atomic_sign(x: AtomicOp) -> (r: &'static str)
    ensures
        r == spec_atomic_sign(x),
{
    match x {
        AtomicOp::Add => "+",
        AtomicOp::Or => "||",
        AtomicOp::And => "&&",
        AtomicOp::CmpXchg => "cmpxchg",
        AtomicOp::Xor => "^",
        AtomicOp::Xchg => "xchg",
    }
}

pub open spec fn spec_unsigned_name(x: MemSize) -> &'static str {
    match x {
        MemSize::U8 => "u8",
        MemSize::U16 => "u16",
        MemSize::U32 => "u32",
        MemSize::U64 => "u64",
    }
}

/// The name of an unsigned type of a size.
#[verifier::when_used_as_spec(spec_unsigned_name)]
pub fn unsigned_name(x: MemSize) -> (r: &'static str)
    ensures
        r == spec_unsigned_name(x),
{
    match x {
        MemSize::U8 => "u8",
        MemSize::U16 => "u16",
        MemSize::U32 => "u32",
        MemSize::U64 => "u64",
    }
}

pub open spec fn spec_signed_name(x: MemSize) -> &'static str {
    match x {
        MemSize::U8 => "s8",
        MemSize::U16 => "s16",
        MemSize::U32 => "s32",
        MemSize::U64 => "s64",
    }
}

/// The name of a signed type of a size.
#[verifier::when_used_as_spec(spec_signed_name)]
pub fn signed_name(x: MemSize) -> (r: &'static str)
    ensures
        r == spec_signed_name(x),
{
    match x {
        MemSize::U8 => "s8",
        MemSize::U16 => "s16",
        MemSize::U32 => "s32",
        MemSize::U64 => "s64",
    }
}

/// The name of a byte order conversion.
pub open spec fn endian_name(op: EndianOp, size: u32) -> Seq<char> {
    match op {
        EndianOp::ToBe => if size == 16 {
            "be16"@
        } else if size == 32 {
            "be32"@
        } else if size == 64 {
            "be64"@
        } else {
            "unknown"@
        },
        EndianOp::ToLe => if size == 16 {
            "le16"@
        } else if size == 32 {
            "le32"@
        } else if size == 64 {
            "le64"@
        } else {
            "unknown"@
        },
        EndianOp::Bswap => "unknown"@,
    }
}

fn endian_text(op: EndianOp, size: u32) -> (r: &'static str)
    ensures
        r@ == endian_name(op, size),
{
    match (op, size) {
        (EndianOp::ToBe, 16) => "be16",
        (EndianOp::ToBe, 32) => "be32",
        (EndianOp::ToBe, 64) => "be64",
        (EndianOp::ToLe, 16) => "le16",
        (EndianOp::ToLe, 32) => "le32",
        (EndianOp::ToLe, 64) => "le64",
        _ => "unknown",
    }
}

/// An operand: a register's name, or sixteen hexadecimal digits.
pub open spec fn operand_text(x: Operand) -> Seq<char> {
    match x {
        Operand::Reg(r) => r.name()@,
        Operand::Imm(i) => "0x"@ + pad_zero(hex(i as u64 as nat), 16),
    }
}

/// A destination: `w` or `r` and the register's name after its first
/// character.
pub open spec fn target_text(width: Width, dst: Reg) -> Seq<char> {
    match width {
        Width::W32 => "w"@ + dst.name()@.skip(1),
        Width::W64 => "r"@ + dst.name()@.skip(1),
    }
}

/// `*(ty *)(base + off)`.
pub open spec fn place_text(ty: Seq<char>, base: Reg, off: i16) -> Seq<char> {
    "*("@ + ty + " *)("@ + base.name()@ + " + "@ + dec(off as int) + ")"@
}

/// An instruction as it is shown.
pub open spec fn instr_text(i: Instr) -> Seq<char> {
    match i {
        Instr::Alu { width, op, dst, src } => if op == AluOp::Mov {
            target_text(width, dst) + " = "@ + operand_text(src)
        } else {
            target_text(width, dst) + " = "@ + dst.name()@ + " "@ + alu_sign(op)@ + " "@
                + operand_text(src)
        },
        Instr::MovSx { width, src_bits, dst, src } => {
            target_text(width, dst) + " = (s"@ + dec(src_bits.bits() as int) + ") "@
                + operand_text(src)
        },
        Instr::Endian { dst, width, op, size } => {
            dst.name()@ + " = endian_"@ + endian_name(op, size)
        },
        Instr::If { width, left, op, right, target } => {
            "if "@ + left.name()@ + " "@ + condition_sign(op)@ + (match width {
                Width::W32 => "32"@,
                Width::W64 => "64"@,
            }) + " "@ + operand_text(right) + " goto "@ + dec(target as int)
        },
        Instr::Jmp { target } => "goto "@ + dec(target as int),
        Instr::MayGoto { target } => "may_goto "@ + dec(target as int),
        Instr::Load { size, dst, base, off } => {
            dst.name()@ + " = "@ + place_text(unsigned_name(size)@, base, off)
        },
        Instr::LoadSx { size, dst, base, off } => {
            dst.name()@ + " = "@ + place_text(signed_name(size)@, base, off)
        },
        Instr::Store { size, base, off, src } => {
            place_text(unsigned_name(size)@, base, off) + " = "@ + operand_text(src)
        },
        Instr::LoadAcq { size, dst, base, off } => {
            dst.name()@ + " = load_acquire "@ + place_text(unsigned_name(size)@, base, off)
        },
        Instr::StoreRel { size, base, off, src } => {
            "store_release "@ + place_text(unsigned_name(size)@, base, off) + " = "@ + src.name()@
        },
        Instr::Atomic { op, size, fetch, base, off, src } => {
            "lock *("@ + unsigned_name(size)@ + " *)("@ + base.name()@ + " "@ + atomic_sign(op)@
                + " "@ + dec(off as int) + ") += "@ + src.name()@
        },
        Instr::Call { kind } => match kind {
            CallKind::Helper { id } => "call "@ + dec(id as int),
            CallKind::Kfunc { btf_id, offset } => "call kfunc #"@ + dec(offset as int) + ":"@
                + dec(btf_id as int),
        },
        Instr::CallRel { target } => "call "@ + dec(target as int),
        Instr::LoadPacket { .. } => "ld_abs or ld_ind"@,
        Instr::LoadMap { map_fd, .. } => "load map "@ + dec(map_fd as int),
        Instr::Exit => "exit"@,
    }
}

fn push_operand(out: &mut String, x: Operand)
    ensures
        final(out)@ == old(out)@ + operand_text(x),
{
    match x {
        Operand::Reg(r) => {
            out.append(r.name());
        },
        Operand::Imm(i) => {
            out.append("0x");
            push_hex_padded(out, i as u64, 16);
            assert(out@ =~= old(out)@ + operand_text(x));
        },
    }
}

fn push_target(out: &mut String, width: Width, dst: Reg)
    ensures
        final(out)@ == old(out)@ + target_text(width, dst),
{
    match width {
        Width::W32 => out.append("w"),
        Width::W64 => out.append("r"),
    }
    proof {
        reveal_strlit("0");
        reveal_strlit("r0");
        reveal_strlit("r1");
        reveal_strlit("r2");
        reveal_strlit("r3");
        reveal_strlit("r4");
        reveal_strlit("r5");
        reveal_strlit("r6");
        reveal_strlit("r7");
        reveal_strlit("r8");
        reveal_strlit("r9");
        reveal_strlit("r10");
        reveal_strlit("@data_meta");
        reveal_strlit("@data");
        reveal_strlit("@data_end");
    }
    let name = dst.name();
    let n: usize = name.unicode_len();
    let tail = name.substring_char(1, n);
    assert(tail@ =~= name@.skip(1));
    out.append(tail);
    assert(out@ =~= old(out)@ + target_text(width, dst));
}

fn push_place(out: &mut String, ty: &str, base: Reg, off: i16)
    ensures
        final(out)@ == old(out)@ + place_text(ty@, base, off),
{
    out.append("*(");
    out.append(ty);
    out.append(" *)(");
    out.append(base.name());
    out.append(" + ");
    push_dec(out, off as i64);
    out.append(")");
    assert(out@ =~= old(out)@ + place_text(ty@, base, off));
}

impl Instr {
    /// The instruction as text.
    pub fn to_text(&self) -> (r: String)
        ensures
            r@ == instr_text(*self),
    {
        let mut out = String::new();
        match *self {
            Instr::Alu { width, op, dst, src } => {
                push_target(&mut out, width, dst);
                out.append(" = ");
                if op != AluOp::Mov {
                    out.append(dst.name());
                    out.append(" ");
                    out.append(alu_sign(op));
                    out.append(" ");
                }
                push_operand(&mut out, src);
            },
            Instr::MovSx { width, src_bits, dst, src } => {
                push_target(&mut out, width, dst);
                out.append(" = (s");
                push_nat(&mut out, src_bits.bits() as u64);
                out.append(") ");
                push_operand(&mut out, src);
            },
            Instr::Endian { dst, width: _, op, size } => {
                out.append(dst.name());
                out.append(" = endian_");
                out.append(endian_text(op, size));
            },
            Instr::If { width, left, op, right, target } => {
                out.append("if ");
                out.append(left.name());
                out.append(" ");
                out.append(condition_sign(op));
                match width {
                    Width::W32 => out.append("32"),
                    Width::W64 => out.append("64"),
                }
                out.append(" ");
                push_operand(&mut out, right);
                out.append(" goto ");
                push_nat(&mut out, target as u64);
            },
            Instr::Jmp { target } => {
                out.append("goto ");
                push_nat(&mut out, target as u64);
            },
            Instr::MayGoto { target } => {
                out.append("may_goto ");
                push_nat(&mut out, target as u64);
            },
            Instr::Load { size, dst, base, off } => {
                out.append(dst.name());
                out.append(" = ");
                push_place(&mut out, unsigned_name(size), base, off);
            },
            Instr::LoadSx { size, dst, base, off } => {
                out.append(dst.name());
                out.append(" = ");
                push_place(&mut out, signed_name(size), base, off);
            },
            Instr::Store { size, base, off, src } => {
                push_place(&mut out, unsigned_name(size), base, off);
                out.append(" = ");
                push_operand(&mut out, src);
            },
            Instr::LoadAcq { size, dst, base, off } => {
                out.append(dst.name());
                out.append(" = load_acquire ");
                push_place(&mut out, unsigned_name(size), base, off);
            },
            Instr::StoreRel { size, base, off, src } => {
                out.append("store_release ");
                push_place(&mut out, unsigned_name(size), base, off);
                out.append(" = ");
                out.append(src.name());
            },
            Instr::Atomic { op, size, fetch: _, base, off, src } => {
                out.append("lock *(");
                out.append(unsigned_name(size));
                out.append(" *)(");
                out.append(base.name());
                out.append(" ");
                out.append(atomic_sign(op));
                out.append(" ");
                push_dec(&mut out, off as i64);
                out.append(") += ");
                out.append(src.name());
            },
            Instr::Call { kind } => match kind {
                CallKind::Helper { id } => {
                    out.append("call ");
                    push_nat(&mut out, id as u64);
                },
                CallKind::Kfunc { btf_id, offset } => {
                    out.append("call kfunc #");
                    push_dec(&mut out, offset as i64);
                    out.append(":");
                    push_nat(&mut out, btf_id as u64);
                },
            },
            Instr::CallRel { target } => {
                out.append("call ");
                push_nat(&mut out, target as u64);
            },
            Instr::LoadPacket { .. } => {
                out.append("ld_abs or ld_ind");
            },
            Instr::LoadMap { map_fd, .. } => {
                out.append("load map ");
                push_dec(&mut out, map_fd as i64);
            },
            Instr::Exit => {
                out.append("exit");
            },
        }
        assert(out@ =~= instr_text(*self));
        out
    }
}

} // verus!
