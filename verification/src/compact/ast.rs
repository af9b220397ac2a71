//! The instructions that the compact analyzer understands.
use crate::ast::{MemSize, Width};
use crate::compact::domain::Reg;
use crate::text::{push_dec, push_nat};
use vstd::prelude::*;

verus! {

/// A value an instruction works on.
#[derive(Clone, Copy, Debug, PartialEq, Eq, Structural)]
pub enum Operand {
    Reg(Reg),
    Imm(i64),
}

/// Arithmetic operations.
#[derive(Clone, Copy, Debug, PartialEq, Eq, Structural)]
pub enum AluOp {
    Add,
    Sub,
    And,
    Or,
    Xor,
    Mov,
    Shl,
    Shr,
    Arsh,
    Mul,
    Mod,
}

/// Conditions of a jump. Orders are those of unsigned numbers.
#[derive(Clone, Copy, Debug, PartialEq, Eq, Structural)]
pub enum CmpOp {
    UGe,
    ULe,
    UGt,
    ULt,
    Eq,
    Ne,
}

/// Widths of a conversion to big-endian order.
#[derive(Clone, Copy, Debug, PartialEq, Eq, Structural)]
pub enum EndianKind {
    Be16,
    Be32,
    Be64,
}

/// Where a program is attached.
#[derive(Clone, Copy, Debug, PartialEq, Eq, Structural)]
pub enum ProgramKind {
    Tc,
    Xdp,
}

/// One instruction.
#[allow(inconsistent_fields)]
#[derive(Clone, Copy, Debug, PartialEq, Eq, Structural)]
pub enum Instr {
    /// `dst` becomes the program's argument.
    MovArg0 { dst: Reg },
    /// `dst = dst op src`, or `dst = src`.
    Alu { width: Width, op: AluOp, dst: Reg, src: Operand },
    /// Byte order conversion.
    Endian { dst: Reg, kind: EndianKind },
    /// Conditional jump.
    If { width: Width, left: Reg, op: CmpOp, right: Operand, target: usize },
    /// Jump.
    Jmp { target: usize },
    /// `dst = *(base + off)`.
    Load { size: MemSize, dst: Reg, base: Reg, off: i16 },
    /// `*(base + off) = src`.
    Store { size: MemSize, base: Reg, off: i16, src: Reg },
    /// A call of a helper.
    Call { helper: u32 },
    /// Return.
    Exit,
}

/// A program.
#[derive(Debug)]
pub struct Program {
    pub instrs: Vec<Instr>,
}

pub open spec fn spec_alu_sign(op: AluOp) -> &'static str {
    match op {
        AluOp::Add => "+",
        AluOp::Sub => "-",
        AluOp::And => "&",
        AluOp::Or => "|",
        AluOp::Xor => "^",
        AluOp::Mov => "=",
        AluOp::Shl => "<<",
        AluOp::Shr => ">>",
        AluOp::Arsh => "s>>",
        AluOp::Mul => "*",
        AluOp::Mod => "%",
    }
}

/// The sign of an arithmetic operation.
#[verifier::when_used_as_spec(spec_alu_sign)]
pub fn alu_sign(op: AluOp) -> (r: &'static str)
    ensures
        r == spec_alu_sign(op),
{
    match op {
        AluOp::Add => "+",
        AluOp::Sub => "-",
        AluOp::And => "&",
        AluOp::Or => "|",
        AluOp::Xor => "^",
        AluOp::Mov => "=",
        AluOp::Shl => "<<",
        AluOp::Shr => ">>",
        AluOp::Arsh => "s>>",
        AluOp::Mul => "*",
        AluOp::Mod => "%",
    }
}

pub open spec fn spec_condition_sign(op: CmpOp) -> &'static str {
    match op {
        CmpOp::UGe => ">=u",
        CmpOp::ULe => "<=u",
        CmpOp::UGt => ">u",
        CmpOp::ULt => "<u",
        CmpOp::Eq => "==",
        CmpOp::Ne => "!=",
    }
}

/// The sign of a condition.
#[verifier::when_used_as_spec(spec_condition_sign)]
pub fn condition_sign(op: CmpOp) -> (r: &'static str)
    ensures
        r == spec_condition_sign(op),
{
    match op {
        CmpOp::UGe => ">=u",
        CmpOp::ULe => "<=u",
        CmpOp::UGt => ">u",
        CmpOp::ULt => "<u",
        CmpOp::Eq => "==",
        CmpOp::Ne => "!=",
    }
}

pub open spec fn spec_endian_name(kind: EndianKind) -> &'static str {
    match kind {
        EndianKind::Be16 => "be16",
        EndianKind::Be32 => "be32",
        EndianKind::Be64 => "be64",
    }
}

/// The name of a byte order conversion.
#[verifier::when_used_as_spec(spec_endian_name)]
pub fn endian_name(kind: EndianKind) -> (r: &'static str)
    ensures
        r == spec_endian_name(kind),
{
    match kind {
        EndianKind::Be16 => "be16",
        EndianKind::Be32 => "be32",
        EndianKind::Be64 => "be64",
    }
}

pub open spec fn spec_size_name(size: MemSize) -> &'static str {
    match size {
        MemSize::U8 => "u8",
        MemSize::U16 => "u16",
        MemSize::U32 => "u32",
        MemSize::U64 => "u64",
    }
}

/// The type of memory of a size.
#[verifier::when_used_as_spec(spec_size_name)]
pub fn size_name(size: MemSize) -> (r: &'static str)
    ensures
        r == spec_size_name(size),
{
    match size {
        MemSize::U8 => "u8",
        MemSize::U16 => "u16",
        MemSize::U32 => "u32",
        MemSize::U64 => "u64",
    }
}

/// The low half of a register is named with a `w`.
pub open spec fn spec_half_name(r: Reg) -> &'static str {
    match r {
        Reg::Zero => "w",
        Reg::R0 => "w0",
        Reg::R1 => "w1",
        Reg::R2 => "w2",
        Reg::R3 => "w3",
        Reg::R4 => "w4",
        Reg::R5 => "w5",
        Reg::R6 => "w6",
        Reg::R7 => "w7",
        Reg::R8 => "w8",
        Reg::R9 => "w9",
        Reg::R10 => "w10",
    }
}

/// The name of the low half of a register.
#[verifier::when_used_as_spec(spec_half_name)]
pub fn half_name(r: Reg) -> (n: &'static str)
    ensures
        n == spec_half_name(r),
{
    match r {
        Reg::Zero => "w",
        Reg::R0 => "w0",
        Reg::R1 => "w1",
        Reg::R2 => "w2",
        Reg::R3 => "w3",
        Reg::R4 => "w4",
        Reg::R5 => "w5",
        Reg::R6 => "w6",
        Reg::R7 => "w7",
        Reg::R8 => "w8",
        Reg::R9 => "w9",
        Reg::R10 => "w10",
    }
}

pub open spec fn spec_whole_name(r: Reg) -> &'static str {
    if r is Zero { "r" } else { r.name() }
}

/// The name of a register as a destination.
#[verifier::when_used_as_spec(spec_whole_name)]
pub fn whole_name(r: Reg) -> (n: &'static str)
    ensures
        n == spec_whole_name(r),
{
    match r {
        Reg::Zero => "r",
        _ => r.name(),
    }
}

/// How an operand is written.
pub open spec fn operand_text(x: Operand) -> Seq<char> {
    match x {
        Operand::Reg(r) => r.name()@,
        Operand::Imm(k) => crate::text::dec(k as int),
    }
}

/// Writes an operand.
pub fn push_operand(s: &mut String, x: Operand)
    ensures
        final(s)@ == old(s)@ + operand_text(x),
{
    match x {
        Operand::Reg(r) => s.append(r.name()),
        Operand::Imm(k) => push_dec(s, k),
    }
}

/// An address: the base register and the offset.
pub open spec fn place_text(size: MemSize, base: Reg, off: i16) -> Seq<char> {
    "*("@ + size_name(size)@ + " *)("@ + base.name()@ + " + "@ + crate::text::dec(off as int)
        + ")"@
}

/// Writes an address.
pub fn push_place(s: &mut String, size: MemSize, base: Reg, off: i16)
    ensures
        final(s)@ == old(s)@ + place_text(size, base, off),
{
    s.append("*(");
    s.append(size_name(size));
    s.append(" *)(");
    s.append(base.name());
    s.append(" + ");
    push_dec(s, off as i64);
    s.append(")");
    assert(s@ =~= old(s)@ + place_text(size, base, off));
}

/// How an instruction is written.
pub open spec fn instr_text(i: Instr) -> Seq<char> {
    match i {
        Instr::MovArg0 { dst } => dst.name()@ + " = arg0"@,
        Instr::Alu { width, op, dst, src } => {
            let lhs = if width is W32 { half_name(dst)@ } else { whole_name(dst)@ };
            if op is Mov {
                lhs + " = "@ + operand_text(src)
            } else {
                lhs + " = "@ + dst.name()@ + " "@ + alu_sign(op)@ + " "@ + operand_text(src)
            }
        },
        Instr::Endian { dst, kind } => dst.name()@ + " = endian_"@ + endian_name(kind)@,
        Instr::If { width, left, op, right, target } => "if "@ + left.name()@ + " "@
            + condition_sign(op)@ + " "@ + operand_text(right) + (if width is W32 {
            " w"@
        } else {
            " r"@
        }) + " goto "@ + crate::text::dec(target as int),
        Instr::Jmp { target } => "goto "@ + crate::text::dec(target as int),
        Instr::Load { size, dst, base, off } => dst.name()@ + " = "@ + place_text(size, base, off),
        Instr::Store { size, base, off, src } => place_text(size, base, off) + " = "@ + src.name()@,
        Instr::Call { helper } => "call "@ + crate::text::dec(helper as int),
        Instr::Exit => "exit"@,
    }
}

impl Instr {
    /// The instruction in writing.
    pub fn to_text(&self) -> (r: String)
        ensures
            r@ == instr_text(*self),
    {
        let mut s: String = String::new();
        match *self {
            Instr::MovArg0 { dst } => {
                s.append(dst.name());
                s.append(" = arg0");
            },
            Instr::Alu { width, op, dst, src } => {
                s.append(if width == Width::W32 { half_name(dst) } else { whole_name(dst) });
                s.append(" = ");
                if op != AluOp::Mov {
                    s.append(dst.name());
                    s.append(" ");
                    s.append(alu_sign(op));
                    s.append(" ");
                }
                push_operand(&mut s, src);
            },
            Instr::Endian { dst, kind } => {
                s.append(dst.name());
                s.append(" = endian_");
                s.append(endian_name(kind));
            },
            Instr::If { width, left, op, right, target } => {
                s.append("if ");
                s.append(left.name());
                s.append(" ");
                s.append(condition_sign(op));
                s.append(" ");
                push_operand(&mut s, right);
                s.append(if width == Width::W32 { " w" } else { " r" });
                s.append(" goto ");
                push_nat(&mut s, target as u64);
            },
            Instr::Jmp { target } => {
                s.append("goto ");
                push_nat(&mut s, target as u64);
            },
            Instr::Load { size, dst, base, off } => {
                s.append(dst.name());
                s.append(" = ");
                push_place(&mut s, size, base, off);
            },
            Instr::Store { size, base, off, src } => {
                push_place(&mut s, size, base, off);
                s.append(" = ");
                s.append(src.name());
            },
            Instr::Call { helper } => {
                s.append("call ");
                push_nat(&mut s, helper as u64);
            },
            Instr::Exit => {
                s.append("exit");
            },
        }
        assert(s@ =~= instr_text(*self));
        s
    }
}

} // verus!
