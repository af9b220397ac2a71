//! The classic instruction set, without kernel functions and wide loads, and
//! the program types it is loaded as.
use crate::ast::instr::condition_sign;
use crate::ast::prog::begins;
use crate::ast::{CmpOp, MemSize, PacketLoadMode, Width};
use crate::compact::ast::{
    half_name, operand_text, place_text, push_operand, push_place, whole_name, Operand,
};
use crate::compact::domain::Reg;
use crate::text::{
    all_ascii, ascii_lowered, lowercase, push_nat, starts_with, text_eq, to_lowercase, trim, trimmed,
};
use vstd::prelude::*;

verus! {

/// Arithmetic operations.
#[derive(Clone, Copy, Debug, PartialEq, Eq, Structural)]
pub enum AluOp {
    Add,
    Sub,
    And,
    Or,
    Xor,
    Mov,
    Shl,
    Shr,
    Arsh,
    Mul,
    Mod,
    Div,
    Neg,
}

/// Directions of a byte order conversion.
#[derive(Clone, Copy, Debug, PartialEq, Eq, Structural)]
pub enum EndianOp {
    ToBe,
    ToLe,
}

/// One instruction.
#[allow(inconsistent_fields)]
#[derive(Clone, Copy, Debug, PartialEq, Eq, Structural)]
pub enum Instr {
    /// `dst` becomes the program's argument.
    MovArg0 { dst: Reg },
    /// `dst = dst op src`, or `dst = src`.
    Alu { width: Width, op: AluOp, dst: Reg, src: Operand },
    /// Byte order conversion.
    Endian { dst: Reg, width: Width, op: EndianOp, size: u32 },
    /// Conditional jump.
    If { width: Width, left: Reg, op: CmpOp, right: Operand, target: usize },
    /// Jump.
    Jmp { target: usize },
    /// `dst = *(base + off)`.
    Load { size: MemSize, dst: Reg, base: Reg, off: i16 },
    /// `*(base + off) = src`.
    Store { size: MemSize, base: Reg, off: i16, src: Operand },
    /// `*(base + off) += src`, in one step.
    AtomicAdd { size: MemSize, base: Reg, off: i16, src: Reg },
    /// A call of a helper.
    Call { helper: u32 },
    /// A call of a function of the program, by its first instruction.
    CallRel { target: usize },
    /// A load from the packet, at a constant or behind a register.
    PacketLoad { size: MemSize, mode: PacketLoadMode, offset_imm: i32, src: Option<Reg> },
    /// Return.
    Exit,
}

/// A program.
#[derive(Debug)]
pub struct Program {
    pub instrs: Vec<Instr>,
}

pub open spec fn spec_alu_sign(op: AluOp) -> &'static str {
    match op {
        AluOp::Add => "+",
        AluOp::Sub => "-",
        AluOp::And => "&",
        AluOp::Or => "|",
        AluOp::Xor => "^",
        AluOp::Mov => "=",
        AluOp::Shl => "<<",
        AluOp::Shr => ">>",
        AluOp::Arsh => "s>>",
        AluOp::Mul => "*",
        AluOp::Mod => "%",
        AluOp::Div => "/",
        AluOp::Neg => "-",
    }
}

/// The sign of an arithmetic operation.
#[verifier::when_used_as_spec(spec_alu_sign)]
pub fn alu_sign(op: AluOp) -> (r: &'static str)
    ensures
        r == spec_alu_sign(op),
{
    match op {
        AluOp::Add => "+",
        AluOp::Sub => "-",
        AluOp::And => "&",
        AluOp::Or => "|",
        AluOp::Xor => "^",
        AluOp::Mov => "=",
        AluOp::Shl => "<<",
        AluOp::Shr => ">>",
        AluOp::Arsh => "s>>",
        AluOp::Mul => "*",
        AluOp::Mod => "%",
        AluOp::Div => "/",
        AluOp::Neg => "-",
    }
}

/// The name of a byte order conversion: its direction and its width.
pub open spec fn endian_name(op: EndianOp, size: u32) -> Seq<char> {
    match (op, size) {
        (EndianOp::ToBe, 16) => "be16"@,
        (EndianOp::ToBe, 32) => "be32"@,
        (EndianOp::ToBe, 64) => "be64"@,
        (EndianOp::ToLe, 16) => "le16"@,
        (EndianOp::ToLe, 32) => "le32"@,
        (EndianOp::ToLe, 64) => "le64"@,
        _ => "unknown"@,
    }
}

fn endian_text(op: EndianOp, size: u32) -> (r: &'static str)
    ensures
        r@ == endian_name(op, size),
{
    match (op, size) {
        (EndianOp::ToBe, 16) => "be16",
        (EndianOp::ToBe, 32) => "be32",
        (EndianOp::ToBe, 64) => "be64",
        (EndianOp::ToLe, 16) => "le16",
        (EndianOp::ToLe, 32) => "le32",
        (EndianOp::ToLe, 64) => "le64",
        _ => "unknown",
    }
}

/// How an instruction is written.
pub open spec fn instr_text(i: Instr) -> Seq<char> {
    match i {
        Instr::MovArg0 { dst } => dst.name()@ + " = arg0"@,
        Instr::Alu { width, op, dst, src } => {
            let lhs = if width is W32 { half_name(dst)@ } else { whole_name(dst)@ };
            if op is Mov {
                lhs + " = "@ + operand_text(src)
            } else {
                lhs + " = "@ + dst.name()@ + " "@ + alu_sign(op)@ + " "@ + operand_text(src)
            }
        },
        Instr::Endian { dst, width, op, size } => dst.name()@ + " = endian_"@ + endian_name(
            op,
            size,
        ),
        Instr::If { width, left, op, right, target } => "if "@ + left.name()@ + " "@
            + condition_sign(op)@ + " "@ + operand_text(right) + (if width is W32 {
            " w"@
        } else {
            " r"@
        }) + " goto "@ + crate::text::dec(target as int),
        Instr::Jmp { target } => "goto "@ + crate::text::dec(target as int),
        Instr::Load { size, dst, base, off } => dst.name()@ + " = "@ + place_text(size, base, off),
        Instr::Store { size, base, off, src } => place_text(size, base, off) + " = "@
            + operand_text(src),
        Instr::AtomicAdd { size, base, off, src } => "lock "@ + place_text(size, base, off)
            + " += "@ + src.name()@,
        Instr::Call { helper } => "call "@ + crate::text::dec(helper as int),
        Instr::CallRel { target } => "call "@ + crate::text::dec(target as int),
        Instr::PacketLoad { .. } => "ld_abs or ld_ind"@,
        Instr::Exit => "exit"@,
    }
}

impl Instr {
    /// The instruction in writing.
    pub fn to_text(&self) -> (r: String)
        ensures
            r@ == instr_text(*self),
    {
        let mut s: String = String::new();
        match *self {
            Instr::MovArg0 { dst } => {
                s.append(dst.name());
                s.append(" = arg0");
            },
            Instr::Alu { width, op, dst, src } => {
                s.append(if width == Width::W32 { half_name(dst) } else { whole_name(dst) });
                s.append(" = ");
                if op != AluOp::Mov {
                    s.append(dst.name());
                    s.append(" ");
                    s.append(alu_sign(op));
                    s.append(" ");
                }
                push_operand(&mut s, src);
            },
            Instr::Endian { dst, width: _, op, size } => {
                s.append(dst.name());
                s.append(" = endian_");
                s.append(endian_text(op, size));
            },
            Instr::If { width, left, op, right, target } => {
                s.append("if ");
                s.append(left.name());
                s.append(" ");
                s.append(condition_sign(op));
                s.append(" ");
                push_operand(&mut s, right);
                s.append(if width == Width::W32 { " w" } else { " r" });
                s.append(" goto ");
                push_nat(&mut s, target as u64);
            },
            Instr::Jmp { target } => {
                s.append("goto ");
                push_nat(&mut s, target as u64);
            },
            Instr::Load { size, dst, base, off } => {
                s.append(dst.name());
                s.append(" = ");
                push_place(&mut s, size, base, off);
            },
            Instr::Store { size, base, off, src } => {
                push_place(&mut s, size, base, off);
                s.append(" = ");
                push_operand(&mut s, src);
            },
            Instr::AtomicAdd { size, base, off, src } => {
                s.append("lock ");
                push_place(&mut s, size, base, off);
                s.append(" += ");
                s.append(src.name());
            },
            Instr::Call { helper } => {
                s.append("call ");
                push_nat(&mut s, helper as u64);
            },
            Instr::CallRel { target } => {
                s.append("call ");
                push_nat(&mut s, target as u64);
            },
            Instr::PacketLoad { .. } => {
                s.append("ld_abs or ld_ind");
            },
            Instr::Exit => {
                s.append("exit");
            },
        }
        assert(s@ =~= instr_text(*self));
        s
    }
}

/// The type of a program: which context it is given and which helpers it may
/// call.
#[derive(Clone, Copy, Debug, PartialEq, Eq, Structural)]
pub enum ProgramKind {
    Xdp,
    SchedCls,
    SocketFilter,
    SockOps,
    SkMsg,
    CgroupSockAddr,
    Kprobe,
    Unknown,
}

/// The structure a program is given.
#[derive(Clone, Copy, Debug, PartialEq, Eq, Structural)]
pub enum ContextKind {
    XdpMd,
    SkBuff,
    SockOps,
    SkMsgMd,
    BpfSockAddr,
    PtRegs,
    Unknown,
}

/// The type of the programs in the section with the given name, in lower case
/// and trimmed.
pub open spec fn kind_of_section(s: Seq<char>) -> ProgramKind {
    if s == "xdp"@ || begins(s, "xdp/"@) {
        ProgramKind::Xdp
    } else if s == "classifier"@ || s == "tc"@ || begins(s, "tc/"@) || begins(s, "classifier/"@)
        || s == "sched_cls"@ {
        ProgramKind::SchedCls
    } else if s == "socket"@ || begins(s, "socket/"@) {
        ProgramKind::SocketFilter
    } else if s == "sockops"@ || begins(s, "sockops/"@) {
        ProgramKind::SockOps
    } else if s == "sk_msg"@ || begins(s, "sk_msg/"@) {
        ProgramKind::SkMsg
    } else if begins(s, "cgroup/bind"@) || begins(s, "cgroup/connect"@) || begins(
        s,
        "cgroup/sendmsg"@,
    ) || begins(s, "cgroup/recvmsg"@) || begins(s, "cgroup/getpeername"@) || begins(
        s,
        "cgroup/getsockname"@,
    ) {
        ProgramKind::CgroupSockAddr
    } else if s == "kprobe"@ || begins(s, "kprobe/"@) || begins(s, "kretprobe/"@) {
        ProgramKind::Kprobe
    } else {
        ProgramKind::Unknown
    }
}

impl Default for ProgramKind {
    fn default() -> (r: Self)
        ensures
            r == ProgramKind::Unknown,
    {
        ProgramKind::Unknown
    }
}

impl ProgramKind {
    /// The type of the programs in a section.
    pub fn from_section(s: &str) -> (r: Self)
        ensures
            r == kind_of_section(trimmed(lowercase(s@))),
            all_ascii(s@) ==> r == kind_of_section(trimmed(ascii_lowered(s@))),
    {
        let lowered = to_lowercase(s);
        ProgramKind::from_normalized_section(trim(lowered.as_str()))
    }

    /// The type of the programs in a section whose name is given in lower case
    /// and trimmed.
    pub fn from_normalized_section(s: &str) -> (r: Self)
        ensures
            r == kind_of_section(s@),
    {
        if text_eq(s, "xdp") || starts_with(s, "xdp/") {
            return ProgramKind::Xdp;
        }
        if text_eq(s, "classifier") || text_eq(s, "tc") || starts_with(s, "tc/") || starts_with(
            s,
            "classifier/",
        ) || text_eq(s, "sched_cls") {
            return ProgramKind::SchedCls;
        }
        if text_eq(s, "socket") || starts_with(s, "socket/") {
            return ProgramKind::SocketFilter;
        }
        if text_eq(s, "sockops") || starts_with(s, "sockops/") {
            return ProgramKind::SockOps;
        }
        if text_eq(s, "sk_msg") || starts_with(s, "sk_msg/") {
            return ProgramKind::SkMsg;
        }
        if starts_with(s, "cgroup/bind") || starts_with(s, "cgroup/connect") || starts_with(
            s,
            "cgroup/sendmsg",
        ) || starts_with(s, "cgroup/recvmsg") || starts_with(s, "cgroup/getpeername")
            || starts_with(s, "cgroup/getsockname") {
            return ProgramKind::CgroupSockAddr;
        }
        if text_eq(s, "kprobe") || starts_with(s, "kprobe/") || starts_with(s, "kretprobe/") {
            return ProgramKind::Kprobe;
        }
        ProgramKind::Unknown
    }

    pub open spec fn spec_context_kind(&self) -> ContextKind {
        match self {
            ProgramKind::Xdp => ContextKind::XdpMd,
            ProgramKind::SchedCls | ProgramKind::SocketFilter => ContextKind::SkBuff,
            ProgramKind::SockOps => ContextKind::SockOps,
            ProgramKind::SkMsg => ContextKind::SkMsgMd,
            ProgramKind::CgroupSockAddr => ContextKind::BpfSockAddr,
            ProgramKind::Kprobe => ContextKind::PtRegs,
            ProgramKind::Unknown => ContextKind::Unknown,
        }
    }

    /// The structure that programs of this type are given.
    #[verifier::when_used_as_spec(spec_context_kind)]
    pub fn context_kind(&self) -> (r: ContextKind)
        ensures
            r == self.spec_context_kind(),
    {
        match self {
            ProgramKind::Xdp => ContextKind::XdpMd,
            ProgramKind::SchedCls | ProgramKind::SocketFilter => ContextKind::SkBuff,
            ProgramKind::SockOps => ContextKind::SockOps,
            ProgramKind::SkMsg => ContextKind::SkMsgMd,
            ProgramKind::CgroupSockAddr => ContextKind::BpfSockAddr,
            ProgramKind::Kprobe => ContextKind::PtRegs,
            ProgramKind::Unknown => ContextKind::Unknown,
        }
    }
}

} // verus!
