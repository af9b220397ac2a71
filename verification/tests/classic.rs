use zovia::ast::{CmpOp, MemSize, PacketLoadMode, Width};
use zovia::classic::{AluOp, ContextKind, EndianOp, Instr, Program, ProgramKind};
use zovia::compact::ast::Operand;
use zovia::compact::domain::Reg;

#[test]
fn classic_instructions_are_written_out() {
    let program = Program {
        instrs: vec![
            Instr::MovArg0 { dst: Reg::R6 },
            Instr::Alu { width: Width::W32, op: AluOp::Mov, dst: Reg::R1, src: Operand::Reg(Reg::R6) },
            Instr::Alu { width: Width::W64, op: AluOp::Div, dst: Reg::R10, src: Operand::Imm(-3) },
            Instr::Alu { width: Width::W64, op: AluOp::Neg, dst: Reg::R2, src: Operand::Imm(0) },
            Instr::Alu { width: Width::W32, op: AluOp::Arsh, dst: Reg::Zero, src: Operand::Imm(1) },
            Instr::Endian { dst: Reg::R3, width: Width::W64, op: EndianOp::ToBe, size: 16 },
            Instr::Endian { dst: Reg::R3, width: Width::W64, op: EndianOp::ToLe, size: 64 },
            Instr::Endian { dst: Reg::R3, width: Width::W64, op: EndianOp::ToLe, size: 8 },
            Instr::If { width: Width::W32, left: Reg::R1, op: CmpOp::SLe, right: Operand::Imm(7), target: 12 },
            Instr::If { width: Width::W64, left: Reg::R1, op: CmpOp::Test, right: Operand::Reg(Reg::R2), target: 0 },
            Instr::Jmp { target: 4 },
            Instr::Load { size: MemSize::U16, dst: Reg::R0, base: Reg::R10, off: -4 },
            Instr::Store { size: MemSize::U8, base: Reg::R1, off: 2, src: Operand::Imm(255) },
            Instr::AtomicAdd { size: MemSize::U64, base: Reg::R1, off: 8, src: Reg::R2 },
            Instr::Call { helper: 28 },
            Instr::CallRel { target: 30 },
            Instr::PacketLoad { size: MemSize::U8, mode: PacketLoadMode::Abs, offset_imm: 12, src: None },
            Instr::Exit,
        ],
    };
    let lines: Vec<String> = program.instrs.iter().map(|i| i.to_text()).collect();
    assert_eq!(
        lines,
        vec![
            "r6 = arg0",
            "w1 = r6",
            "r10 = r10 / -3",
            "r2 = r2 - 0",
            "w = 0 s>> 1",
            "r3 = endian_be16",
            "r3 = endian_le64",
            "r3 = endian_unknown",
            "if r1 <= 7 w goto 12",
            "if r1 & r2 r goto 0",
            "goto 4",
            "r0 = *(u16 *)(r10 + -4)",
            "*(u8 *)(r1 + 2) = 255",
            "lock *(u64 *)(r1 + 8) += r2",
            "call 28",
            "call 30",
            "ld_abs or ld_ind",
            "exit",
        ]
    );
}

#[test]
fn classic_sections_are_matched_whole_or_before_a_slash() {
    let kind = ProgramKind::from_section;
    assert_eq!(kind("  XDP "), ProgramKind::Xdp);
    assert_eq!(kind("xdp/drop"), ProgramKind::Xdp);
    assert_eq!(kind("xdp_drop"), ProgramKind::Unknown);
    assert_eq!(kind("tc/ingress"), ProgramKind::SchedCls);
    assert_eq!(kind("classifier"), ProgramKind::SchedCls);
    assert_eq!(kind("sched_cls"), ProgramKind::SchedCls);
    assert_eq!(kind("sched_cls/x"), ProgramKind::Unknown);
    assert_eq!(kind("socket/http"), ProgramKind::SocketFilter);
    assert_eq!(kind("sockops"), ProgramKind::SockOps);
    assert_eq!(kind("sk_msg/a"), ProgramKind::SkMsg);
    assert_eq!(kind("cgroup/bind4"), ProgramKind::CgroupSockAddr);
    assert_eq!(kind("cgroup/getsockname6"), ProgramKind::CgroupSockAddr);
    assert_eq!(kind("cgroup/skb"), ProgramKind::Unknown);
    assert_eq!(kind("kprobe"), ProgramKind::Kprobe);
    assert_eq!(kind("kretprobe"), ProgramKind::Unknown);
    assert_eq!(kind("kretprobe/do_exit"), ProgramKind::Kprobe);
    assert_eq!(kind(""), ProgramKind::default());
}

#[test]
fn classic_kinds_have_contexts() {
    let context = |s: &str| ProgramKind::from_section(s).context_kind();
    assert_eq!(context("xdp"), ContextKind::XdpMd);
    assert_eq!(context("tc"), ContextKind::SkBuff);
    assert_eq!(context("socket"), ContextKind::SkBuff);
    assert_eq!(context("sockops"), ContextKind::SockOps);
    assert_eq!(context("sk_msg"), ContextKind::SkMsgMd);
    assert_eq!(context("cgroup/connect4"), ContextKind::BpfSockAddr);
    assert_eq!(context("kprobe/x"), ContextKind::PtRegs);
    assert_eq!(context("other"), ContextKind::Unknown);
}
