use zovia::ast::instr::{CallKind, Instr};
use zovia::ast::prog::{expected_retval_rule, ContextKind, ProgramKind, RetvalRule};
use zovia::ast::{AluOp, AtomicOp, CmpOp, EndianOp, MapLoadKind, MemSize, Operand, SxWidth, Width};
use zovia::machine::reg::Reg;

#[test]
fn sizes_and_widths() {
    assert_eq!(MemSize::U16.bytes(), 2);
    assert_eq!(MemSize::U64.bytes(), 8);
    assert_eq!(MemSize::U8.unbounded_scalar_bounds(), (0, 255));
    assert_eq!(MemSize::U64.unbounded_scalar_bounds(), (i64::MIN, i64::MAX));
    assert_eq!(SxWidth::S16.bits(), 16);
    assert_eq!(CallKind::Helper { id: 7 }.helper_id(), Some(7));
    assert!(CallKind::Kfunc { btf_id: 1, offset: 0 }.is_kfunc());
}

#[test]
fn instructions_have_a_text() {
    let alu = |width, op, src| Instr::Alu { width, op, dst: Reg::R3, src }.to_text();
    assert_eq!(alu(Width::W64, AluOp::Mov, Operand::Reg(Reg::R1)), "r3 = r1");
    assert_eq!(alu(Width::W32, AluOp::Mov, Operand::Imm(16)), "w3 = 0x0000000000000010");
    assert_eq!(alu(Width::W64, AluOp::Add, Operand::Imm(-1)), "r3 = r3 + 0xffffffffffffffff");
    assert_eq!(
        Instr::If { width: Width::W64, left: Reg::R1, op: CmpOp::Eq, right: Operand::Reg(Reg::R2), target: 9 }.to_text(),
        "if r1 ==64 r2 goto 9"
    );
    assert_eq!(
        Instr::Endian { dst: Reg::R1, width: Width::W64, op: EndianOp::ToBe, size: 16 }.to_text(),
        "r1 = endian_be16"
    );
    assert_eq!(
        Instr::LoadSx { size: MemSize::U32, dst: Reg::R0, base: Reg::R10, off: -4 }.to_text(),
        "r0 = *(s32 *)(r10 + -4)"
    );
    assert_eq!(
        Instr::MovSx { width: Width::W64, src_bits: SxWidth::S8, dst: Reg::R0, src: Operand::Reg(Reg::R1) }.to_text(),
        "r0 = (s8) r1"
    );
    assert_eq!(
        Instr::Store { size: MemSize::U8, base: Reg::R1, off: 2, src: Operand::Reg(Reg::R4) }.to_text(),
        "*(u8 *)(r1 + 2) = r4"
    );
    assert_eq!(
        Instr::Atomic { op: AtomicOp::Add, size: MemSize::U64, fetch: false, base: Reg::R1, off: 8, src: Reg::R2 }
            .to_text(),
        "lock *(u64 *)(r1 + 8) += r2"
    );
    assert_eq!(Instr::Call { kind: CallKind::Helper { id: 1 } }.to_text(), "call 1");
    assert_eq!(
        Instr::LoadMap { dst: Reg::R1, kind: MapLoadKind::MapPtr, map_fd: 4, off: 0 }.to_text(),
        "load map 4"
    );
    assert_eq!(Instr::Exit.to_text(), "exit");
}

#[test]
fn sections_tell_the_kind_of_a_program() {
    let kind = ProgramKind::from_section;
    assert_eq!(kind(" XDP "), ProgramKind::Xdp);
    assert_eq!(kind("tc/ingress"), ProgramKind::SchedCls);
    assert_eq!(kind("fentry/do_exit"), ProgramKind::Tracing);
    assert_eq!(kind("?fentry.s/do_exit"), ProgramKind::Tracing);
    assert_eq!(kind("raw_tp"), ProgramKind::RawTracepoint);
    assert_eq!(kind("lsm/file_mprotect"), ProgramKind::Lsm);
    assert_eq!(kind("netfilter"), ProgramKind::Netfilter);
    assert_eq!(kind("struct_ops/init"), ProgramKind::StructOps);
    assert_eq!(kind("no such section"), ProgramKind::Unknown);
    assert_eq!(ProgramKind::from_normalized_section("XDP"), ProgramKind::Unknown);
    assert_eq!(ProgramKind::Xdp.context_kind(), ContextKind::XdpMd);
    assert_eq!(ProgramKind::Syscall.context_kind(), ContextKind::Unknown);
}

#[test]
fn return_values_are_ruled() {
    let rule = |lo, hi, require_known| Some(RetvalRule { lo, hi, require_known });
    let sock_addr = |s| expected_retval_rule(ProgramKind::CgroupSockAddr, s);
    assert_eq!(sock_addr(Some("recvmsg4")), rule(1, 1, false));
    assert_eq!(sock_addr(Some("bind6")), rule(0, 3, false));
    assert_eq!(sock_addr(Some("connect4")), rule(0, 1, false));
    assert_eq!(sock_addr(None), None);
    assert_eq!(expected_retval_rule(ProgramKind::Netfilter, None), rule(0, 1, true));
    assert_eq!(expected_retval_rule(ProgramKind::Lsm, Some("file_mprotect")), rule(-4095, 0, false));
    assert_eq!(expected_retval_rule(ProgramKind::Lsm, Some("task_free")), None);
    assert_eq!(expected_retval_rule(ProgramKind::Kprobe, Some("session")), rule(0, 1, false));
    assert_eq!(expected_retval_rule(ProgramKind::Xdp, Some("session")), None);
    assert!(ProgramKind::CgroupSkb.requires_strict_return_code());
    assert!(!ProgramKind::Xdp.requires_strict_return_code());
}
