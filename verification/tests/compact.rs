use std::collections::HashMap;
use zovia::ast::{MemSize, Width};
use zovia::common::programs;
use zovia::compact::analyze::{analyze_program, analyze_states};
use zovia::compact::ast::{AluOp, CmpOp, EndianKind, Instr, Operand, Program, ProgramKind};
use zovia::compact::bpf_to_ast::{branch_target, check_registers, lower_raw_to_program, reg_to_var};
use zovia::compact::branch::{maybe_promote_map_val, refine_branch_types, transfer_if, update_packet_ranges};
use zovia::compact::cert::{CertError, Certificate};
use zovia::compact::check::{check_certificate_against_kernel_sim, check_included, format_inclusion_failure, CheckError};
use zovia::compact::context::{AnalysisStats, ExecContext};
use zovia::compact::ctx_model::{classify_ctx_field, classify_tc_ctx_field, CtxFieldKind, MemRegionId};
use zovia::compact::domain::{
    add_imm, assign_add_reg, assign_and_mask, assign_eq, assign_mul_imm, assign_zero, assume_ge_const,
    assume_le_const, assume_less_than, dbm_equals, get_bounds, join, join_reg_type, reg_to_index,
    unconstrained, Reg, RegEnv, RegType, RegTypeState,
};
use zovia::compact::example::{
    program_alias_and_conflict, program_inconsistent, program_interval_narrowing, program_two_var_chain,
    run_program, run_program_with_trace,
};
use zovia::compact::exec::{transfer_instr, update_reg_types_for_instr};
use zovia::domains::zone::dbm::{Dbm, INF};
use zovia::machine::ids::IdCounter;
use zovia::parsing::bpf_insn::RawBpfInsn;

fn ctx() -> ExecContext {
    ExecContext {
        zero: Reg::Zero,
        r10: Reg::R10,
        stack_min: -512,
        stack_max: -1,
        map_defs: Vec::new(),
        pc_to_map_idx: HashMap::new(),
    }
}

fn entry() -> Dbm {
    let mut d = unconstrained();
    assign_zero(&mut d, Reg::R10, Reg::Zero);
    d
}

fn raw(code: u8, dst: u8, src: u8, off: i16, imm: i32) -> RawBpfInsn {
    RawBpfInsn { code, dst, src, off, imm }
}

#[test]
fn variables_are_indexed() {
    for (i, r) in RegEnv.all().into_iter().enumerate() {
        assert_eq!(RegEnv.index(r), i);
        assert_eq!(RegEnv.var_of_index(i), r);
    }
    assert_eq!(RegEnv.len(), 12);
    assert_eq!(RegEnv.name(Reg::Zero), "0");
    assert_eq!(RegEnv.name(Reg::R10), "r10");
    assert_eq!(reg_to_index(Reg::Zero), None);
    assert_eq!(reg_to_index(Reg::R3), Some(3));
}

#[test]
fn types_are_joined() {
    let p = |range| RegType::PtrToPacket { id: 4, range };
    assert_eq!(join_reg_type(p(8), p(3)), p(3));
    assert_eq!(join_reg_type(RegType::NotInit, RegType::PtrToCtx), RegType::PtrToCtx);
    assert_eq!(join_reg_type(RegType::ScalarValue, RegType::PtrToCtx), RegType::Unknown);
    assert_eq!(join_reg_type(p(8), RegType::PtrToPacket { id: 5, range: 8 }), RegType::Unknown);
    let mut a = RegTypeState::new_not_init();
    a.set(Reg::R1, p(8));
    let mut b = RegTypeState::new_not_init();
    b.set(Reg::R1, p(2));
    assert!(a.join_in_place(&b));
    assert_eq!(a.get(Reg::R1), p(2));
    assert!(!a.join_in_place(&b));
    assert_eq!(a.iter_regs()[1], (Reg::R1, p(2)));
    assert_eq!(a.get(Reg::Zero), RegType::NotInit);
}

#[test]
fn bounds_follow_operations() {
    let mut d = unconstrained();
    assign_and_mask(&mut d, Reg::R1, 31, Reg::Zero);
    assert_eq!(get_bounds(&d, Reg::R1, Reg::Zero), (Some(0), Some(31)));
    add_imm(&mut d, Reg::R1, -32);
    assert_eq!(get_bounds(&d, Reg::R1, Reg::Zero), (Some(-32), Some(-1)));
    assign_eq(&mut d, Reg::R2, Reg::R1);
    assert_eq!(get_bounds(&d, Reg::R2, Reg::R1), (Some(0), Some(0)));
    assign_mul_imm(&mut d, Reg::R2, 3, Reg::Zero);
    assert_eq!(get_bounds(&d, Reg::R2, Reg::Zero), (Some(-96), Some(-3)));
    assign_add_reg(&mut d, Reg::R2, Reg::R1, Reg::Zero);
    assert_eq!(get_bounds(&d, Reg::R2, Reg::Zero), (Some(-128), Some(-4)));
    assign_mul_imm(&mut d, Reg::R2, -1, Reg::Zero);
    assert_eq!(get_bounds(&d, Reg::R2, Reg::Zero), (None, None));
    assume_ge_const(&mut d, Reg::R3, Reg::Zero, 2);
    assume_le_const(&mut d, Reg::R3, Reg::Zero, 9);
    assume_less_than(&mut d, Reg::R3, Reg::Zero, 5);
    assert_eq!(get_bounds(&d, Reg::R3, Reg::Zero), (Some(2), Some(4)));
}

#[test]
fn joins_keep_the_looser_bound() {
    let mut a = unconstrained();
    assume_le_const(&mut a, Reg::R1, Reg::Zero, 5);
    let mut b = unconstrained();
    assume_le_const(&mut b, Reg::R1, Reg::Zero, 9);
    let j = join(&a, &b);
    assert_eq!(get_bounds(&j, Reg::R1, Reg::Zero), (None, Some(9)));
    assert!(dbm_equals(&j, &join(&b, &a)));
    assert!(!dbm_equals(&a, &b));
    assert!(check_included(&a, &j).is_ok() && check_included(&b, &j).is_ok());
}

#[test]
fn context_fields_are_classified() {
    assert_eq!(
        classify_tc_ctx_field(0x4c, MemSize::U32),
        Some(CtxFieldKind::MemEnd { region: MemRegionId::CalicoMetaRegion })
    );
    assert_eq!(
        classify_ctx_field(ProgramKind::Tc, 0x8c, MemSize::U32),
        Some(CtxFieldKind::PtrToMem { region: MemRegionId::CalicoMetaRegion })
    );
    assert_eq!(classify_ctx_field(ProgramKind::Tc, 0x8c, MemSize::U64), Some(CtxFieldKind::Scalar));
    assert_eq!(classify_ctx_field(ProgramKind::Xdp, 0x8c, MemSize::U32), Some(CtxFieldKind::Scalar));
}

#[test]
fn instructions_are_written() {
    let alu = |width, op, src| Instr::Alu { width, op, dst: Reg::R1, src };
    assert_eq!(alu(Width::W32, AluOp::Mov, Operand::Reg(Reg::R6)).to_text(), "w1 = r6");
    assert_eq!(alu(Width::W64, AluOp::Add, Operand::Imm(-3)).to_text(), "r1 = r1 + -3");
    assert_eq!(Instr::MovArg0 { dst: Reg::R0 }.to_text(), "r0 = arg0");
    assert_eq!(
        Instr::If { width: Width::W64, left: Reg::R2, op: CmpOp::UGe, right: Operand::Imm(16), target: 7 }.to_text(),
        "if r2 >=u 16 r goto 7"
    );
    assert_eq!(
        Instr::Load { size: MemSize::U8, dst: Reg::R0, base: Reg::R10, off: -4 }.to_text(),
        "r0 = *(u8 *)(r10 + -4)"
    );
    assert_eq!(
        Instr::Store { size: MemSize::U64, base: Reg::R10, off: 8, src: Reg::R1 }.to_text(),
        "*(u64 *)(r10 + 8) = r1"
    );
    assert_eq!(Instr::Endian { dst: Reg::R3, kind: EndianKind::Be16 }.to_text(), "r3 = endian_be16");
    assert_eq!(Instr::Jmp { target: 3 }.to_text(), "goto 3");
    assert_eq!(Instr::Call { helper: 1 }.to_text(), "call 1");
    assert_eq!(Instr::Exit.to_text(), "exit");
}

fn step(instr: Instr, d: &Dbm, t: &RegTypeState) -> (Vec<(usize, Dbm, RegTypeState)>, AnalysisStats) {
    let mut stats = AnalysisStats::default();
    let mut ids = IdCounter::new();
    let r = transfer_instr(&ctx(), d, 4, &instr, &mut stats, t, &mut ids);
    (r.into_iter().map(|s| (s.pc, s.dbm, s.types)).collect(), stats)
}

#[test]
fn moves_copy_types_and_values() {
    let mut d = unconstrained();
    assign_and_mask(&mut d, Reg::R6, 7, Reg::Zero);
    let mut t = RegTypeState::new_not_init();
    t.set(Reg::R6, RegType::PtrToPacket { id: 2, range: 14 });
    let mov = |width, src| Instr::Alu { width, op: AluOp::Mov, dst: Reg::R1, src };
    let (r, _) = step(mov(Width::W64, Operand::Reg(Reg::R6)), &d, &t);
    assert_eq!(r[0].0, 5);
    assert_eq!(get_bounds(&r[0].1, Reg::R1, Reg::R6), (Some(0), Some(0)));
    assert_eq!(r[0].2.get(Reg::R1), RegType::PtrToPacket { id: 2, range: 14 });
    let (r, _) = step(mov(Width::W32, Operand::Reg(Reg::R6)), &d, &t);
    assert_eq!(get_bounds(&r[0].1, Reg::R1, Reg::Zero), (Some(0), Some(0xffff_ffff)));
    assert_eq!(r[0].2.get(Reg::R1), RegType::ScalarValue);
    let (r, _) = step(mov(Width::W32, Operand::Imm(-1)), &d, &t);
    assert_eq!(get_bounds(&r[0].1, Reg::R1, Reg::Zero), (Some(0xffff_ffff), Some(0xffff_ffff)));
}

#[test]
fn packet_pointers_slide() {
    let mut t = RegTypeState::new_not_init();
    t.set(Reg::R1, RegType::PtrToPacket { id: 2, range: 14 });
    let d = unconstrained();
    let alu = |op, k| Instr::Alu { width: Width::W64, op, dst: Reg::R1, src: Operand::Imm(k) };
    let range = |i: Instr| match step(i, &d, &t).0[0].2.get(Reg::R1) {
        RegType::PtrToPacket { range, .. } => range,
        other => panic!("{:?}", other),
    };
    assert_eq!(range(alu(AluOp::Add, 4)), 10);
    assert_eq!(range(alu(AluOp::Add, 20)), 0);
    assert_eq!(range(alu(AluOp::Add, -4)), 18);
    assert_eq!(range(alu(AluOp::Sub, 4)), 18);
    assert_eq!(range(alu(AluOp::Sub, -4)), 10);
    assert_eq!(range(alu(AluOp::Sub, i64::MIN)), 0);
}

#[test]
fn shifts_and_remainders_are_bounded() {
    let d = unconstrained();
    let t = RegTypeState::new_not_init();
    let alu = |width, op, k| Instr::Alu { width, op, dst: Reg::R1, src: Operand::Imm(k) };
    let b = |i: Instr| get_bounds(&step(i, &d, &t).0[0].1, Reg::R1, Reg::Zero);
    assert_eq!(b(alu(Width::W32, AluOp::Shr, 24)), (Some(0), Some(255)));
    assert_eq!(b(alu(Width::W64, AluOp::Shr, 60)), (Some(0), Some(15)));
    assert_eq!(b(alu(Width::W32, AluOp::Shr, 40)), (Some(0), Some(0)));
    assert_eq!(b(alu(Width::W64, AluOp::Mod, 10)), (Some(0), Some(9)));
    assert_eq!(b(alu(Width::W64, AluOp::Mod, 0)), (None, None));
    assert_eq!(b(alu(Width::W64, AluOp::Xor, 3)), (None, None));
    assert_eq!(b(alu(Width::W32, AluOp::Or, 3)), (Some(0), Some(0xffff_ffff)));
    let (r, s) = step(alu(Width::W64, AluOp::Shr, 0), &d, &t);
    assert!(r.is_empty() && s.dbm_inconsistent && s.dangerous);
}

#[test]
fn branches_learn_and_drop_impossible_sides() {
    let mut d = unconstrained();
    assign_and_mask(&mut d, Reg::R1, 15, Reg::Zero);
    let t = RegTypeState::new_not_init();
    let r = transfer_if(&ctx(), &d, 3, Width::W64, Reg::R1, CmpOp::UGe, Operand::Imm(4), 9, &t);
    assert_eq!(r.len(), 2);
    assert_eq!(r[0].pc, 9);
    assert_eq!(get_bounds(&r[0].dbm, Reg::R1, Reg::Zero), (Some(4), Some(15)));
    assert_eq!(r[1].pc, 4);
    assert_eq!(get_bounds(&r[1].dbm, Reg::R1, Reg::Zero), (Some(0), Some(3)));
    let r = transfer_if(&ctx(), &d, 3, Width::W64, Reg::R1, CmpOp::UGt, Operand::Imm(15), 9, &t);
    assert_eq!(r.len(), 1);
    assert_eq!(r[0].pc, 4);
    let top = unconstrained();
    let r = transfer_if(&ctx(), &top, 3, Width::W32, Reg::R1, CmpOp::Eq, Operand::Imm(0), 9, &t);
    assert_eq!((r[0].pc, r[1].pc), (4, 9));
    let r = transfer_if(&ctx(), &top, 3, Width::W64, Reg::R1, CmpOp::Ne, Operand::Imm(6), 9, &t);
    assert_eq!(get_bounds(&r[1].dbm, Reg::R1, Reg::Zero), (Some(6), Some(6)));
}

#[test]
fn packet_comparisons_give_ranges() {
    let mut d = unconstrained();
    assign_eq(&mut d, Reg::R2, Reg::R1);
    add_imm(&mut d, Reg::R2, 14);
    let mut t = RegTypeState::new_not_init();
    t.set(Reg::R1, RegType::PtrToPacket { id: 7, range: 0 });
    t.set(Reg::R2, RegType::PtrToPacket { id: 7, range: 0 });
    t.set(Reg::R3, RegType::PtrToPacketEnd);
    let r = transfer_if(&ctx(), &d, 0, Width::W64, Reg::R2, CmpOp::ULe, Operand::Reg(Reg::R3), 5, &t);
    assert_eq!(r[0].types.get(Reg::R1), RegType::PtrToPacket { id: 7, range: 14 });
    assert_eq!(r[0].types.get(Reg::R2), RegType::PtrToPacket { id: 7, range: 0 });
    assert_eq!(r[1].types.get(Reg::R1), RegType::PtrToPacket { id: 7, range: 0 });
    let mut u = RegTypeState::new_not_init();
    u.set(Reg::R1, RegType::ScalarValue);
    update_packet_ranges(&d, &mut u, Reg::R1, Reg::R3);
    assert_eq!(u.get(Reg::R1), RegType::ScalarValue);
}

#[test]
fn null_checks_promote_all_copies() {
    let maybe = RegType::PtrToMapValueOrNull { id: 3, map_idx: 1 };
    let mut t = RegTypeState::new_not_init();
    t.set(Reg::R0, maybe);
    t.set(Reg::R6, maybe);
    t.set(Reg::R7, RegType::PtrToMapValueOrNull { id: 4, map_idx: 1 });
    let found = RegType::PtrToMapValue { offset: 0, map_idx: 1 };
    let eq = Instr::If { width: Width::W64, left: Reg::R0, op: CmpOp::Eq, right: Operand::Imm(0), target: 9 };
    let mut a = t.clone();
    refine_branch_types(&eq, 4, &mut a);
    assert_eq!((a.get(Reg::R0), a.get(Reg::R6)), (found, found));
    assert_eq!(a.get(Reg::R7), RegType::PtrToMapValueOrNull { id: 4, map_idx: 1 });
    let mut b = t.clone();
    refine_branch_types(&eq, 9, &mut b);
    assert_eq!(b.get(Reg::R0), maybe);
    let mut c = t.clone();
    maybe_promote_map_val(&mut c, Reg::R7);
    assert_eq!(c.get(Reg::R0), maybe);
    assert_eq!(c.get(Reg::R7), found);
}

#[test]
fn stack_loads_and_stores_are_checked() {
    let mut d = entry();
    assign_eq(&mut d, Reg::R2, Reg::R10);
    add_imm(&mut d, Reg::R2, -8);
    let mut t = RegTypeState::new_not_init();
    t.set(Reg::R2, RegType::PtrToStack);
    let load = |off| Instr::Load { size: MemSize::U64, dst: Reg::R0, base: Reg::R2, off };
    let store = |off| Instr::Store { size: MemSize::U64, base: Reg::R2, off, src: Reg::R0 };
    let (r, s) = step(load(0), &d, &t);
    assert!(!s.dangerous);
    assert_eq!(r[0].2.get(Reg::R0), RegType::ScalarValue);
    let (r, s) = step(load(1), &d, &t);
    assert!(s.unsafe_stack_load && !s.abort && r.len() == 1);
    let (r, s) = step(store(-504), &d, &t);
    assert!(!s.dangerous && r.len() == 1);
    let (r, s) = step(store(-505), &d, &t);
    assert!(s.unsafe_stack_store && s.abort && r.is_empty());
    let (r, s) = step(Instr::Store { size: MemSize::U8, base: Reg::R5, off: 0, src: Reg::R0 }, &d, &t);
    assert!(s.abort && r.is_empty());
}

#[test]
fn map_stores_need_room_in_the_value() {
    let d = unconstrained();
    let mut t = RegTypeState::new_not_init();
    t.set(Reg::R1, RegType::PtrToMapValue { offset: 4090, map_idx: 9 });
    let store = |off| Instr::Store { size: MemSize::U32, base: Reg::R1, off, src: Reg::R0 };
    assert!(!step(store(2), &d, &t).1.abort);
    assert!(step(store(3), &d, &t).1.abort);
    assert!(step(store(-4091), &d, &t).1.abort);
}

#[test]
fn packet_loads_go_by_range_or_distance() {
    let mut d = unconstrained();
    let mut t = RegTypeState::new_not_init();
    t.set(Reg::R1, RegType::PtrToPacket { id: 1, range: 4 });
    t.set(Reg::R3, RegType::PtrToPacketEnd);
    let load = |off| Instr::Load { size: MemSize::U32, dst: Reg::R0, base: Reg::R1, off };
    assert!(!step(load(0), &d, &t).1.dangerous);
    assert!(step(load(1), &d, &t).1.unsafe_stack_load);
    d.add_constraint_idx(Reg::R1.idx(), Reg::R3.idx(), -5);
    d.close();
    assert!(!step(load(1), &d, &t).1.dangerous);
    assert!(step(load(2), &d, &t).1.unsafe_stack_load);
}

#[test]
fn lookups_yield_a_value_or_null() {
    let d = unconstrained();
    let mut t = RegTypeState::new_not_init();
    t.set(Reg::R1, RegType::PtrToMapObject { map_idx: 3 });
    t.set(Reg::R6, RegType::PtrToCtx);
    let (r, _) = step(Instr::Call { helper: 1 }, &d, &t);
    assert_eq!(r[0].2.get(Reg::R0), RegType::PtrToMapValueOrNull { id: 1, map_idx: 3 });
    assert_eq!(r[0].2.get(Reg::R1), RegType::ScalarValue);
    assert_eq!(r[0].2.get(Reg::R6), RegType::PtrToCtx);
    let (r, _) = step(Instr::Call { helper: 5 }, &d, &t);
    assert_eq!(r[0].2.get(Reg::R0), RegType::ScalarValue);
}

#[test]
fn types_flow_along_edges() {
    let mut c = ctx();
    c.pc_to_map_idx.insert(6, 2);
    let mut ids = IdCounter::new();
    let mut t = RegTypeState::new_not_init();
    let mov = Instr::Alu { width: Width::W64, op: AluOp::Mov, dst: Reg::R1, src: Operand::Imm(0) };
    update_reg_types_for_instr(&c, &mov, &mut t, 6, &mut ids);
    assert_eq!(t.get(Reg::R1), RegType::PtrToMapObject { map_idx: 2 });
    update_reg_types_for_instr(&c, &mov, &mut t, 7, &mut ids);
    assert_eq!(t.get(Reg::R1), RegType::ScalarValue);
    t.set(Reg::R2, RegType::PtrToMapValue { offset: 8, map_idx: 0 });
    let sub = Instr::Alu { width: Width::W64, op: AluOp::Sub, dst: Reg::R2, src: Operand::Imm(3) };
    update_reg_types_for_instr(&c, &sub, &mut t, 8, &mut ids);
    assert_eq!(t.get(Reg::R2), RegType::PtrToMapValue { offset: 5, map_idx: 0 });
    t.set(Reg::R3, RegType::PtrToCtx);
    let load = Instr::Load { size: MemSize::U32, dst: Reg::R4, base: Reg::R3, off: 0x8c };
    update_reg_types_for_instr(&c, &load, &mut t, 9, &mut ids);
    assert_eq!(t.get(Reg::R4), RegType::PtrToMem { region: MemRegionId::CalicoMetaRegion });
}

fn bounds_at(name: &str, pc: usize, r: Reg) -> (Option<i64>, Option<i64>) {
    let prog = programs::get(name).unwrap();
    let mut stats = AnalysisStats::default();
    let states = analyze_program(&ctx(), &prog, entry(), &mut stats);
    get_bounds(&states[pc], r, Reg::Zero)
}

#[test]
fn sample_programs_have_the_bounds_they_promise() {
    assert_eq!(bounds_at("masked_copy_index", 6, Reg::R2), (Some(-32), Some(-1)));
    assert_eq!(bounds_at("canonical_relational_guard", 3, Reg::R0).1, Some(15));
    assert_eq!(bounds_at("unsafe_no_constraints", 4, Reg::R2), (None, None));
    assert_eq!(bounds_at("safe_via_mask_small_offset", 5, Reg::R2), (Some(-8), Some(-1)));
    assert_eq!(bounds_at("merge_two_offsets_join", 9, Reg::R2), (Some(-32), Some(-15)));
    assert_eq!(bounds_at("addreg_const_offset_demo", 6, Reg::R2), (Some(3), Some(10)));
    assert_eq!(programs::names().len(), 6);
    assert_eq!(programs::registry()[5].name, "masked_copy_index");
    assert!(programs::get("no_such_program").is_none());
}

#[test]
fn loops_are_analyzed_to_an_end() {
    let prog = Program {
        instrs: vec![
            Instr::Alu { width: Width::W64, op: AluOp::Mov, dst: Reg::R1, src: Operand::Imm(0) },
            Instr::Alu { width: Width::W64, op: AluOp::Add, dst: Reg::R1, src: Operand::Imm(1) },
            Instr::If { width: Width::W64, left: Reg::R1, op: CmpOp::ULt, right: Operand::Imm(10), target: 1 },
            Instr::Exit,
            Instr::Exit,
        ],
    };
    let mut stats = AnalysisStats::default();
    let states = analyze_states(&ctx(), &prog, entry(), &mut stats);
    assert!(!stats.dangerous);
    assert_eq!(get_bounds(states[1].as_ref().unwrap(), Reg::R1, Reg::Zero), (Some(0), Some(9)));
    assert_eq!(get_bounds(states[3].as_ref().unwrap(), Reg::R1, Reg::Zero), (Some(10), Some(10)));
    assert!(states[4].is_none());
    let mut stats = AnalysisStats::default();
    let all = analyze_program(&ctx(), &prog, entry(), &mut stats);
    assert_eq!(get_bounds(&all[4], Reg::R1, Reg::Zero), (None, None));
}

#[test]
fn analyses_are_certificates() {
    let prog = programs::get("masked_copy_index").unwrap();
    let mut stats = AnalysisStats::default();
    let mut states = analyze_program(&ctx(), &prog, entry(), &mut stats);
    assert!(check_certificate_against_kernel_sim(&ctx(), &prog, &states).is_ok());
    assume_le_const(&mut states[2], Reg::R0, Reg::Zero, 30);
    let e = check_certificate_against_kernel_sim(&ctx(), &prog, &states).unwrap_err();
    assert_eq!((e.pc, e.succ), (1, 2));
    assert_eq!(
        e.format(),
        "pc 1 -> 2: inclusion check failed\nviolated constraint at entry (r0, 0): r0 - 0 <= 30\n  post has 31\n  cert has 30"
    );
    states.pop();
    let e = check_certificate_against_kernel_sim(&ctx(), &prog, &states).unwrap_err();
    assert_eq!(e.format(), "pc 0 -> 0: certificate length 7 != program length 8");
}

#[test]
fn bad_edges_are_refused() {
    let jump = Program { instrs: vec![Instr::Jmp { target: 5 }] };
    let e = check_certificate_against_kernel_sim(&ctx(), &jump, &vec![unconstrained()]).unwrap_err();
    assert_eq!((e.succ, e.msg.as_str()), (5, "successor out of bounds"));
    let stay = Program { instrs: vec![Instr::Jmp { target: 0 }] };
    let mut none = unconstrained();
    assume_le_const(&mut none, Reg::R1, Reg::Zero, 1);
    assume_ge_const(&mut none, Reg::R1, Reg::Zero, 2);
    let e = check_certificate_against_kernel_sim(&ctx(), &stay, &vec![none]).unwrap_err();
    assert_eq!(e.msg, "local transfer produced inconsistent DBM");
    let e = CheckError { pc: 1, succ: 2, msg: String::from("x") };
    assert_eq!(e.format(), "pc 1 -> 2: x");
}

#[test]
fn inclusion_failures_name_the_entry() {
    let mut a = unconstrained();
    assume_le_const(&mut a, Reg::R1, Reg::Zero, 9);
    let mut b = unconstrained();
    assume_le_const(&mut b, Reg::R1, Reg::Zero, 5);
    let f = check_included(&a, &b).unwrap_err();
    assert_eq!((f.post, f.cert, f.xi, f.xj), (9, 5, Reg::R1, Reg::Zero));
    assert_eq!(
        format_inclusion_failure(&f),
        "violated constraint at entry (r1, 0): r1 - 0 <= 5\n  post has 9\n  cert has 5"
    );
    assert!(check_included(&b, &a).is_ok());
}

#[test]
fn certificates_are_read_back() {
    let mut d = unconstrained();
    assume_le_const(&mut d, Reg::R1, Reg::Zero, -7);
    let c = Certificate::from_states(vec![None, Some(d)]);
    let mut s = String::new();
    c.write_to(&mut s);
    assert!(s.starts_with("2 12\nU\nR\n0 INF "));
    let back = Certificate::read_from(&s).unwrap();
    assert_eq!((back.pcs, back.dim), (2, 12));
    assert!(back.states[0].is_none());
    let m = back.states[1].as_ref().unwrap();
    assert_eq!(m.raw(2, 0), -7);
    assert_eq!(m.raw(3, 0), INF);
    let mut again = String::new();
    back.write_to(&mut again);
    assert_eq!(again, s);
}

#[test]
fn bad_certificates_are_refused() {
    let e = |s: &str| Certificate::read_from(s).unwrap_err();
    assert_eq!(e("  "), CertError::MissingPcs);
    assert_eq!(e("x"), CertError::BadPcs);
    assert_eq!(e("1"), CertError::MissingDim);
    assert_eq!(e("1 -2"), CertError::BadDim);
    assert_eq!(e("1 2"), CertError::MissingTag);
    assert_eq!(e("1 2 Q"), CertError::BadTag);
    assert_eq!(e("1 2 R 0 1 2"), CertError::MissingEntry);
    assert_eq!(e("1 1 R 3000000000"), CertError::BadEntry);
    assert_eq!(CertError::BadEntry.message(), "int parse");
    assert!(Certificate::read_from("1 1 R -2147483648").is_ok());
}

#[test]
fn encoded_programs_are_lowered() {
    let p = lower_raw_to_program(&[
        raw(0x18, 1, 0, 0, 5),
        raw(0x00, 0, 0, 0, 1),
        raw(0xb4, 2, 0, 0, -1),
        raw(0x55, 1, 0, 1, 0),
        raw(0x63, 10, 1, -8, 0),
        raw(0x61, 1, 8, 0x4c, 0),
        raw(0x85, 0, 0, 0, 1),
        raw(0x16, 3, 0, -1, -1),
        raw(0x95, 0, 0, 0, 0),
    ])
    .unwrap();
    assert_eq!(p.instrs.len(), 9);
    assert_eq!(
        p.instrs[0],
        Instr::Alu { width: Width::W64, op: AluOp::Mov, dst: Reg::R1, src: Operand::Imm(0x1_0000_0005) }
    );
    assert_eq!(
        p.instrs[1],
        Instr::Alu { width: Width::W64, op: AluOp::Mov, dst: Reg::R0, src: Operand::Reg(Reg::R0) }
    );
    assert_eq!(
        p.instrs[2],
        Instr::Alu { width: Width::W32, op: AluOp::Mov, dst: Reg::R2, src: Operand::Imm(0xffff_ffff) }
    );
    assert_eq!(
        p.instrs[3],
        Instr::If { width: Width::W64, left: Reg::R1, op: CmpOp::Ne, right: Operand::Imm(0), target: 5 }
    );
    assert_eq!(p.instrs[4], Instr::Store { size: MemSize::U32, base: Reg::R10, off: -8, src: Reg::R1 });
    assert_eq!(p.instrs[5], Instr::Load { size: MemSize::U32, dst: Reg::R1, base: Reg::R8, off: 0x4c });
    assert_eq!(p.instrs[6], Instr::Call { helper: 1 });
    assert_eq!(
        p.instrs[7],
        Instr::If { width: Width::W32, left: Reg::R3, op: CmpOp::Eq, right: Operand::Imm(0xffff_ffff), target: 7 }
    );
    assert_eq!(p.instrs[8], Instr::Exit);
}

#[test]
fn wide_constants_keep_their_sign() {
    let p = lower_raw_to_program(&[raw(0x18, 1, 0, 0, -2), raw(0, 0, 0, 0, -1)]).unwrap();
    assert_eq!(
        p.instrs[0],
        Instr::Alu { width: Width::W64, op: AluOp::Mov, dst: Reg::R1, src: Operand::Imm(-2) }
    );
}

#[test]
fn what_cannot_be_lowered_is_refused() {
    let e = |v: &[RawBpfInsn]| {
        let e = lower_raw_to_program(v).unwrap_err();
        (e.pc, e.code, e.msg)
    };
    assert_eq!(e(&[raw(0x18, 1, 0, 0, 5)]), (0, 0x18, "LDIMM64 at end of stream missing continuation slot".to_string()));
    assert_eq!(
        e(&[raw(0x18, 1, 0, 0, 5), raw(0x95, 0, 0, 0, 0)]),
        (0, 0x95, "LDIMM64 continuation slot had unexpected opcode 0x95".to_string())
    );
    assert_eq!(
        e(&[raw(0x00, 0, 0, 0, 0)]),
        (0, 0, "unexpected opcode 0x00 (LDIMM64 continuation without prefix?)".to_string())
    );
    assert_eq!(
        e(&[raw(0x95, 0, 0, 0, 0), raw(0x04, 0, 0, 0, 0)]),
        (1, 4, "unsupported opcode 0x04 at pc 1".to_string())
    );
    assert_eq!(e(&[raw(0x05, 0, 0, -2, 0)]), (0, 5, "branch target out of range: -1".to_string()));
    assert_eq!(e(&[raw(0x05, 0, 0, 3, 0)]), (0, 5, "branch target out of range: 4".to_string()));
    assert_eq!(branch_target(2, -1, 9, 0).unwrap(), 2);
    assert_eq!(reg_to_var(7), Reg::R7);
    assert!(check_registers(&[raw(0x95, 10, 0, 0, 0)]));
    assert!(!check_registers(&[raw(0x95, 11, 0, 0, 0)]));
    assert!(check_registers(&[raw(0x18, 1, 0, 0, 0), raw(0, 15, 15, 0, 0)]));
}

#[test]
fn example_programs_run_to_an_end_or_a_conflict() {
    let last = |v: Vec<zovia::compact::example::Instr>| {
        let states = run_program(&v);
        (states.len(), states[states.len() - 1].is_inconsistent())
    };
    assert_eq!(last(program_interval_narrowing(&RegEnv)), (4, false));
    assert_eq!(last(program_two_var_chain(&RegEnv)), (4, false));
    assert_eq!(last(program_inconsistent(&RegEnv)), (2, true));
    assert_eq!(last(program_alias_and_conflict(&RegEnv)), (5, true));
    let states = run_program(&program_two_var_chain(&RegEnv));
    assert_eq!(get_bounds(&states[3], Reg::R2, Reg::Zero), (Some(10), Some(10)));
    let trace = run_program_with_trace(&program_inconsistent(&RegEnv), "conflict");
    assert_eq!(trace.label, "conflict");
    assert_eq!(trace.snapshots.len(), 3);
    assert_eq!((trace.snapshots[0].pc, trace.snapshots[0].entries.len()), (0, 0));
    assert_eq!(trace.snapshots[1].entries.len(), 2);
}

#[test]
fn moving_a_register_to_itself_changes_nothing() {
    let mut d = unconstrained();
    assign_and_mask(&mut d, Reg::R0, 7, Reg::Zero);
    assign_eq(&mut d, Reg::R1, Reg::R0);
    let before = d.clone();
    assign_eq(&mut d, Reg::R0, Reg::R0);
    assert_eq!(d, before);
    let t = RegTypeState::new_not_init();
    let pad = Instr::Alu { width: Width::W64, op: AluOp::Mov, dst: Reg::R0, src: Operand::Reg(Reg::R0) };
    let (r, _) = step(pad, &d, &t);
    assert_eq!(get_bounds(&r[0].1, Reg::R0, Reg::Zero), (Some(0), Some(7)));
    assert_eq!(get_bounds(&r[0].1, Reg::R0, Reg::R1), (Some(0), Some(0)));
}
