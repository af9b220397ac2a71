use zovia::ast::instr::{CallKind, Instr};
use zovia::ast::prog::ProgramKind;
use zovia::ast::{AluOp, AtomicOp, CmpOp, EndianOp, MapLoadKind, MemSize, Operand, PacketLoadMode, Width};
use zovia::common::constants;
use zovia::common::ctx_model::{is_valid_ctx_read, is_valid_ctx_write, validate_ctx_access};
use zovia::domains::interval::state::{IntervalState, PtrOffset, RegInterval, ScalarBounds};
use zovia::domains::numeric::NumericDomain;
use zovia::domains::zone::dbm::Dbm;
use zovia::domains::zone::ops;
use zovia::machine::env::{EnvConfig, ExecContext, VerifierEnv};
use zovia::machine::error::VerificationError;
use zovia::machine::ids::IdCounter;
use zovia::machine::layout::{BpfMapDef, Btf, KptrField, KptrFieldKind, RelocInfo, RelocKind};
use zovia::machine::reg::{Reg, DBM_DIM};
use zovia::machine::reg_types::{FrameLevel, PtrFlags, RegType, TypeState};
use zovia::machine::stack_state::{IterKind, IterSlot, StackState};
use zovia::machine::state::{Frame, State};
use zovia::machine::tnum::Tnum;
use zovia::transfer::access::{check_load, check_store};
use zovia::transfer::fields::{implied_btf_struct_name, trusted_field_load};
use zovia::transfer::map_access::{check_map_access, classify_kptr_access, varoff_overlaps_kptr, KptrAccessOutcome};
use zovia::transfer::refinement::{refine_branch, refine_packet_ranges, PacketPtr, PacketState, PacketValue};
use zovia::transfer::step::{transfer, Step, Work};
use zovia::transfer::types::{adjust_map_value_offset, cast_target, helper_invalidates_packets, update_alu_types, update_call_types};

fn env(prog_kind: ProgramKind) -> VerifierEnv {
    VerifierEnv {
        cfg: EnvConfig {
            ctx: ExecContext {
                prog_kind,
                attach_flavor: None,
                attach_subtype: None,
                entry_args: None,
                attach_args: vec![],
                entry_returns_void: false,
                flags: 0,
                privileged: false,
                map_defs: vec![map("counts", 16)],
                btf: Btf { structs: vec![] },
                relocs: vec![],
            },
            explored: vec![],
            current_step_idx: None,
            replay_mode: false,
            analyzing_exception_cb: false,
            arena_cast_pcs: vec![],
            size_reg: None,
            refined: false,
        },
        seen: vec![false; 8],
        failures: vec![],
        sinks: vec![],
        ids: IdCounter::new(),
        map_uids: IdCounter::new(),
        stack_steps: vec![],
        refinements: vec![],
        path_unreachable: false,
    }
}

fn map(name: &str, value_size: u32) -> BpfMapDef {
    BpfMapDef {
        name: name.to_string(),
        type_: 1,
        key_size: 4,
        value_size,
        max_entries: 1,
        map_flags: 0,
        initial_data: None,
        kptr_fields: vec![],
        btf_val_type_id: None,
        inner_map_idx: None,
    }
}

fn state() -> State {
    let mut s = State::entry(NumericDomain::new_zone(), TypeState::new());
    s.set_type(Reg::R10, RegType::PtrToStack { frame_level: FrameLevel { index: 0 } });
    s
}

fn states(step: Step) -> Vec<State> {
    match step {
        Step::Next { states, .. } => states,
        Step::Pending { .. } => panic!("work is left"),
    }
}

fn value(offset: i64) -> RegType {
    RegType::PtrToMapValue { id: 1, offset: Some(offset), map_idx: 0, map_uid: None }
}

#[test]
fn arithmetic_and_calls_are_handed_out() {
    let mut e = env(ProgramKind::Xdp);
    let i = Instr::Alu { width: Width::W64, op: AluOp::Add, dst: Reg::R1, src: Operand::Imm(1) };
    match transfer(&mut e, state(), i) {
        Step::Pending { work: Work::Alu { op: AluOp::Add, dst: Reg::R1, .. }, .. } => {}
        _ => panic!(),
    }
    match transfer(&mut e, state(), Instr::Call { kind: CallKind::Helper { id: 7 } }) {
        Step::Pending { work: Work::Helper { id: 7 }, .. } => {}
        _ => panic!(),
    }
    assert!(e.seen[0] && !e.seen[1]);
}

#[test]
fn jumps_go_to_their_target() {
    let mut e = env(ProgramKind::Xdp);
    let r = states(transfer(&mut e, state(), Instr::Jmp { target: 6 }));
    assert_eq!((r.len(), r[0].pc), (1, 6));
}

#[test]
fn bounded_jumps_go_both_ways_until_the_budget_is_used() {
    let mut e = env(ProgramKind::Xdp);
    e.cfg.explored = vec![0, 3, 0];
    let mut s = state();
    s.goto_budget = 1;
    match transfer(&mut e, s, Instr::MayGoto { target: 5 }) {
        Step::Next { states, widen_from } => {
            assert_eq!(states.iter().map(|s| s.pc).collect::<Vec<_>>(), vec![5, 1]);
            assert_eq!((states[0].goto_budget, states[0].may_goto_depth), (0, 1));
            assert_eq!(widen_from, Some(0));
        }
        _ => panic!(),
    }
    let r = states(transfer(&mut e, state(), Instr::MayGoto { target: 5 }));
    assert_eq!((r.len(), r[0].pc), (1, 1));
}

#[test]
fn exits_are_checked() {
    let exit = |kind, s: State| {
        let mut e = env(kind);
        let r = states(transfer(&mut e, s, Instr::Exit));
        assert!(r.is_empty());
        e.failures
    };
    let returning = |v: i64| {
        let mut s = state();
        s.set_type(Reg::R0, RegType::ScalarValue);
        s.domain.assign_imm(Reg::R0, v);
        s
    };
    assert_eq!(exit(ProgramKind::Xdp, returning(2)), vec![]);
    assert_eq!(
        exit(ProgramKind::Xdp, state()),
        vec![VerificationError::RegisterNotReadable { pc: 0, reg: Reg::R0 }]
    );
    assert_eq!(
        exit(ProgramKind::CgroupSkb, returning(2)),
        vec![VerificationError::InvalidReturnCode { pc: 0 }]
    );
    assert_eq!(exit(ProgramKind::Netfilter, returning(1)), vec![]);
    let mut s = returning(0);
    s.acquire_ref(4);
    assert_eq!(exit(ProgramKind::Xdp, s), vec![VerificationError::UnreleasedReference]);
    let mut s = returning(0);
    s.lock_depth = 1;
    assert_eq!(exit(ProgramKind::Xdp, s), vec![VerificationError::UnreleasedLock]);
    let mut s = returning(0);
    s.rcu_read_depth = 1;
    assert_eq!(exit(ProgramKind::Xdp, s), vec![VerificationError::UnreleasedRcuRead]);
    let mut s = returning(0);
    s.preempt_depth = 1;
    assert_eq!(exit(ProgramKind::Xdp, s), vec![VerificationError::ExitInPreemptDisabled]);
    let mut s = returning(0);
    s.frames[0].stack.iters.push(IterSlot { off: -8, kind: IterKind::Num });
    assert_eq!(exit(ProgramKind::Xdp, s), vec![VerificationError::UnreleasedIterator]);
    let mut s = returning(0);
    s.irq_depth = 1;
    assert!(matches!(exit(ProgramKind::Xdp, s)[0], VerificationError::IrqState { pc: 0, .. }));
}

#[test]
fn functions_return_to_their_caller() {
    let mut s = state();
    let mut caller_types = TypeState::new();
    caller_types.set(Reg::R6, RegType::PtrToCtx);
    s.frames.push(Frame {
        return_pc: 17,
        caller_types,
        caller_domain: NumericDomain::new_zone(),
        caller_tnums: vec![Tnum::unknown(); DBM_DIM],
        caller_rcu_read_depth_snapshot: None,
        stack: StackState::new(),
        depth: 0,
        callback: None,
    });
    s.set_type(Reg::R0, RegType::ScalarValue);
    s.domain.assign_imm(Reg::R0, 3);
    let mut e = env(ProgramKind::Xdp);
    let r = states(transfer(&mut e, s, Instr::Exit));
    assert_eq!((r.len(), r[0].pc, r[0].num_frames()), (1, 17, 1));
    assert_eq!(r[0].types.get(Reg::R6), RegType::PtrToCtx);
    assert_eq!(r[0].types.get(Reg::R0), RegType::ScalarValue);
    assert_eq!(r[0].domain.get_interval(Reg::R0), (3, 3));
}

#[test]
fn stored_values_are_loaded_back() {
    let mut e = env(ProgramKind::Xdp);
    let mut s = state();
    s.set_type(Reg::R1, RegType::PtrToCtx);
    let store = Instr::Store { size: MemSize::U64, base: Reg::R10, off: -8, src: Operand::Reg(Reg::R1) };
    let mut r = states(transfer(&mut e, s, store));
    let load = Instr::Load { size: MemSize::U64, dst: Reg::R2, base: Reg::R10, off: -8 };
    let r = states(transfer(&mut e, r.remove(0), load));
    assert!(e.failures.is_empty(), "{:?}", e.failures);
    assert_eq!(r[0].types.get(Reg::R2), RegType::PtrToCtx);
    assert_eq!(r[0].pc, 2);
}

#[test]
fn stack_accesses_are_checked() {
    let s = state();
    let fails = |off, size| {
        let mut e = env(ProgramKind::Xdp);
        check_load(&mut e, &s, Reg::R10, size, off);
        e.failures
    };
    assert_eq!(fails(-520, 8), vec![VerificationError::StackOutOfBounds { pc: 0, off: -520, size: 8 }]);
    assert_eq!(fails(0, 8), vec![VerificationError::StackOutOfBounds { pc: 0, off: 0, size: 8 }]);
    assert_eq!(fails(-6, 4), vec![VerificationError::MisalignedAccess { pc: 0, off: -6 }]);
    assert!(matches!(fails(-8, 8)[0], VerificationError::UninitializedStackRead { .. }));
    let mut e = env(ProgramKind::Xdp);
    check_store(&mut e, &s, Reg::R10, 8, -8, RegType::ScalarValue);
    assert!(e.failures.is_empty());
}

#[test]
fn map_accesses_are_checked() {
    let mut s = state();
    s.set_type(Reg::R1, value(8));
    let fails = |off, size| {
        let mut e = env(ProgramKind::Xdp);
        check_load(&mut e, &s, Reg::R1, size, off);
        e.failures
    };
    assert_eq!(fails(0, 8), vec![]);
    assert_eq!(fails(-8, 4), vec![]);
    assert_eq!(fails(4, 8).len(), 1);
    assert_eq!(fails(-9, 1).len(), 1);
    let mut n = state();
    n.set_type(Reg::R1, RegType::PtrToMapValueOrNull { id: 1, map_idx: 0, map_uid: None });
    let mut e = env(ProgramKind::Xdp);
    check_load(&mut e, &n, Reg::R1, 4, 0);
    assert_eq!(e.failures, vec![VerificationError::UnsafeMapLoad { pc: 0, off: 0, size: 4, limit: 0 }]);
}

#[test]
fn packet_accesses_are_checked() {
    let mut zone = Dbm::new();
    ops::init_packet_anchors(&mut zone);
    ops::bind_to_anchor(&mut zone, Reg::R1, Reg::AnchorData);
    ops::assign_reg_offset(&mut zone, Reg::R2, Reg::R1, 8);
    ops::assume_le(&mut zone, Reg::R2, Reg::AnchorDataEnd);
    let mut s = State::entry(NumericDomain::Zone(zone), TypeState::new());
    s.set_type(Reg::R1, RegType::PtrToPacket);
    let mut e = env(ProgramKind::Xdp);
    check_load(&mut e, &s, Reg::R1, 4, 4);
    check_store(&mut e, &s, Reg::R1, 4, 4, RegType::ScalarValue);
    assert_eq!(e.failures, vec![]);
    check_load(&mut e, &s, Reg::R1, 4, 5);
    assert_eq!(e.failures, vec![VerificationError::UnsafePacketLoad { pc: 0, off: 5, size: 4 }]);
    let mut lwt = env(ProgramKind::LwtIn);
    check_store(&mut lwt, &s, Reg::R1, 4, 0, RegType::ScalarValue);
    assert_eq!(lwt.failures, vec![VerificationError::IllegalPacketStore { pc: 0, off: 0, size: 4 }]);
}

#[test]
fn context_accesses_are_checked() {
    let mut s = state();
    s.set_type(Reg::R1, RegType::PtrToCtx);
    let mut e = env(ProgramKind::Xdp);
    check_load(&mut e, &s, Reg::R1, 4, 0);
    assert_eq!(e.failures, vec![]);
    check_store(&mut e, &s, Reg::R1, 4, 0, RegType::ScalarValue);
    assert_eq!(e.failures, vec![VerificationError::UnsafeCtxAccess { pc: 0, off: 0, size: 4 }]);
    let load = Instr::Load { size: MemSize::U32, dst: Reg::R2, base: Reg::R1, off: 0 };
    let mut e = env(ProgramKind::Xdp);
    let r = states(transfer(&mut e, s.clone(), load));
    assert_eq!(r[0].types.get(Reg::R2), RegType::PtrToPacket);
}

#[test]
fn loads_through_numbers_are_refused() {
    let mut s = state();
    s.set_type(Reg::R1, RegType::ScalarValue);
    let mut e = env(ProgramKind::Xdp);
    check_load(&mut e, &s, Reg::R1, 4, 0);
    assert_eq!(
        e.failures,
        vec![VerificationError::UnsafeGenericLoad { pc: 0, base: Reg::R1, off: 0, base_type: RegType::ScalarValue }]
    );
    s.set_type(Reg::R1, RegType::PtrToSocket { ref_id: None });
    let mut e = env(ProgramKind::Xdp);
    check_store(&mut e, &s, Reg::R1, 4, 4, RegType::ScalarValue);
    assert_eq!(e.failures.len(), 1);
}

#[test]
fn atomics_need_readable_operands() {
    let mut e = env(ProgramKind::Xdp);
    let i = Instr::Atomic { op: AtomicOp::Add, size: MemSize::U64, fetch: false, base: Reg::R10, off: -8, src: Reg::R3 };
    assert!(states(transfer(&mut e, state(), i)).is_empty());
    assert_eq!(e.failures, vec![VerificationError::RegisterNotReadable { pc: 0, reg: Reg::R3 }]);
    let mut e = env(ProgramKind::Xdp);
    let mut s = state();
    s.set_type(Reg::R1, RegType::PtrToCtx);
    s.set_type(Reg::R3, RegType::ScalarValue);
    let acq = Instr::LoadAcq { size: MemSize::U32, dst: Reg::R2, base: Reg::R1, off: 0 };
    assert!(states(transfer(&mut e, s, acq)).is_empty());
    assert_eq!(e.failures.len(), 1);
}

#[test]
fn byte_swaps_bound_the_register() {
    let mut e = env(ProgramKind::Xdp);
    let mut s = state();
    s.set_type(Reg::R1, RegType::ScalarValue);
    for (width, most) in [(Width::W32, 0xffff_ffff), (Width::W64, 0xffff)] {
        let i = Instr::Endian { dst: Reg::R1, width, op: EndianOp::ToBe, size: 16 };
        let r = states(transfer(&mut e, s.clone(), i));
        assert_eq!(r[0].domain.get_interval(Reg::R1), (0, most));
        assert_eq!(r[0].types.get(Reg::R1), RegType::ScalarValue);
    }
    let i = Instr::Endian { dst: Reg::R1, width: Width::W32, op: EndianOp::Bswap, size: 64 };
    let r = states(transfer(&mut e, s, i));
    assert_eq!(r[0].domain.get_interval(Reg::R1), (0, 0xffff_ffff));
}

#[test]
fn legacy_packet_loads_yield_a_number() {
    let mut e = env(ProgramKind::SchedCls);
    let mut s = state();
    s.set_type(Reg::R6, RegType::PtrToCtx);
    let i = Instr::LoadPacket { size: MemSize::U8, mode: PacketLoadMode::Abs, offset_imm: 0, src: None };
    let r = states(transfer(&mut e, s.clone(), i));
    assert_eq!(r[0].types.get(Reg::R0), RegType::ScalarValue);
    assert_eq!(r[0].domain.get_interval(Reg::R0), (0, 255));
    s.lock_depth = 1;
    let mut e = env(ProgramKind::SchedCls);
    transfer(&mut e, s, i);
    assert_eq!(e.failures, vec![VerificationError::LoadAbsUnderLock { pc: 0 }]);
}

#[test]
fn maps_are_loaded_by_relocation() {
    let mut e = env(ProgramKind::Xdp);
    let load = Instr::LoadMap { dst: Reg::R1, kind: MapLoadKind::MapPtr, map_fd: 0, off: 0 };
    transfer(&mut e, state(), load);
    assert_eq!(e.failures, vec![VerificationError::RelocationInfoMissing { pc: 0 }]);
    let mut e = env(ProgramKind::Xdp);
    e.cfg.ctx.relocs.push(RelocInfo {
        pc: 0,
        kind: RelocKind::MapRef,
        map_idx: 0,
        offset: 0,
        ksym_is_percpu: false,
        ksym_struct_name: None,
    });
    let r = states(transfer(&mut e, state(), load));
    assert_eq!(r[0].types.get(Reg::R1), RegType::PtrToMapObject { map_idx: 0 });
    assert_eq!(r[0].pc, 2);
}

#[test]
fn null_checks_refine_types() {
    let mut s = state();
    let maybe = RegType::PtrToMapValueOrNull { id: 5, map_idx: 0, map_uid: None };
    s.set_type(Reg::R0, maybe);
    s.set_type(Reg::R6, maybe);
    let eq = Instr::If { width: Width::W64, left: Reg::R0, op: CmpOp::Eq, right: Operand::Imm(0), target: 9 };
    let mut found = s.clone();
    refine_branch(&mut found, eq, false);
    assert!(matches!(found.types.get(Reg::R0), RegType::PtrToMapValue { id: 5, map_idx: 0, .. }));
    assert!(matches!(found.types.get(Reg::R6), RegType::PtrToMapValue { id: 5, .. }));
    let mut absent = s.clone();
    refine_branch(&mut absent, eq, true);
    assert_eq!(absent.types.get(Reg::R0), maybe);
    let mut s = state();
    s.acquire_ref(3);
    s.set_type(Reg::R0, RegType::PtrToSocketOrNull { ref_id: Some(3) });
    refine_branch(&mut s, eq, true);
    assert_eq!(s.types.get(Reg::R0), RegType::ScalarValue);
    assert!(s.active_refs.is_empty());
}

#[test]
fn packet_ranges_only_grow() {
    let mut dbm = Dbm::new();
    ops::assign_reg_offset(&mut dbm, Reg::R2, Reg::R1, 14);
    ops::assume_le(&mut dbm, Reg::R2, Reg::R3);
    let pointer = |is_base, range| PacketValue::Pointer(PacketPtr { id: 1, is_base, range });
    let mut regs = vec![PacketValue::Other; DBM_DIM];
    regs[Reg::R1.idx()] = pointer(true, 0);
    regs[Reg::R2.idx()] = pointer(false, 0);
    regs[Reg::R3.idx()] = PacketValue::End;
    let mut s = PacketState { regs, slots: vec![pointer(true, 20), pointer(true, 4)], dbm };
    refine_packet_ranges(&mut s, Reg::R2, Reg::R3);
    assert_eq!(s.regs[Reg::R1.idx()], pointer(true, 14));
    assert_eq!(s.slots, vec![pointer(true, 20), pointer(true, 14)]);
    let before = s.regs.clone();
    refine_packet_ranges(&mut s, Reg::R1, Reg::R2);
    assert_eq!(s.regs, before);
}

#[test]
fn kernel_pointers_in_map_values() {
    let mut m = map("kptrs", 64);
    let field = KptrField { offset: 16, kind: KptrFieldKind::Ref, pointee_btf_id: 7 };
    m.kptr_fields.push(field);
    assert_eq!(classify_kptr_access(&m, 16, 8), KptrAccessOutcome::Hit(field));
    assert_eq!(classify_kptr_access(&m, 16, 4), KptrAccessOutcome::BadSize { field_off: 16, size: 4 });
    assert_eq!(classify_kptr_access(&m, 20, 4), KptrAccessOutcome::Misaligned { off: 20, expected: 8 });
    assert_eq!(classify_kptr_access(&m, 8, 8), KptrAccessOutcome::Clear);
    assert!(varoff_overlaps_kptr(&m, 10, 30) && !varoff_overlaps_kptr(&m, 24, 40));
}

#[test]
fn pointer_arithmetic_keeps_its_type() {
    assert_eq!(adjust_map_value_offset(value(8), Some(-4)), value(4));
    let mut e = env(ProgramKind::Xdp);
    let mut before = TypeState::new();
    before.set(Reg::R1, value(0));
    let mut after = before.clone();
    let d = NumericDomain::new_zone();
    update_alu_types(
        &mut e, &before, &mut after, &d, Width::W64, AluOp::Add, Reg::R1, Operand::Imm(4), 0,
    );
    assert_eq!(after.get(Reg::R1), value(4));
    let mut after = before.clone();
    update_alu_types(
        &mut e, &before, &mut after, &d, Width::W64, AluOp::Mov, Reg::R2, Operand::Reg(Reg::R1), 0,
    );
    assert_eq!(after.get(Reg::R2), value(0));
    assert_eq!(after.get(Reg::R1), value(0));
}

#[test]
fn helpers_and_fields_are_known_by_name() {
    assert!(helper_invalidates_packets(44) && !helper_invalidates_packets(1));
    assert_eq!(cast_target(1), None);
    assert!(cast_target(137).is_some());
    assert!(!trusted_field_load("no_struct", "no_field"));
    assert!(trusted_field_load("task_struct", "group_leader") || trusted_field_load("file", "f_inode"));
    assert_eq!(implied_btf_struct_name(RegType::ScalarValue), None);
}

fn interval_state(t: RegType, p: PtrOffset) -> State {
    let mut ivl = IntervalState::new();
    ivl.set(Reg::R1, RegInterval::with_ptr_offset(ScalarBounds::unknown(), p));
    let mut s = State::entry(NumericDomain::Interval(ivl), TypeState::new());
    s.set_type(Reg::R1, t);
    s
}

#[test]
fn map_accesses_at_unknown_offsets_are_refused() {
    let fails = |off: i64, var_off: u64, insn: i16, size: i64| {
        let t = RegType::PtrToMapValue { id: 1, offset: None, map_idx: 0, map_uid: None };
        let s = interval_state(t, PtrOffset::with_var_off(Reg::R1, off, var_off));
        let mut e = env(ProgramKind::Xdp);
        check_map_access(&mut e, &s, None, 0, Reg::R1, insn, size, 0);
        e.failures
    };
    assert_eq!(fails(0, 8, 0, 8), vec![]);
    assert_eq!(fails(0, 9, 0, 8).len(), 1);
    assert_eq!(fails(0, u64::MAX, 0, 8).len(), 1);
    assert_eq!(fails(0, i64::MAX as u64, 4, 8).len(), 1);
    assert_eq!(fails(i64::MIN, 0, -4, 8).len(), 1);
}

#[test]
fn contexts_of_unknown_layout_are_closed() {
    for kind in [ProgramKind::PerfEvent, ProgramKind::Kprobe, ProgramKind::Unknown] {
        let c = env(kind).cfg.ctx;
        assert_eq!(validate_ctx_access(&c, 0, 8), None);
        assert_eq!(validate_ctx_access(&c, 64, 4), None);
    }
}

#[test]
fn flow_dissectors_see_three_fields() {
    let c = env(ProgramKind::FlowDissector).cfg.ctx;
    for off in 0..200 {
        for size in [1, 2, 4, 8] {
            let seen = matches!((off, size), (76, 4) | (80, 4) | (144, 8));
            assert_eq!(is_valid_ctx_read(&c, off, size), seen);
            assert!(!is_valid_ctx_write(&c, off, size));
        }
    }
}

#[test]
fn per_cpu_calls_use_up_their_arguments() {
    for helper in [constants::BPF_PER_CPU_PTR, constants::BPF_THIS_CPU_PTR] {
        let mut e = env(ProgramKind::Xdp);
        let mut s = state();
        let object = RegType::PtrToBtfId { struct_name: "rq", flags: PtrFlags::empty(), ref_id: None };
        s.set_type(Reg::R1, object);
        s.set_type(Reg::R2, RegType::ScalarValue);
        let before = s.types.clone();
        update_call_types(&mut e, &before, &mut s, helper, None, false);
        for r in [Reg::R1, Reg::R2, Reg::R3, Reg::R4, Reg::R5] {
            assert_eq!(s.types.get(r), RegType::NotInit);
        }
        match s.types.get(Reg::R0) {
            RegType::PtrToBtfIdOrNull { struct_name, .. } => {
                assert_eq!((helper, struct_name), (constants::BPF_PER_CPU_PTR, "rq"))
            }
            RegType::PtrToBtfId { struct_name, .. } => {
                assert_eq!((helper, struct_name), (constants::BPF_THIS_CPU_PTR, "rq"))
            }
            _ => panic!(),
        }
    }
}

#[test]
fn allocated_memory_is_bounded_at_both_ends() {
    let mut s = state();
    s.set_type(Reg::R1, RegType::PtrToAllocMem { id: 1, mem_size: 16, ref_id: None, dynptr_id: None });
    let fails = |off, size| {
        let mut e = env(ProgramKind::Xdp);
        check_store(&mut e, &s, Reg::R1, size, off, RegType::ScalarValue);
        e.failures
    };
    assert_eq!(fails(8, 8), vec![]);
    assert_eq!(
        fails(-1, 1),
        vec![VerificationError::UnsafeMemoryStore { pc: 0, base: Reg::R1, off: -1, size: 1 }]
    );
    assert_eq!(fails(9, 8).len(), 1);
}

#[test]
fn a_number_minus_a_pointer_is_a_number() {
    let mut e = env(ProgramKind::Xdp);
    let mut before = TypeState::new();
    before.set(Reg::R1, RegType::ScalarValue);
    before.set(Reg::R2, value(0));
    let d = NumericDomain::new_zone();
    let mut after = before.clone();
    update_alu_types(&mut e, &before, &mut after, &d, Width::W64, AluOp::Sub, Reg::R1, Operand::Reg(Reg::R2), 0);
    assert_eq!(after.get(Reg::R1), RegType::ScalarValue);
    let mut after = before.clone();
    update_alu_types(&mut e, &before, &mut after, &d, Width::W64, AluOp::Add, Reg::R1, Operand::Reg(Reg::R2), 0);
    assert_eq!(after.get(Reg::R1), value(0));
}

fn against_zero(width: Width, op: CmpOp) -> Instr {
    Instr::If { width, left: Reg::R0, op, right: Operand::Imm(0), target: 9 }
}

#[test]
fn comparisons_with_zero_refine_types() {
    let maybe = RegType::PtrToMapValueOrNull { id: 5, map_idx: 0, map_uid: None };
    let socket = RegType::PtrToSocketOrNull { ref_id: Some(3) };
    let mut value = state();
    value.set_type(Reg::R0, maybe);
    let mut held = state();
    held.acquire_ref(3);
    held.set_type(Reg::R0, socket);
    let non_null_if_taken = [CmpOp::Ne, CmpOp::SGe, CmpOp::UGe, CmpOp::SGt, CmpOp::UGt, CmpOp::Test];
    let null_if_taken = [CmpOp::Eq, CmpOp::SLe, CmpOp::ULe, CmpOp::SLt, CmpOp::ULt];
    for width in [Width::W32, Width::W64] {
        for (ops, found) in [(&non_null_if_taken[..], true), (&null_if_taken[..], false)] {
            for &op in ops {
                let mut s = value.clone();
                refine_branch(&mut s, against_zero(width, op), found);
                assert!(matches!(s.types.get(Reg::R0), RegType::PtrToMapValue { id: 5, .. }));
                let mut s = value.clone();
                refine_branch(&mut s, against_zero(width, op), !found);
                assert_eq!(s.types.get(Reg::R0), maybe);
                let mut s = held.clone();
                refine_branch(&mut s, against_zero(width, op), found);
                assert_eq!(s.types.get(Reg::R0), RegType::PtrToSocket { ref_id: Some(3) });
                assert_eq!(s.active_refs, held.active_refs);
                let mut s = held.clone();
                refine_branch(&mut s, against_zero(width, op), !found);
                assert_eq!(s.types.get(Reg::R0), RegType::ScalarValue);
                assert!(s.active_refs.is_empty());
            }
        }
    }
}

#[test]
fn legacy_packet_loads_need_the_context() {
    let mut e = env(ProgramKind::SchedCls);
    let i = Instr::LoadPacket { size: MemSize::U8, mode: PacketLoadMode::Abs, offset_imm: 0, src: None };
    assert!(states(transfer(&mut e, state(), i)).is_empty());
    assert!(e.failures.is_empty());
}
