use zovia::ast::prog::ProgramKind;
use zovia::ast::MemSize;
use zovia::common::ctx_model::{is_valid_ctx_read, is_valid_ctx_write, validate_ctx_access};
use zovia::common::ctx_tables::CtxFieldKind;
use zovia::common::mem_region_model::{is_valid_mem_region_read, is_within};
use zovia::domains::numeric::NumericDomain;
use zovia::machine::env::ExecContext;
use zovia::machine::layout::{Btf, BtfField, BtfFieldKind, BtfStruct, SpecialField};
use zovia::machine::reg::{Reg, DBM_DIM};
use zovia::machine::reg_types::{FrameLevel, PtrFlags, RegType, TypeState};
use zovia::machine::stack_state::{bpf_iter_size, DynptrKind, DynptrSlot, IterKind, IterSlot, StackState};
use zovia::machine::state::{retyped, SocketKind, State, TypeRule};
use zovia::machine::tnum::Tnum;

fn context(prog_kind: ProgramKind) -> ExecContext {
    ExecContext {
        prog_kind,
        attach_flavor: None,
        attach_subtype: None,
        entry_args: None,
        attach_args: vec![],
        entry_returns_void: false,
        flags: 0,
        privileged: false,
        map_defs: vec![],
        btf: Btf { structs: vec![] },
        relocs: vec![],
    }
}

fn state() -> State {
    State::entry(NumericDomain::new_zone(), TypeState::new())
}

#[test]
fn registers_and_indices_correspond() {
    for i in 0..DBM_DIM {
        assert_eq!(Reg::idx_to_reg(i).unwrap().idx(), i);
    }
    assert_eq!(Reg::idx_to_reg(DBM_DIM), None);
    assert_eq!(Reg::Zero.idx(), 0);
    assert_eq!(Reg::R10.name(), "r10");
    assert!(Reg::AnchorData.is_anchor() && !Reg::R10.is_anchor());
}

#[test]
fn partly_known_numbers() {
    assert!(Tnum::constant(7).is_const());
    assert!(!Tnum::unknown().is_const());
    assert_eq!(Tnum::below(0xff), Tnum { value: 0, mask: 0xff });
}

#[test]
fn types_are_stored_by_register() {
    let mut t = TypeState::new();
    assert_eq!(t.get(Reg::R1), RegType::NotInit);
    t.set(Reg::R1, RegType::PtrToCtx);
    assert_eq!(t.get(Reg::R1), RegType::PtrToCtx);
    assert!(RegType::PtrToCtx.is_pointer() && !RegType::ScalarValue.is_pointer());
    assert!(RegType::PtrToPacket.is_packet_ptr());
    assert_eq!(RegType::PtrToSocket { ref_id: Some(4) }.get_ref_id(), Some(4));
    assert!(PtrFlags::empty().union(PtrFlags::with_trusted()).trusted);
}

#[test]
fn stacks_remember_what_was_written() {
    let mut s = StackState::new();
    assert!(!s.is_slot_initialized(-8));
    assert_eq!(s.get_slot_type(-8), RegType::NotInit);
    s.set_slot_type(-8, RegType::PtrToCtx);
    s.write_scalars(-16, 4);
    assert_eq!(s.get_slot_type(-8), RegType::PtrToCtx);
    assert!(s.is_slot_initialized(-13) && !s.is_slot_initialized(-12));
    s.invalidate_slot(-8);
    assert_eq!(s.get_slot_type(-8), RegType::ScalarValue);
    s.invalidate_slot(-40);
    assert!(!s.is_slot_initialized(-40));
    s.set_slot_type(-24, RegType::PtrToPacket);
    s.invalidate_packet_pointers();
    assert_ne!(s.get_slot_type(-24), RegType::PtrToPacket);
}

#[test]
fn overlaps_with_special_slots_are_seen() {
    let mut s = StackState::new();
    s.iters.push(IterSlot { off: -16, kind: IterKind::Num });
    s.irq_flags.push(-32);
    s.dynptrs.push(DynptrSlot { off: -64, first: true, kind: DynptrKind::Ringbuf, dynptr_id: 5, ref_id: Some(9) });
    assert!(s.has_active_iterators() && s.has_unreleased_irq_flags() && s.has_unreleased_dynptr_refs());
    assert_eq!(bpf_iter_size(IterKind::Num), 8);
    assert!(s.access_overlaps_iterator(-9, 1) && !s.access_overlaps_iterator(-8, 8));
    assert!(s.access_overlaps_irq_flag(-25, 1) && !s.access_overlaps_irq_flag(-24, 4));
    assert!(s.read_overlaps_dynptr(-64, 4) && !s.read_overlaps_dynptr(-80, 16));
    assert!(s.write_overlaps_referenced_dynptr(-57, 1));
    assert_eq!(s.stack_get_dynptr(-64).unwrap().dynptr_id, 5);
    s.stack_clear_dynptr(-64);
    assert!(s.stack_get_dynptr(-64).is_none());
}

#[test]
fn spilled_registers_are_filled() {
    let mut s = state();
    let level = s.current_frame_level();
    s.set_type(Reg::R1, RegType::PtrToCtx);
    s.spill_at(level, Reg::R1, -8, MemSize::U64);
    assert!(s.fill_at(level, Reg::R2, -8, MemSize::U64));
    assert_eq!(s.types.get(Reg::R2), RegType::PtrToCtx);
    assert!(!s.fill_at(level, Reg::R3, -100, MemSize::U64));
    s.store_imm_to_stack_at(level, 42, -16, MemSize::U64);
    assert!(s.fill_at(level, Reg::R4, -16, MemSize::U64));
    assert_eq!(s.domain.get_interval(Reg::R4), (42, 42));
}

#[test]
fn references_are_acquired_and_released() {
    let mut s = state();
    s.acquire_ref(3);
    s.acquire_ref(4);
    s.set_type(Reg::R6, RegType::PtrToSocket { ref_id: Some(3) });
    s.release_ref(3);
    assert_eq!(s.active_refs, vec![4]);
    s.invalidate_ref(3);
    assert_ne!(s.types.get(Reg::R6), RegType::PtrToSocket { ref_id: Some(3) });
    assert!(s.at_main_frame());
    assert_eq!(s.num_frames(), 1);
    assert!(s.pop_frame().is_none());
}

#[test]
fn found_sockets_lose_their_doubt() {
    let rule = TypeRule::SocketFound { kind: SocketKind::Socket, ref_id: Some(2) };
    let maybe = |id| RegType::PtrToSocketOrNull { ref_id: Some(id) };
    assert_eq!(retyped(rule, maybe(2)), RegType::PtrToSocket { ref_id: Some(2) });
    assert_eq!(retyped(rule, maybe(3)), maybe(3));
    assert_eq!(retyped(rule, RegType::PtrToCtx), RegType::PtrToCtx);
    let gone = TypeRule::SocketAbsent { kind: SocketKind::Socket, ref_id: Some(2) };
    assert_eq!(retyped(gone, maybe(2)), RegType::ScalarValue);
}

#[test]
fn moving_the_packet_forgets_pointers_into_it() {
    let mut s = state();
    s.set_type(Reg::R6, RegType::PtrToPacket);
    s.set_type(Reg::R7, RegType::PtrToCtx);
    s.move_packet();
    assert_ne!(s.types.get(Reg::R6), RegType::PtrToPacket);
    assert_eq!(s.types.get(Reg::R7), RegType::PtrToCtx);
}

#[test]
fn context_fields_are_checked() {
    let xdp = context(ProgramKind::Xdp);
    assert!(is_valid_ctx_read(&xdp, 0, 4));
    assert!(!is_valid_ctx_write(&xdp, 0, 4));
    assert!(!is_valid_ctx_read(&xdp, 2, 4));
    assert!(!is_valid_ctx_read(&xdp, 400, 4));
    assert!(is_valid_ctx_write(&xdp, 16, 4));
    assert_eq!(validate_ctx_access(&xdp, 4, 4).unwrap().kind, CtxFieldKind::PacketEnd);
    let skb = context(ProgramKind::SchedCls);
    assert!(is_valid_ctx_write(&skb, 48, 4));
    assert!(!is_valid_ctx_read(&skb, -4, 4));
}

#[test]
fn kernel_objects_are_read_field_by_field() {
    let common = RegType::PtrToSockCommon { ref_id: None };
    assert!(is_valid_mem_region_read(common, 4, 4));
    assert!(is_valid_mem_region_read(common, 5, 1));
    assert!(!is_valid_mem_region_read(common, 0, 4));
    assert!(!is_valid_mem_region_read(RegType::ScalarValue, 4, 4));
    assert!(is_within(8, 4, true, 10, 2) && !is_within(8, 4, false, 10, 2) && !is_within(8, 4, true, 10, 4));
}

#[test]
fn structures_are_looked_up() {
    let inner = BtfField { offset: 8, name: "pid", kind: BtfFieldKind::Other };
    let btf = Btf {
        structs: vec![BtfStruct {
            id: 3,
            name: "task_struct",
            size: 64,
            fields: vec![inner],
            leaves: vec![],
            special: vec![SpecialField { offset: 16, size: 4 }],
        }],
    };
    assert_eq!(btf.find_struct_by_name("task_struct"), Some(3));
    assert_eq!(btf.find_struct_by_name("file"), None);
    assert_eq!(btf.type_size_bytes(3), 64);
    assert_eq!(btf.struct_name(3), Some("task_struct"));
    assert_eq!(btf.field_at_offset(3, 8).unwrap().name, "pid");
    assert!(btf.field_at_offset(3, 9).is_none());
    assert_eq!(btf.find_special_fields(3).len(), 1);
    assert!(FrameLevel { index: 0 } == state().current_frame_level());
}
