use zovia::domains::zone::dbm::{clamp_upper_bound, clamped_add, Bounds, Dbm, INF, NEG_BOUND, POS_BOUND};
use zovia::domains::zone::ops;
use zovia::machine::reg::Reg;

#[test]
fn provenance_can_be_enabled_for_path_reconstruction() {
    let mut dbm = Dbm::new();
    dbm.enable_provenance();
    dbm.set_current_pc(42);
    dbm.add_constraint(Reg::R2, Reg::R3, 5);
    dbm.close();

    let path = dbm
        .reconstruct_path(Reg::R2, Reg::R3)
        .expect("provenance should be active");
    assert_eq!(path.len(), 1);
    let edge = &path[0];
    assert_eq!(edge.to, Reg::R2);
    assert_eq!(edge.from, Reg::R3);
    assert_eq!(edge.weight, 5);
    assert_eq!(edge.pc, 42);
}

#[test]
fn derived_bounds_are_traced_to_what_was_stated() {
    let mut dbm = Dbm::new();
    dbm.enable_provenance();
    dbm.set_current_pc(3);
    dbm.add_constraint(Reg::R1, Reg::R2, 4);
    dbm.set_current_pc(7);
    dbm.add_constraint(Reg::R2, Reg::R3, 6);
    dbm.close();
    assert_eq!(dbm.get(Reg::R1, Reg::R3), 10);
    assert!(dbm.derivation_ends(Reg::R1, Reg::R3));
    let path = dbm.reconstruct_path(Reg::R1, Reg::R3).unwrap();
    assert_eq!(path.len(), 2);
    assert_eq!((path[0].to, path[0].from, path[0].weight, path[0].pc), (Reg::R1, Reg::R2, 4, 3));
    assert_eq!((path[1].to, path[1].from, path[1].weight, path[1].pc), (Reg::R2, Reg::R3, 6, 7));
}

#[test]
fn nothing_is_traced_without_provenance_or_bound() {
    let mut dbm = Dbm::new();
    dbm.add_constraint(Reg::R1, Reg::R2, 4);
    assert!(dbm.derivation_ends(Reg::R1, Reg::R2));
    assert!(dbm.reconstruct_path(Reg::R1, Reg::R2).is_none());
    dbm.enable_provenance();
    assert!(dbm.derivation_ends(Reg::R5, Reg::R6));
    assert!(dbm.reconstruct_path(Reg::R5, Reg::R6).is_none());
}

#[test]
fn huge_bounds_are_clamped() {
    assert_eq!(clamp_upper_bound(POS_BOUND), POS_BOUND);
    assert_eq!(clamp_upper_bound(POS_BOUND + 1), INF);
    assert_eq!(clamp_upper_bound(NEG_BOUND - 1), NEG_BOUND);
    assert_eq!(clamp_upper_bound(-7), -7);
    assert_eq!(clamped_add(INF, -5), INF);
    assert_eq!(clamped_add(3, 4), 7);
    assert_eq!(clamped_add(POS_BOUND, 1), INF);
    assert_eq!(clamped_add(i64::MIN, -1), INF);
}

#[test]
fn closure_draws_consequences_and_finds_conflicts() {
    let mut dbm = Dbm::new();
    dbm.add_constraint(Reg::R1, Reg::R2, 3);
    dbm.add_constraint(Reg::R2, Reg::R3, 4);
    assert_eq!(dbm.get(Reg::R1, Reg::R3), INF);
    dbm.close();
    assert_eq!(dbm.get(Reg::R1, Reg::R3), 7);
    assert!(!dbm.is_inconsistent());
    dbm.add_constraint(Reg::R3, Reg::R1, -8);
    dbm.close();
    assert!(dbm.is_inconsistent());
}

#[test]
fn weaker_bounds_do_not_replace_stronger_ones() {
    let mut dbm = Dbm::new();
    dbm.add_constraint(Reg::R1, Reg::R2, 3);
    dbm.add_constraint(Reg::R1, Reg::R2, 9);
    assert_eq!(dbm.get(Reg::R1, Reg::R2), 3);
    dbm.add_constraint(Reg::R1, Reg::R2, -2);
    assert_eq!(dbm.get(Reg::R1, Reg::R2), -2);
}

#[test]
fn forgetting_a_variable_keeps_the_others() {
    let mut dbm = Dbm::new();
    dbm.add_constraint(Reg::R1, Reg::R2, 3);
    dbm.add_constraint(Reg::R2, Reg::R3, 4);
    dbm.close();
    dbm.forget_var(Reg::R2);
    assert_eq!(dbm.get(Reg::R1, Reg::R2), INF);
    assert_eq!(dbm.get(Reg::R1, Reg::R3), 7);
}

#[test]
fn widening_gives_up_what_grew_and_narrowing_takes_the_tighter() {
    let mut a = Dbm::new();
    a.add_constraint(Reg::R1, Reg::Zero, 5);
    a.add_constraint(Reg::Zero, Reg::R1, 0);
    let mut b = Dbm::new();
    b.add_constraint(Reg::R1, Reg::Zero, 6);
    b.add_constraint(Reg::Zero, Reg::R1, 0);
    let w = a.widen(&b);
    assert_eq!(w.get(Reg::R1, Reg::Zero), INF);
    assert_eq!(w.get(Reg::Zero, Reg::R1), 0);
    let again = w.widen(&b);
    assert_eq!(again.get(Reg::R1, Reg::Zero), INF);
    assert_eq!(again.get(Reg::Zero, Reg::R1), 0);
    let n = a.narrow(&b);
    assert_eq!(n.get(Reg::R1, Reg::Zero), 5);
}

#[test]
fn arithmetic_moves_intervals() {
    let mut dbm = Dbm::new();
    ops::assign_interval(&mut dbm, Reg::R1, 2, 9);
    assert_eq!(ops::get_interval(&dbm, Reg::R1), (2, 9));
    ops::apply_add_imm(&mut dbm, Reg::R1, -5);
    assert_eq!(ops::get_interval(&dbm, Reg::R1), (-3, 4));
    ops::assign_reg_offset(&mut dbm, Reg::R2, Reg::R1, 10);
    assert_eq!(ops::get_distance_fixed(&dbm, Reg::R2, Reg::R1), Some(10));
    ops::assign_imm(&mut dbm, Reg::R3, 7);
    assert_eq!(ops::get_fixed_value(&dbm, Reg::R3), Some(7));
    assert!(ops::proven_positive(&dbm, Reg::R3));
    ops::apply_mul_imm(&mut dbm, Reg::R3, 6);
    assert_eq!(ops::get_interval(&dbm, Reg::R3), (42, 42));
    ops::apply_div_imm(&mut dbm, Reg::R3, 5);
    assert_eq!(ops::get_interval(&dbm, Reg::R3), (8, 8));
    ops::apply_neg(&mut dbm, Reg::R3);
    assert_eq!(ops::get_interval(&dbm, Reg::R3), (-8, -8));
}

#[test]
fn masks_bound_a_register() {
    let mut dbm = Dbm::new();
    ops::apply_and_imm(&mut dbm, Reg::R4, 255);
    assert_eq!(ops::get_interval(&dbm, Reg::R4), (0, 255));
    assert!(ops::proven_nonnegative(&dbm, Reg::R4));
    assert!(ops::proven_u32_range(&dbm, Reg::R4, Reg::Zero));
}

#[test]
fn assumptions_tighten_and_conflict() {
    let mut dbm = Dbm::new();
    ops::assume_ge_imm(&mut dbm, Reg::R1, 4);
    ops::assume_lt_imm(&mut dbm, Reg::R1, 8);
    assert_eq!(ops::get_interval(&dbm, Reg::R1), (4, 7));
    ops::assume_le(&mut dbm, Reg::R2, Reg::R1);
    assert_eq!(ops::get_interval(&dbm, Reg::R2).1, 7);
    ops::assume_gt(&mut dbm, Reg::R3, Reg::R1);
    assert_eq!(ops::get_interval(&dbm, Reg::R3).0, 5);
    ops::assume_eq_imm(&mut dbm, Reg::R1, 3);
    assert!(dbm.is_inconsistent());
}

#[test]
fn packet_accesses_need_proven_room() {
    let mut dbm = Dbm::new();
    ops::init_packet_anchors(&mut dbm);
    ops::bind_to_anchor(&mut dbm, Reg::R1, Reg::AnchorData);
    assert_eq!(ops::verify_packet_bounds(&dbm, Reg::R1, 0, 4), (true, false));
    ops::assign_reg_offset(&mut dbm, Reg::R2, Reg::R1, 14);
    ops::assume_le(&mut dbm, Reg::R2, Reg::AnchorDataEnd);
    assert_eq!(ops::verify_packet_bounds(&dbm, Reg::R1, 10, 4), (true, true));
    assert_eq!(ops::verify_packet_bounds(&dbm, Reg::R1, 11, 4), (true, false));
    assert_eq!(ops::verify_packet_bounds(&dbm, Reg::R1, -1, 1), (false, true));
}

#[test]
fn unknown_ranges_hold_everything() {
    let b = Bounds::unknown();
    assert_eq!((b.s64_min, b.s64_max), (i64::MIN, i64::MAX));
    assert_eq!((b.u32_min, b.u32_max), (0, u32::MAX));
}

#[test]
fn relations_are_rendered_on_one_line() {
    let mut dbm = Dbm::new();
    dbm.add_constraint(Reg::R1, Reg::R2, 3);
    dbm.add_constraint(Reg::R2, Reg::R1, -3);
    assert_eq!(dbm.relations_str(), "r1-r2==3");
    dbm.add_constraint(Reg::R4, Reg::R5, 9);
    dbm.add_constraint(Reg::R7, Reg::R6, 2);
    dbm.add_constraint(Reg::R8, Reg::R9, 4);
    dbm.add_constraint(Reg::R9, Reg::R8, -1);
    assert_eq!(dbm.relations_str(), "r1-r2==3  r4-r5<=9  r6-r7>=-2  r8-r9 in [1,4]");
    let m = dbm.matrix_str();
    assert!(m.starts_with("DBM [12 x 12]:\n                    0           r0 "), "{}", m);
    assert_eq!(m.lines().count(), 14);
    assert!(dbm.matrix_full_str().starts_with("DBM [15 x 15] (full, with anchors):\n"));
}

#[test]
fn negative_divisors_exchange_the_ends() {
    let mut dbm = Dbm::new();
    ops::assign_interval(&mut dbm, Reg::R1, 4, 10);
    ops::apply_div_imm(&mut dbm, Reg::R1, -2);
    assert_eq!(ops::get_interval(&dbm, Reg::R1), (-5, -2));
    assert!(!dbm.is_inconsistent());
}

#[test]
fn a_register_assigned_to_itself_keeps_its_bounds() {
    let mut dbm = Dbm::new();
    ops::assign_interval(&mut dbm, Reg::R1, 4, 10);
    ops::assign_reg_offset(&mut dbm, Reg::R2, Reg::R1, 3);
    ops::assign_reg(&mut dbm, Reg::R1, Reg::R1);
    assert_eq!(ops::get_interval(&dbm, Reg::R1), (4, 10));
    ops::assign_reg_offset(&mut dbm, Reg::R1, Reg::R1, 5);
    assert_eq!(ops::get_interval(&dbm, Reg::R1), (9, 15));
    assert_eq!(ops::get_distance_fixed(&dbm, Reg::R2, Reg::R1), Some(-2));
    assert!(!dbm.is_inconsistent());
}

#[test]
fn masks_bound_the_register() {
    let mut dbm = Dbm::new();
    ops::assign_interval(&mut dbm, Reg::R1, 4, 10);
    ops::apply_and_imm(&mut dbm, Reg::R1, 7);
    assert_eq!(ops::get_interval(&dbm, Reg::R1), (0, 7));
    ops::apply_and_imm(&mut dbm, Reg::R1, -8);
    assert!(dbm.is_inconsistent());
}

#[test]
fn added_registers_are_explained_by_the_addition() {
    let mut dbm = Dbm::new();
    dbm.enable_provenance();
    dbm.set_current_pc(1);
    ops::assign_reg_offset(&mut dbm, Reg::R1, Reg::R3, 2);
    ops::assign_interval(&mut dbm, Reg::R2, 4, 6);
    dbm.set_current_pc(7);
    ops::apply_add_reg(&mut dbm, Reg::R1, Reg::R2);
    let path = dbm.reconstruct_path(Reg::R1, Reg::R3).unwrap();
    assert_eq!(path.len(), 1);
    assert_eq!((path[0].weight, path[0].pc), (8, 7));
}

#[test]
fn shifted_bounds_stay_in_the_stored_range() {
    let mut dbm = Dbm::new();
    ops::assign_interval(&mut dbm, Reg::R1, 4, 10);
    ops::assign_interval(&mut dbm, Reg::R2, POS_BOUND - 1, POS_BOUND);
    ops::apply_add_imm(&mut dbm, Reg::R1, POS_BOUND);
    ops::apply_add_reg(&mut dbm, Reg::R2, Reg::R2);
    ops::apply_sub_reg(&mut dbm, Reg::R3, Reg::R2);
    for row in &dbm.data {
        for &c in row {
            assert!(c == INF || (NEG_BOUND <= c && c <= POS_BOUND));
        }
    }
    assert_eq!(dbm.get(Reg::R1, Reg::Zero), INF);
    assert_eq!(dbm.get(Reg::Zero, Reg::R1), NEG_BOUND);
    assert!(!dbm.is_inconsistent());
}

#[test]
fn paths_add_up_after_several_closures() {
    let mut dbm = Dbm::new();
    dbm.enable_provenance();
    dbm.set_current_pc(1);
    dbm.add_constraint(Reg::R1, Reg::R2, 4);
    dbm.add_constraint(Reg::R2, Reg::R3, 6);
    dbm.close();
    dbm.set_current_pc(2);
    dbm.add_constraint(Reg::R2, Reg::R3, 5);
    dbm.add_constraint(Reg::R3, Reg::R4, -2);
    dbm.close();
    assert!(!dbm.is_inconsistent());
    assert!(dbm.derivation_ends(Reg::R1, Reg::R4));
    let path = dbm.reconstruct_path(Reg::R1, Reg::R4).unwrap();
    let steps: Vec<_> = path.iter().map(|e| (e.to, e.from, e.weight, e.pc)).collect();
    assert_eq!(
        steps,
        vec![(Reg::R1, Reg::R2, 4, 1), (Reg::R2, Reg::R3, 5, 2), (Reg::R3, Reg::R4, -2, 2)]
    );
    assert_eq!(dbm.get(Reg::R1, Reg::R4), 7);
}

#[test]
fn closure_tells_satisfiable_bounds_from_others() {
    let mut dbm = Dbm::new();
    dbm.add_constraint(Reg::R1, Reg::R2, -1);
    dbm.add_constraint(Reg::R2, Reg::R3, -1);
    dbm.add_constraint(Reg::R3, Reg::R1, 2);
    dbm.close();
    assert!(!dbm.is_inconsistent());
    dbm.add_constraint(Reg::R3, Reg::R1, 1);
    dbm.close();
    assert!(dbm.is_inconsistent());
}
