use zovia::domains::interval::ops;
use zovia::domains::interval::state::{IntervalState, PtrOffset, RegInterval, ScalarBounds};
use zovia::domains::numeric::NumericDomain;
use zovia::machine::ids::IdCounter;
use zovia::machine::reg::Reg;

#[test]
fn constants_and_unknowns() {
    let c = ScalarBounds::constant(-5);
    assert!(c.is_constant());
    assert_eq!(c.get_constant(), Some(-5));
    assert!(!c.is_nonnegative());
    let u = ScalarBounds::unknown();
    assert!(!u.is_constant());
    assert_eq!(u.get_constant(), None);
    let n = ScalarBounds::nonnegative(9);
    assert!(n.is_nonnegative() && !n.is_positive() && n.is_u32());
}

#[test]
fn join_and_intersection_of_constants() {
    let a = ScalarBounds::constant(3);
    let b = ScalarBounds::constant(8);
    let j = a.join(&b);
    assert_eq!((j.smin, j.smax), (3, 8));
    let k = j.intersect(&ScalarBounds::nonnegative(5));
    assert_eq!((k.smin, k.smax), (3, 5));
}

#[test]
fn assumptions_carry_over_to_other_readings() {
    let mut b = ScalarBounds::unknown();
    b.assume_uge(4);
    b.assume_ule(9);
    assert_eq!((b.umin, b.umax, b.smax), (4, 9, 9));
    assert_eq!(b.smin, i64::MIN);
    assert_eq!((b.u32_min, b.u32_max, b.s32_min, b.s32_max), (4, 9, 4, 9));
    let mut n = ScalarBounds::nonnegative(100);
    n.assume_uge(4);
    assert_eq!((n.smin, n.smax), (4, 100));
    let mut c = ScalarBounds::unknown();
    c.assume_sge(0);
    c.assume_sle(12);
    assert_eq!((c.umin, c.umax), (0, 12));
}

#[test]
fn registers_follow_arithmetic() {
    let mut s = IntervalState::new();
    ops::assign_interval(&mut s, Reg::R1, 1, 4);
    ops::apply_add_imm(&mut s, Reg::R1, 10);
    assert_eq!(ops::get_interval(&s, Reg::R1), (11, 14));
    ops::assign_reg(&mut s, Reg::R2, Reg::R1);
    assert_eq!(ops::get_interval(&s, Reg::R2), (11, 14));
    ops::apply_and_imm(&mut s, Reg::R2, 7);
    assert_eq!(ops::get_interval(&s, Reg::R2), (0, 7));
    ops::assume_eq_imm(&mut s, Reg::R2, 5);
    assert_eq!(ops::get_fixed_value(&s, Reg::R2), Some(5));
    ops::forget(&mut s, Reg::R2);
    assert_eq!(ops::get_fixed_value(&s, Reg::R2), None);
}

#[test]
fn conflicting_assumptions_are_inconsistent() {
    let mut s = IntervalState::new();
    ops::assume_ge_imm(&mut s, Reg::R3, 10);
    assert!(!s.is_inconsistent());
    ops::assume_lt_imm(&mut s, Reg::R3, 10);
    assert!(s.is_inconsistent());
}

#[test]
fn pointers_keep_their_place() {
    let p = PtrOffset::with_var_off(Reg::AnchorData, 4, 16);
    assert_eq!(p.min_offset(), 4);
    assert_eq!(p.max_offset(), 20);
    let q = PtrOffset::at_fixed(Reg::AnchorData, 3);
    assert_eq!((q.min_offset(), q.max_offset()), (3, 3));
    let mut s = IntervalState::new();
    s.set(Reg::R1, RegInterval::with_ptr_offset(ScalarBounds::unknown(), p));
    assert!(s.get_ptr_offset(Reg::R1).is_some());
    assert!(s.get_ptr_offset(Reg::R2).is_none());
}

#[test]
fn identities_are_fresh() {
    let mut ids = IdCounter::new();
    let a = ids.fresh();
    let b = ids.fresh();
    assert_eq!((a, b), (1, 2));
    let mut last = IdCounter { next: u32::MAX };
    assert_eq!(last.fresh(), u32::MAX);
    assert_eq!(last.fresh(), 0);
}

#[test]
fn both_domains_answer_alike() {
    for mut d in [NumericDomain::new_zone(), NumericDomain::new_interval()] {
        d.assign_interval(Reg::R1, 0, 10);
        d.assume_ge_imm(Reg::R1, 3);
        assert_eq!(d.get_interval(Reg::R1), (3, 10));
        d.apply_add_imm(Reg::R1, 1);
        assert_eq!(d.get_interval(Reg::R1), (4, 11));
        d.assign_imm(Reg::R2, 0);
        assert!(d.proven_zero(Reg::R2));
        assert!(!d.is_inconsistent());
    }
    assert!(NumericDomain::new_zone().is_zone());
    assert!(NumericDomain::new_interval().is_interval_mode());
}

#[test]
fn ranges_follow_products_quotients_and_differences() {
    let mut s = IntervalState::new();
    ops::assign_interval(&mut s, Reg::R1, 2, 5);
    ops::apply_mul_imm(&mut s, Reg::R1, 6);
    assert_eq!(ops::get_interval(&s, Reg::R1), (12, 30));
    ops::apply_div_imm(&mut s, Reg::R1, 5);
    assert_eq!(ops::get_interval(&s, Reg::R1), (2, 6));
    ops::assign_interval(&mut s, Reg::R2, 1, 3);
    ops::apply_sub_reg(&mut s, Reg::R1, Reg::R2);
    assert_eq!(ops::get_interval(&s, Reg::R1), (-1, 5));
    ops::apply_neg(&mut s, Reg::R1);
    assert_eq!(ops::get_interval(&s, Reg::R1), (-5, 1));
    ops::apply_add_reg(&mut s, Reg::R1, Reg::R2);
    assert_eq!(ops::get_interval(&s, Reg::R1), (-4, 4));
    assert_eq!(ops::get_distance_interval(&s, Reg::R1, Reg::R2), (-7, 3));
}

#[test]
fn comparisons_of_registers_tighten_both() {
    let mut s = IntervalState::new();
    ops::assign_interval(&mut s, Reg::R1, 0, 20);
    ops::assign_interval(&mut s, Reg::R2, 5, 10);
    ops::assume_le(&mut s, Reg::R1, Reg::R2);
    assert_eq!(ops::get_interval(&s, Reg::R1), (0, 10));
    assert_eq!(ops::get_interval(&s, Reg::R2), (5, 10));
    ops::assign_interval(&mut s, Reg::R3, 7, 9);
    ops::assume_ge(&mut s, Reg::R2, Reg::R3);
    assert_eq!(ops::get_interval(&s, Reg::R2), (7, 10));
}

#[test]
fn greater_than_goes_by_the_far_ends() {
    let mut s = IntervalState::new();
    ops::assign_interval(&mut s, Reg::R1, 0, 10);
    ops::assign_interval(&mut s, Reg::R2, 0, 5);
    ops::assume_gt(&mut s, Reg::R1, Reg::R2);
    assert_eq!(ops::get_interval(&s, Reg::R1), (1, 10));
    assert_eq!(ops::get_interval(&s, Reg::R2), (0, 5));
    assert!(!s.is_inconsistent());
    ops::assign_interval(&mut s, Reg::R3, 0, 3);
    ops::assume_gt(&mut s, Reg::R3, Reg::R1);
    assert_eq!(ops::get_interval(&s, Reg::R3), (2, 3));
    assert_eq!(ops::get_interval(&s, Reg::R1), (1, 2));
}

#[test]
fn ranges_from_zero_fit_every_reading() {
    let b = ScalarBounds::nonnegative(0x9000_0000);
    assert_eq!((b.smin, b.smax, b.umin, b.umax), (0, 0x9000_0000, 0, 0x9000_0000));
    assert_eq!((b.s32_min, b.s32_max), (i32::MIN, i32::MAX));
    assert_eq!((b.u32_min, b.u32_max), (0, 0x9000_0000));
    let c = ScalarBounds::nonnegative(0x7fff_ffff);
    assert_eq!((c.s32_min, c.s32_max), (0, i32::MAX));
    let d = ScalarBounds::nonnegative(u64::MAX);
    assert_eq!((d.smin, d.smax, d.umax, d.u32_max), (0, i64::MAX, u64::MAX, u32::MAX));
}

#[test]
fn signed_upper_bounds_keep_negative_numbers() {
    let mut b = ScalarBounds::unknown();
    b.assume_sle(12);
    assert_eq!((b.smin, b.smax, b.umin, b.umax), (i64::MIN, 12, 0, u64::MAX));
}

#[test]
fn wholly_unknown_offsets_reach_to_the_end() {
    let p = PtrOffset::with_var_off(Reg::AnchorData, 0, u64::MAX);
    assert_eq!((p.min_offset(), p.max_offset()), (0, i64::MAX));
    let q = PtrOffset::with_var_off(Reg::AnchorData, -10, u64::MAX);
    assert_eq!(q.max_offset(), i64::MAX);
    let r = PtrOffset::with_var_off(Reg::AnchorData, -10, 4);
    assert_eq!(r.max_offset(), -6);
}

#[test]
fn negation_of_an_unknown_register_is_unknown() {
    let mut s = IntervalState::new();
    ops::apply_neg(&mut s, Reg::R1);
    assert_eq!(ops::get_interval(&s, Reg::R1), (i64::MIN, i64::MAX));
    assert!(!s.is_inconsistent());
    ops::assign_interval(&mut s, Reg::R1, -3, 7);
    ops::apply_neg(&mut s, Reg::R1);
    assert_eq!(ops::get_interval(&s, Reg::R1), (-7, 3));
}

#[test]
fn low_halves_have_bounds_of_their_own() {
    let mut d = NumericDomain::new_interval();
    assert_eq!(d.get_s32_bounds(Reg::R1), (i32::MIN, i32::MAX));
    d.assign_interval(Reg::R1, 3, 8);
    assert_eq!(d.get_s32_bounds(Reg::R1), (3, 8));
}

#[test]
fn sums_that_wrap_keep_the_true_value() {
    let mut s = IntervalState::new();
    ops::assign_imm(&mut s, Reg::R1, 10);
    ops::apply_add_imm(&mut s, Reg::R1, -5);
    let b = *s.get_bounds(Reg::R1);
    assert_eq!((b.smin, b.smax, b.umin, b.umax), (5, 5, 5, 5));
    ops::assign_imm(&mut s, Reg::R2, 3);
    ops::apply_sub_reg(&mut s, Reg::R2, Reg::R1);
    let b = *s.get_bounds(Reg::R2);
    assert_eq!((b.smin, b.smax), (-2, -2));
    assert_eq!((b.umin, b.umax), (u64::MAX - 1, u64::MAX - 1));
    ops::assign_interval(&mut s, Reg::R3, 0, 10);
    ops::apply_add_imm(&mut s, Reg::R3, -5);
    let b = *s.get_bounds(Reg::R3);
    assert_eq!((b.smin, b.smax, b.umin, b.umax), (-5, 5, 0, u64::MAX));
    ops::assign_interval(&mut s, Reg::R4, -2, 4);
    ops::apply_mul_imm(&mut s, Reg::R4, 3);
    let b = *s.get_bounds(Reg::R4);
    assert_eq!((b.smin, b.smax, b.umin, b.umax), (-6, 12, 0, u64::MAX));
}

#[test]
fn added_numbers_move_and_spread_a_pointer() {
    let mut s = IntervalState::new();
    ops::bind_to_anchor(&mut s, Reg::R1, Reg::AnchorData);
    ops::assign_interval(&mut s, Reg::R2, 4, 9);
    ops::apply_add_reg(&mut s, Reg::R1, Reg::R2);
    let p = s.get_ptr_offset(Reg::R1).unwrap();
    assert_eq!((p.min_offset(), p.max_offset()), (4, 9));
    assert_eq!(ops::get_distance_interval(&s, Reg::R1, Reg::R1), (0, 0));
    ops::init_packet_anchors(&mut s);
    assert_eq!(ops::get_distance_interval(&s, Reg::R1, Reg::AnchorData), (4, 9));
}

#[test]
fn metadata_is_not_judged_by_the_size_of_the_packet() {
    let mut s = IntervalState::new();
    s.packet_size_lower_bound = Some(64);
    ops::bind_to_anchor(&mut s, Reg::R1, Reg::AnchorDataMeta);
    ops::bind_to_anchor(&mut s, Reg::R2, Reg::AnchorData);
    assert_eq!(ops::verify_packet_meta_bounds(&s, Reg::R1, 0, 8), (true, false));
    assert_eq!(ops::verify_packet_bounds(&s, Reg::R2, 0, 8), (true, true));
    s.meta_size_lower_bound = Some(8);
    assert_eq!(ops::verify_packet_meta_bounds(&s, Reg::R1, 0, 8), (true, true));
    assert_eq!(ops::verify_packet_meta_bounds(&s, Reg::R1, 1, 8), (true, false));
}
