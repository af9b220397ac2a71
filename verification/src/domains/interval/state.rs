//! The interval domain's state: bounds and pointer offsets per register.
use crate::machine::ids::IdCounter;
use crate::machine::reg::{Reg, DBM_DIM};
use crate::num::{
    clip64, max_i32, max_i64, max_u32, max_u64, min_i32, min_i64, min_u32, min_u64,
    sat_add_unsigned,
};
use crate::text::{contents, dec, join, joined, push_nat};
use vstd::prelude::*;

verus! {

/// Takes an identity for a family of registers that hold the same scalar.
pub fn new_scalar_id(counter: &mut IdCounter) -> (r: u32)
    ensures
        r == old(counter).next,
        *final(counter) == old(counter).after(),
{
    counter.fresh()
}

/// Bounds of a register: its 64 bits and its low 32 bits, each read as signed
/// and as unsigned.
#[derive(Debug, Clone, Copy, PartialEq, Eq, Structural)]
pub struct ScalarBounds {
    pub smin: i64,
    pub smax: i64,
    pub umin: u64,
    pub umax: u64,
    pub s32_min: i32,
    pub s32_max: i32,
    pub u32_min: u32,
    pub u32_max: u32,
    /// Registers that are copies of one another share this identity.
    pub scalar_id: Option<u32>,
}

/// The low 32 bits of `u`.
pub open spec fn low32(u: u64) -> u32 {
    u as u32
}

/// 64-bit unsigned bounds carried to the low half when the upper half is
/// fixed.
pub open spec fn sync_from_u64(b: ScalarBounds) -> ScalarBounds {
    if b.umin >> 32 == b.umax >> 32 {
        let b1 = ScalarBounds {
            u32_min: max_u32(b.u32_min, b.umin as u32),
            u32_max: min_u32(b.u32_max, b.umax as u32),
            ..b
        };
        if (b.umin as i32) <= (b.umax as i32) {
            ScalarBounds {
                s32_min: max_i32(b.s32_min, b.umin as i32),
                s32_max: min_i32(b.s32_max, b.umax as i32),
                ..b1
            }
        } else {
            b1
        }
    } else {
        b
    }
}

/// 64-bit signed bounds carried to the low half when the upper half is fixed.
pub open spec fn sync_from_s64(b: ScalarBounds) -> ScalarBounds {
    if b.smin >> 32 == b.smax >> 32 {
        let b1 = if (b.smin as u32) <= (b.smax as u32) {
            ScalarBounds {
                u32_min: max_u32(b.u32_min, b.smin as u32),
                u32_max: min_u32(b.u32_max, b.smax as u32),
                ..b
            }
        } else {
            b
        };
        if (b.smin as i32) <= (b.smax as i32) {
            ScalarBounds {
                s32_min: max_i32(b.s32_min, b.smin as i32),
                s32_max: min_i32(b.s32_max, b.smax as i32),
                ..b1
            }
        } else {
            b1
        }
    } else {
        b
    }
}

/// Unsigned 32-bit bounds carried to the signed ones when their order is the
/// same.
pub open spec fn sync_u32_to_s32(b: ScalarBounds) -> ScalarBounds {
    if (b.u32_min as i32) <= (b.u32_max as i32) {
        ScalarBounds {
            s32_min: max_i32(b.s32_min, b.u32_min as i32),
            s32_max: min_i32(b.s32_max, b.u32_max as i32),
            ..b
        }
    } else {
        b
    }
}

/// Signed 32-bit bounds carried to the unsigned ones when their order is the
/// same.
pub open spec fn sync_s32_to_u32(b: ScalarBounds) -> ScalarBounds {
    if (b.s32_min as u32) <= (b.s32_max as u32) {
        ScalarBounds {
            u32_min: max_u32(b.u32_min, b.s32_min as u32),
            u32_max: min_u32(b.u32_max, b.s32_max as u32),
            ..b
        }
    } else {
        b
    }
}

impl ScalarBounds {
    pub open spec fn spec_unknown() -> ScalarBounds {
        ScalarBounds {
            smin: i64::MIN,
            smax: i64::MAX,
            umin: 0,
            umax: u64::MAX,
            s32_min: i32::MIN,
            s32_max: i32::MAX,
            u32_min: 0,
            u32_max: u32::MAX,
            scalar_id: None,
        }
    }

    /// Bounds of a register about which nothing is known.
    #[verifier::when_used_as_spec(spec_unknown)]
    pub fn unknown() -> (r: Self)
        ensures
            r == ScalarBounds::spec_unknown(),
    {
        ScalarBounds {
            smin: i64::MIN,
            smax: i64::MAX,
            umin: 0,
            umax: u64::MAX,
            s32_min: i32::MIN,
            s32_max: i32::MAX,
            u32_min: 0,
            u32_max: u32::MAX,
            scalar_id: None,
        }
    }

    pub open spec fn spec_constant(val: i64) -> ScalarBounds {
        ScalarBounds {
            smin: val,
            smax: val,
            umin: val as u64,
            umax: val as u64,
            s32_min: low32(val as u64) as i32,
            s32_max: low32(val as u64) as i32,
            u32_min: low32(val as u64),
            u32_max: low32(val as u64),
            scalar_id: None,
        }
    }

    /// Bounds of a register that holds `val`.
    #[verifier::when_used_as_spec(spec_constant)]
    pub fn constant(val: i64) -> (r: Self)
        ensures
            r == ScalarBounds::spec_constant(val),
    {
        let low: u32 = val as u64 as u32;
        let low_signed: i32 = low as i32;
        ScalarBounds {
            smin: val,
            smax: val,
            umin: val as u64,
            umax: val as u64,
            s32_min: low_signed,
            s32_max: low_signed,
            u32_min: low,
            u32_max: low,
            scalar_id: None,
        }
    }

    pub open spec fn spec_nonnegative(max: u64) -> ScalarBounds {
        ScalarBounds {
            smin: 0,
            smax: if max <= i64::MAX { max as i64 } else { i64::MAX },
            umin: 0,
            umax: max,
            s32_min: if max <= i32::MAX { 0 } else { i32::MIN },
            s32_max: if max <= i32::MAX { max as i32 } else { i32::MAX },
            u32_min: 0,
            u32_max: if max <= u32::MAX { max as u32 } else { u32::MAX },
            scalar_id: None,
        }
    }

    /// Bounds of a register that holds a number from zero to `max`. A reading
    /// of the low half is bounded only if `max` fits in it.
    #[verifier::when_used_as_spec(spec_nonnegative)]
    pub fn nonnegative(max: u64) -> (r: Self)
        ensures
            r == ScalarBounds::spec_nonnegative(max),
    {
        let fits_signed = max <= i32::MAX as u64;
        ScalarBounds {
            smin: 0,
            smax: if max <= i64::MAX as u64 { max as i64 } else { i64::MAX },
            umin: 0,
            umax: max,
            s32_min: if fits_signed { 0 } else { i32::MIN },
            s32_max: if fits_signed { max as i32 } else { i32::MAX },
            u32_min: 0,
            u32_max: if max <= u32::MAX as u64 { max as u32 } else { u32::MAX },
            scalar_id: None,
        }
    }

    pub open spec fn spec_is_constant(&self) -> bool {
        self.smin == self.smax && self.umin == self.umax
    }

    /// Whether only one value is possible.
    #[verifier::when_used_as_spec(spec_is_constant)]
    pub fn is_constant(&self) -> (r: bool)
        ensures
            r == self.spec_is_constant(),
    {
        self.smin == self.smax && self.umin == self.umax
    }

    pub open spec fn spec_get_constant(&self) -> Option<i64> {
        if self.is_constant() { Some(self.smin) } else { None }
    }

    /// The only possible value, if there is just one.
    #[verifier::when_used_as_spec(spec_get_constant)]
    pub fn get_constant(&self) -> (r: Option<i64>)
        ensures
            r == self.spec_get_constant(),
    {
        if self.is_constant() { Some(self.smin) } else { None }
    }

    /// Whether the value is known to be at least zero.
    pub fn is_nonnegative(&self) -> (r: bool)
        ensures
            r == (self.smin >= 0),
    {
        self.smin >= 0
    }

    /// Whether the value is known to be greater than zero.
    pub fn is_positive(&self) -> (r: bool)
        ensures
            r == (self.smin > 0),
    {
        self.smin > 0
    }

    /// Whether the value is known to be zero.
    pub fn is_zero(&self) -> (r: bool)
        ensures
            r == (self.smin == 0 && self.smax == 0),
    {
        self.smin == 0 && self.smax == 0
    }

    /// Whether the value is known to fit in 32 bits.
    pub fn is_u32(&self) -> (r: bool)
        ensures
            r == (self.smin >= 0 && self.umax <= u32::MAX),
    {
        self.smin >= 0 && self.umax <= u32::MAX as u64
    }

    pub open spec fn spec_intersect(&self, other: &ScalarBounds) -> ScalarBounds {
        ScalarBounds {
            smin: max_i64(self.smin, other.smin),
            smax: min_i64(self.smax, other.smax),
            umin: max_u64(self.umin, other.umin),
            umax: min_u64(self.umax, other.umax),
            s32_min: max_i32(self.s32_min, other.s32_min),
            s32_max: min_i32(self.s32_max, other.s32_max),
            u32_min: max_u32(self.u32_min, other.u32_min),
            u32_max: min_u32(self.u32_max, other.u32_max),
            scalar_id: if self.scalar_id == other.scalar_id { self.scalar_id } else { None },
        }
    }

    /// The common part of two sets of bounds.
    pub fn intersect(&self, other: &ScalarBounds) -> (r: ScalarBounds)
        ensures
            r == self.spec_intersect(other),
    {
        ScalarBounds {
            smin: max_i64(self.smin, other.smin),
            smax: min_i64(self.smax, other.smax),
            umin: max_u64(self.umin, other.umin),
            umax: min_u64(self.umax, other.umax),
            s32_min: max_i32(self.s32_min, other.s32_min),
            s32_max: min_i32(self.s32_max, other.s32_max),
            u32_min: max_u32(self.u32_min, other.u32_min),
            u32_max: min_u32(self.u32_max, other.u32_max),
            scalar_id: if self.scalar_id == other.scalar_id { self.scalar_id } else { None },
        }
    }

    pub open spec fn spec_join(&self, other: &ScalarBounds) -> ScalarBounds {
        ScalarBounds {
            smin: min_i64(self.smin, other.smin),
            smax: max_i64(self.smax, other.smax),
            umin: min_u64(self.umin, other.umin),
            umax: max_u64(self.umax, other.umax),
            s32_min: min_i32(self.s32_min, other.s32_min),
            s32_max: max_i32(self.s32_max, other.s32_max),
            u32_min: min_u32(self.u32_min, other.u32_min),
            u32_max: max_u32(self.u32_max, other.u32_max),
            scalar_id: if self.scalar_id == other.scalar_id { self.scalar_id } else { None },
        }
    }

    /// The least bounds that cover both.
    pub fn join(&self, other: &ScalarBounds) -> (r: ScalarBounds)
        ensures
            r == self.spec_join(other),
    {
        ScalarBounds {
            smin: min_i64(self.smin, other.smin),
            smax: max_i64(self.smax, other.smax),
            umin: min_u64(self.umin, other.umin),
            umax: max_u64(self.umax, other.umax),
            s32_min: min_i32(self.s32_min, other.s32_min),
            s32_max: max_i32(self.s32_max, other.s32_max),
            u32_min: min_u32(self.u32_min, other.u32_min),
            u32_max: max_u32(self.u32_max, other.u32_max),
            scalar_id: if self.scalar_id == other.scalar_id { self.scalar_id } else { None },
        }
    }

    /// The bounds with those of the low half made as tight as the others
    /// allow.
    pub open spec fn synced(self) -> ScalarBounds {
        sync_s32_to_u32(sync_u32_to_s32(sync_from_s64(sync_from_u64(self))))
    }

    /// Tightens the bounds of the low half by the other bounds.
    pub fn sync_bounds(&mut self)
        ensures
            *final(self) == old(self).synced(),
    {
        if (self.umin >> 32) == (self.umax >> 32) {
            let lo_min: u32 = self.umin as u32;
            let lo_max: u32 = self.umax as u32;
            self.u32_min = max_u32(self.u32_min, lo_min);
            self.u32_max = min_u32(self.u32_max, lo_max);
            if (self.umin as i32) <= (self.umax as i32) {
                self.s32_min = max_i32(self.s32_min, self.umin as i32);
                self.s32_max = min_i32(self.s32_max, self.umax as i32);
            }
        }
        if (self.smin >> 32) == (self.smax >> 32) {
            if (self.smin as u32) <= (self.smax as u32) {
                self.u32_min = max_u32(self.u32_min, self.smin as u32);
                self.u32_max = min_u32(self.u32_max, self.smax as u32);
            }
            if (self.smin as i32) <= (self.smax as i32) {
                self.s32_min = max_i32(self.s32_min, self.smin as i32);
                self.s32_max = min_i32(self.s32_max, self.smax as i32);
            }
        }
        if (self.u32_min as i32) <= (self.u32_max as i32) {
            self.s32_min = max_i32(self.s32_min, self.u32_min as i32);
            self.s32_max = min_i32(self.s32_max, self.u32_max as i32);
        }
        if (self.s32_min as u32) <= (self.s32_max as u32) {
            self.u32_min = max_u32(self.u32_min, self.s32_min as u32);
            self.u32_max = min_u32(self.u32_max, self.s32_max as u32);
        }
    }

    /// The bounds with those of the low half derived anew from the others.
    pub open spec fn resynced(self) -> ScalarBounds {
        ScalarBounds {
            s32_min: i32::MIN,
            s32_max: i32::MAX,
            u32_min: 0,
            u32_max: u32::MAX,
            ..self
        }.synced()
    }

    /// Derives the bounds of the low half anew from the others.
    pub fn forget_32_then_sync(&mut self)
        ensures
            *final(self) == old(self).resynced(),
    {
        self.s32_min = i32::MIN;
        self.s32_max = i32::MAX;
        self.u32_min = 0;
        self.u32_max = u32::MAX;
        self.sync_bounds();
    }

    pub open spec fn at_most(self, c: i64) -> ScalarBounds {
        ScalarBounds {
            smax: min_i64(self.smax, c),
            umax: if c >= 0 && self.smin >= 0 {
                min_u64(self.umax, c as u64)
            } else {
                self.umax
            },
            ..self
        }.synced()
    }

    /// Signed `value <= c`. As an unsigned number the value is bounded by it
    /// only if it cannot be negative.
    pub fn assume_sle(&mut self, c: i64)
        ensures
            *final(self) == old(self).at_most(c),
    {
        self.smax = min_i64(self.smax, c);
        if c >= 0 && self.smin >= 0 {
            self.umax = min_u64(self.umax, c as u64);
        }
        self.sync_bounds();
    }

    pub open spec fn at_least(self, c: i64) -> ScalarBounds {
        ScalarBounds {
            smin: max_i64(self.smin, c),
            umin: if c >= 0 { max_u64(self.umin, c as u64) } else { self.umin },
            ..self
        }.synced()
    }

    /// Signed `value >= c`.
    pub fn assume_sge(&mut self, c: i64)
        ensures
            *final(self) == old(self).at_least(c),
    {
        self.smin = max_i64(self.smin, c);
        if c >= 0 {
            self.umin = max_u64(self.umin, c as u64);
        }
        self.sync_bounds();
    }

    pub open spec fn at_most_unsigned(self, c: u64) -> ScalarBounds {
        ScalarBounds {
            umax: min_u64(self.umax, c),
            smax: if c <= i64::MAX { min_i64(self.smax, c as i64) } else { self.smax },
            ..self
        }.synced()
    }

    /// Unsigned `value <= c`.
    pub fn assume_ule(&mut self, c: u64)
        ensures
            *final(self) == old(self).at_most_unsigned(c),
    {
        self.umax = min_u64(self.umax, c);
        if c <= i64::MAX as u64 {
            self.smax = min_i64(self.smax, c as i64);
        }
        self.sync_bounds();
    }

    pub open spec fn at_least_unsigned(self, c: u64) -> ScalarBounds {
        ScalarBounds {
            umin: max_u64(self.umin, c),
            smin: if c <= i64::MAX && self.smin >= 0 {
                max_i64(self.smin, c as i64)
            } else {
                self.smin
            },
            ..self
        }.synced()
    }

    /// Unsigned `value >= c`.
    pub fn assume_uge(&mut self, c: u64)
        ensures
            *final(self) == old(self).at_least_unsigned(c),
    {
        self.umin = max_u64(self.umin, c);
        if c <= i64::MAX as u64 && self.smin >= 0 {
            self.smin = max_i64(self.smin, c as i64);
        }
        self.sync_bounds();
    }
}

impl Default for ScalarBounds {
    fn default() -> (r: Self)
        ensures
            r == ScalarBounds::unknown(),
    {
        ScalarBounds::unknown()
    }
}

/// Where a pointer stands relative to an anchor: somewhere in
/// `[off, off + var_off]`.
#[derive(Debug, Clone, Copy, PartialEq, Eq, Structural)]
pub struct PtrOffset {
    pub anchor: Reg,
    pub off: i64,
    pub var_off: u64,
    /// How far past the anchor an access is known to be safe.
    pub range: Option<i64>,
    /// Pointers with the same identity share their variable offset.
    pub id: Option<u32>,
}

impl PtrOffset {
    pub open spec fn spec_with_var_off(anchor: Reg, off: i64, var_off: u64) -> PtrOffset {
        PtrOffset { anchor, off, var_off, range: None, id: None }
    }

    /// A pointer equal to its anchor.
    pub fn at_anchor(anchor: Reg) -> (r: Self)
        ensures
            r == PtrOffset::spec_with_var_off(anchor, 0, 0),
    {
        PtrOffset { anchor, off: 0, var_off: 0, range: None, id: None }
    }

    /// A pointer at a fixed distance from its anchor.
    pub fn at_fixed(anchor: Reg, off: i64) -> (r: Self)
        ensures
            r == PtrOffset::spec_with_var_off(anchor, off, 0),
    {
        PtrOffset { anchor, off, var_off: 0, range: None, id: None }
    }

    /// A pointer at a distance between `off` and `off + var_off`.
    pub fn with_var_off(anchor: Reg, off: i64, var_off: u64) -> (r: Self)
        ensures
            r == PtrOffset::spec_with_var_off(anchor, off, var_off),
    {
        PtrOffset { anchor, off, var_off, range: None, id: None }
    }

    /// The least possible offset.
    pub fn min_offset(&self) -> (r: i64)
        ensures
            r == self.off,
    {
        self.off
    }

    pub open spec fn spec_max_offset(&self) -> i64 {
        clip64(self.off + self.var_off)
    }

    /// The greatest possible offset, clipped.
    #[verifier::when_used_as_spec(spec_max_offset)]
    pub fn max_offset(&self) -> (r: i64)
        ensures
            r == self.spec_max_offset(),
    {
        sat_add_unsigned(self.off, self.var_off)
    }
}

/// What is known of one register.
#[derive(Debug, Clone, Copy, PartialEq, Eq, Structural)]
pub struct RegInterval {
    pub bounds: ScalarBounds,
    pub ptr_offset: Option<PtrOffset>,
}

impl RegInterval {
    pub open spec fn spec_unknown() -> RegInterval {
        RegInterval { bounds: ScalarBounds::unknown(), ptr_offset: None }
    }

    /// A register about which nothing is known.
    #[verifier::when_used_as_spec(spec_unknown)]
    pub fn unknown() -> (r: Self)
        ensures
            r == RegInterval::spec_unknown(),
    {
        RegInterval { bounds: ScalarBounds::unknown(), ptr_offset: None }
    }

    pub open spec fn spec_constant(val: i64) -> RegInterval {
        RegInterval { bounds: ScalarBounds::constant(val), ptr_offset: None }
    }

    /// A register that holds `val`.
    #[verifier::when_used_as_spec(spec_constant)]
    pub fn constant(val: i64) -> (r: Self)
        ensures
            r == RegInterval::spec_constant(val),
    {
        RegInterval { bounds: ScalarBounds::constant(val), ptr_offset: None }
    }

    pub open spec fn spec_with_ptr_offset(
        bounds: ScalarBounds,
        ptr_offset: PtrOffset,
    ) -> RegInterval {
        RegInterval { bounds, ptr_offset: Some(ptr_offset) }
    }

    /// A register that holds a pointer.
    #[verifier::when_used_as_spec(spec_with_ptr_offset)]
    pub fn with_ptr_offset(bounds: ScalarBounds, ptr_offset: PtrOffset) -> (r: Self)
        ensures
            r == RegInterval::spec_with_ptr_offset(bounds, ptr_offset),
    {
        RegInterval { bounds, ptr_offset: Some(ptr_offset) }
    }

    /// A register that holds the anchor itself.
    pub open spec fn anchored(anchor: Reg) -> RegInterval {
        RegInterval {
            bounds: ScalarBounds::unknown(),
            ptr_offset: Some(PtrOffset::spec_with_var_off(anchor, 0, 0)),
        }
    }
}

impl Default for RegInterval {
    fn default() -> (r: Self)
        ensures
            r == RegInterval::unknown(),
    {
        RegInterval::unknown()
    }
}

/// What an [`IntervalState`] holds.
#[verifier::ext_equal]
pub struct Intervals {
    pub regs: Seq<RegInterval>,
    pub packet_lower: Option<u64>,
    pub packet_upper: Option<u64>,
    pub meta_lower: Option<u64>,
    pub meta_upper: Option<u64>,
}

impl Intervals {
    /// What is known of register `r`.
    pub open spec fn reg(self, r: Reg) -> RegInterval {
        self.regs[r.idx() as int]
    }

    /// The state with what is known of `r` replaced, be it zero or not.
    pub open spec fn put(self, r: Reg, x: RegInterval) -> Intervals {
        Intervals { regs: self.regs.update(r.idx() as int, x), ..self }
    }

    /// The state with what is known of `r` replaced; zero stays zero.
    pub open spec fn set(self, r: Reg, x: RegInterval) -> Intervals {
        if r == Reg::Zero { self } else { self.put(r, x) }
    }

    /// The state with the bounds of `r` replaced.
    pub open spec fn put_bounds(self, r: Reg, b: ScalarBounds) -> Intervals {
        self.put(r, RegInterval { bounds: b, ..self.reg(r) })
    }

    /// The state at program entry.
    pub open spec fn initial() -> Intervals {
        Intervals {
            regs: Seq::new(
                DBM_DIM as nat,
                |i: int|
                    if i == 0 {
                        RegInterval::constant(0)
                    } else if i == 11 {
                        RegInterval::anchored(Reg::R10)
                    } else if i == 12 {
                        RegInterval::anchored(Reg::AnchorDataMeta)
                    } else if i == 13 {
                        RegInterval::anchored(Reg::AnchorData)
                    } else if i == 14 {
                        RegInterval::anchored(Reg::AnchorDataEnd)
                    } else {
                        RegInterval::unknown()
                    },
            ),
            packet_lower: None,
            packet_upper: None,
            meta_lower: None,
            meta_upper: None,
        }
    }

    /// Some register or region can have no value at all.
    pub open spec fn inconsistent(self) -> bool {
        ||| exists|i: int|
            0 <= i < self.regs.len() && empty_bounds((#[trigger] self.regs[i]).bounds)
        ||| crossed(self.packet_lower, self.packet_upper)
        ||| crossed(self.meta_lower, self.meta_upper)
    }
}

/// No 64-bit value satisfies the bounds.
pub open spec fn empty_bounds(b: ScalarBounds) -> bool {
    b.smin > b.smax || b.umin > b.umax
}

/// No size is at least `lower` and less than `upper`.
pub open spec fn crossed(lower: Option<u64>, upper: Option<u64>) -> bool {
    lower is Some && upper is Some && lower->0 >= upper->0
}

/// How the bounds on a region's size are shown.
pub open spec fn size_text(
    name: Seq<char>,
    lower: Option<u64>,
    upper: Option<u64>,
) -> Seq<Seq<char>> {
    match (lower, upper) {
        (Some(lo), Some(hi)) => seq![
            name + " in ["@ + dec(lo as int) + ","@ + dec(hi as int) + ")"@,
        ],
        (Some(lo), None) => seq![name + ">="@ + dec(lo as int)],
        (None, Some(hi)) => seq![name + "<"@ + dec(hi as int)],
        (None, None) => seq![],
    }
}

fn push_size(parts: &mut Vec<String>, name: &str, lower: Option<u64>, upper: Option<u64>)
    ensures
        contents(final(parts)@) == contents(old(parts)@) + size_text(name@, lower, upper),
{
    let ghost before = parts@;
    let mut out = String::new();
    out.append(name);
    match (lower, upper) {
        (Some(lo), Some(hi)) => {
            out.append(" in [");
            push_nat(&mut out, lo);
            out.append(",");
            push_nat(&mut out, hi);
            out.append(")");
        },
        (Some(lo), None) => {
            out.append(">=");
            push_nat(&mut out, lo);
        },
        (None, Some(hi)) => {
            out.append("<");
            push_nat(&mut out, hi);
        },
        (None, None) => {
            assert(contents(parts@) =~= contents(before) + size_text(name@, lower, upper));
            return;
        },
    }
    assert(seq![out@] =~= size_text(name@, lower, upper));
    parts.push(out);
    assert(contents(parts@) =~= contents(before) + size_text(name@, lower, upper));
}

/// Per-register bounds without relations between registers.
#[derive(Debug)]
pub struct IntervalState {
    pub regs: Vec<RegInterval>,
    pub packet_size_lower_bound: Option<u64>,
    pub packet_size_upper_bound: Option<u64>,
    pub meta_size_lower_bound: Option<u64>,
    pub meta_size_upper_bound: Option<u64>,
}

impl IntervalState {
    pub open spec fn view(&self) -> Intervals {
        Intervals {
            regs: self.regs@,
            packet_lower: self.packet_size_lower_bound,
            packet_upper: self.packet_size_upper_bound,
            meta_lower: self.meta_size_lower_bound,
            meta_upper: self.meta_size_upper_bound,
        }
    }

    /// There is one entry for each register.
    pub open spec fn wf(&self) -> bool {
        self.regs@.len() == DBM_DIM
    }

    /// The state at program entry: the zero register is zero, the anchors and
    /// the frame pointer stand at themselves, and nothing else is known.
    pub fn new() -> (r: Self)
        ensures
            r@ == Intervals::initial(),
            r.wf(),
    {
        let mut regs: Vec<RegInterval> = Vec::new();
        let mut i: usize = 0;
        while i < DBM_DIM
            invariant
                i <= DBM_DIM,
                regs@.len() == i,
                forall|k: int| 0 <= k < i ==> regs@[k] == RegInterval::unknown(),
            decreases DBM_DIM - i,
        {
            regs.push(RegInterval::unknown());
            i = i + 1;
        }
        regs[Reg::Zero.idx()] = RegInterval::constant(0);
        regs[Reg::AnchorData.idx()] = RegInterval::with_ptr_offset(
            ScalarBounds::unknown(),
            PtrOffset::at_anchor(Reg::AnchorData),
        );
        regs[Reg::AnchorDataEnd.idx()] = RegInterval::with_ptr_offset(
            ScalarBounds::unknown(),
            PtrOffset::at_anchor(Reg::AnchorDataEnd),
        );
        regs[Reg::AnchorDataMeta.idx()] = RegInterval::with_ptr_offset(
            ScalarBounds::unknown(),
            PtrOffset::at_anchor(Reg::AnchorDataMeta),
        );
        regs[Reg::R10.idx()] = RegInterval::with_ptr_offset(
            ScalarBounds::unknown(),
            PtrOffset::at_anchor(Reg::R10),
        );
        assert(regs@ =~= Intervals::initial().regs);
        IntervalState {
            regs,
            packet_size_lower_bound: None,
            packet_size_upper_bound: None,
            meta_size_lower_bound: None,
            meta_size_upper_bound: None,
        }
    }

    /// What is known of a register.
    pub fn get(&self, r: Reg) -> (x: &RegInterval)
        requires
            self.wf(),
        ensures
            *x == self@.reg(r),
    {
        &self.regs[r.idx()]
    }

    /// What is known of a register, to be changed.
    pub fn get_mut(&mut self, r: Reg) -> (x: &mut RegInterval)
        requires
            old(self).wf(),
        ensures
            *x == old(self)@.reg(r),
            final(self)@ == old(self)@.put(r, *final(x)),
            final(self).wf(),
    {
        &mut self.regs[r.idx()]
    }

    /// Replaces what is known of a register other than zero.
    pub fn set(&mut self, r: Reg, interval: RegInterval)
        requires
            old(self).wf(),
        ensures
            final(self)@ == old(self)@.set(r, interval),
            final(self).wf(),
    {
        if r != Reg::Zero {
            self.regs[r.idx()] = interval;
        }
    }

    /// The bounds of a register.
    pub fn get_bounds(&self, r: Reg) -> (b: &ScalarBounds)
        requires
            self.wf(),
        ensures
            *b == self@.reg(r).bounds,
    {
        &self.regs[r.idx()].bounds
    }

    /// The bounds of a register, to be changed.
    pub fn get_bounds_mut(&mut self, r: Reg) -> (b: &mut ScalarBounds)
        requires
            old(self).wf(),
        ensures
            *b == old(self)@.reg(r).bounds,
            final(self)@ == old(self)@.put_bounds(r, *final(b)),
            final(self).wf(),
    {
        &mut self.regs[r.idx()].bounds
    }

    /// Where the pointer in a register stands, if it holds one.
    pub fn get_ptr_offset(&self, r: Reg) -> (p: Option<&PtrOffset>)
        requires
            self.wf(),
        ensures
            match p {
                Some(po) => self@.reg(r).ptr_offset == Some(*po),
                None => self@.reg(r).ptr_offset is None,
            },
    {
        match &self.regs[r.idx()].ptr_offset {
            Some(po) => Some(po),
            None => None,
        }
    }

    /// Replaces where the pointer in a register other than zero stands.
    pub fn set_ptr_offset(&mut self, r: Reg, offset: Option<PtrOffset>)
        requires
            old(self).wf(),
        ensures
            final(self)@ == old(self)@.set(
                r,
                (RegInterval { ptr_offset: offset, ..old(self)@.reg(r) }),
            ),
            final(self).wf(),
    {
        if r != Reg::Zero {
            let mut x: RegInterval = self.regs[r.idx()];
            x.ptr_offset = offset;
            self.regs[r.idx()] = x;
        }
    }

    /// The signed range of a register.
    pub fn get_interval(&self, r: Reg) -> (x: (i64, i64))
        requires
            self.wf(),
        ensures
            x == (self@.reg(r).bounds.smin, self@.reg(r).bounds.smax),
    {
        let b: ScalarBounds = self.regs[r.idx()].bounds;
        (b.smin, b.smax)
    }

    /// The value of a register, if only one is possible.
    pub fn get_fixed_value(&self, r: Reg) -> (x: Option<i64>)
        requires
            self.wf(),
        ensures
            x == self@.reg(r).bounds.get_constant(),
    {
        self.regs[r.idx()].bounds.get_constant()
    }

    /// Forgets what is known of a register, unless it is zero or an anchor.
    pub fn forget(&mut self, r: Reg)
        requires
            old(self).wf(),
        ensures
            final(self)@ == if r == Reg::Zero || r.is_anchor() {
                old(self)@
            } else {
                old(self)@.put(r, RegInterval::unknown())
            },
            final(self).wf(),
    {
        if r != Reg::Zero && !r.is_anchor() {
            self.regs[r.idx()] = RegInterval::unknown();
        }
    }

    /// Nothing is learned of the packet's size as a whole: safe ranges belong
    /// to single pointers.
    pub fn set_packet_size_bound(&mut self, _min_size: u64)
        ensures
            final(self)@ == old(self)@,
            final(self).wf() == old(self).wf(),
    {
    }

    /// The known lower bound on the packet's size.
    pub fn get_packet_size_bound(&self) -> (r: Option<u64>)
        ensures
            r == self@.packet_lower,
    {
        self.packet_size_lower_bound
    }

    /// Nothing is learned of the packet's size as a whole.
    pub fn set_packet_size_upper_bound(&mut self, _max_size_exclusive: u64)
        ensures
            final(self)@ == old(self)@,
            final(self).wf() == old(self).wf(),
    {
    }

    /// Nothing is learned of the metadata's size as a whole.
    pub fn set_meta_size_bound(&mut self, _min_size: u64)
        ensures
            final(self)@ == old(self)@,
            final(self).wf() == old(self).wf(),
    {
    }

    /// The known lower bound on the metadata's size.
    pub fn get_meta_size_bound(&self) -> (r: Option<u64>)
        ensures
            r == self@.meta_lower,
    {
        self.meta_size_lower_bound
    }

    /// Nothing is learned of the metadata's size as a whole.
    pub fn set_meta_size_upper_bound(&mut self, _max_size_exclusive: u64)
        ensures
            final(self)@ == old(self)@,
            final(self).wf() == old(self).wf(),
    {
    }

    /// The bounds on packet and metadata size on one line, empty if there are
    /// none.
    pub fn global_constraints_str(&self) -> (r: String)
        ensures
            r@ == joined(
                size_text("pkt"@, self@.packet_lower, self@.packet_upper) + size_text(
                    "meta"@,
                    self@.meta_lower,
                    self@.meta_upper,
                ),
                "  "@,
            ),
    {
        let mut parts: Vec<String> = Vec::new();
        push_size(
            &mut parts,
            "pkt",
            self.packet_size_lower_bound,
            self.packet_size_upper_bound,
        );
        push_size(&mut parts, "meta", self.meta_size_lower_bound, self.meta_size_upper_bound);
        assert(contents(parts@) =~= size_text("pkt"@, self@.packet_lower, self@.packet_upper)
            + size_text("meta"@, self@.meta_lower, self@.meta_upper));
        join(&parts, "  ")
    }

    /// Forgets the bounds on packet and metadata size.
    pub fn clear_packet_size_bounds(&mut self)
        ensures
            final(self)@ == (Intervals {
                packet_lower: None,
                packet_upper: None,
                meta_lower: None,
                meta_upper: None,
                ..old(self)@
            }),
            final(self).wf() == old(self).wf(),
    {
        self.packet_size_lower_bound = None;
        self.packet_size_upper_bound = None;
        self.meta_size_lower_bound = None;
        self.meta_size_upper_bound = None;
    }

    /// Whether some register or region can have no value at all.
    pub fn is_inconsistent(&self) -> (r: bool)
        ensures
            r == self@.inconsistent(),
    {
        let mut i: usize = 0;
        while i < self.regs.len()
            invariant
                i <= self.regs@.len(),
                forall|k: int| 0 <= k < i ==> !empty_bounds((#[trigger] self.regs@[k]).bounds),
            decreases self.regs@.len() - i,
        {
            let b: ScalarBounds = self.regs[i].bounds;
            if b.smin > b.smax || b.umin > b.umax {
                assert(empty_bounds(self@.regs[i as int].bounds));
                return true;
            }
            i = i + 1;
        }
        if let (Some(lower), Some(upper)) = (
            self.packet_size_lower_bound,
            self.packet_size_upper_bound,
        ) {
            if lower >= upper {
                return true;
            }
        }
        if let (Some(lower), Some(upper)) = (
            self.meta_size_lower_bound,
            self.meta_size_upper_bound,
        ) {
            if lower >= upper {
                return true;
            }
        }
        false
    }

    fn duplicate(&self) -> (r: Self)
        ensures
            r@ == self@,
    {
        let mut regs: Vec<RegInterval> = Vec::new();
        let mut i: usize = 0;
        while i < self.regs.len()
            invariant
                i <= self.regs@.len(),
                regs@ == self.regs@.take(i as int),
            decreases self.regs@.len() - i,
        {
            regs.push(self.regs[i]);
            assert(self.regs@.take(i + 1) =~= self.regs@.take(i as int).push(
                self.regs@[i as int],
            ));
            i = i + 1;
        }
        assert(self.regs@.take(self.regs@.len() as int) =~= self.regs@);
        IntervalState {
            regs,
            packet_size_lower_bound: self.packet_size_lower_bound,
            packet_size_upper_bound: self.packet_size_upper_bound,
            meta_size_lower_bound: self.meta_size_lower_bound,
            meta_size_upper_bound: self.meta_size_upper_bound,
        }
    }

    fn same(&self, other: &Self) -> (r: bool)
        ensures
            r == (self@ == other@),
    {
        if self.regs.len() != other.regs.len() || self.packet_size_lower_bound
            != other.packet_size_lower_bound || self.packet_size_upper_bound
            != other.packet_size_upper_bound || self.meta_size_lower_bound
            != other.meta_size_lower_bound || self.meta_size_upper_bound
            != other.meta_size_upper_bound {
            return false;
        }
        let mut i: usize = 0;
        while i < self.regs.len()
            invariant
                i <= self.regs@.len(),
                self.regs@.len() == other.regs@.len(),
                forall|k: int| 0 <= k < i ==> self.regs@[k] == other.regs@[k],
            decreases self.regs@.len() - i,
        {
            if self.regs[i] != other.regs[i] {
                return false;
            }
            i = i + 1;
        }
        assert(self@.regs =~= other@.regs);
        true
    }
}

impl Clone for IntervalState {
    fn clone(&self) -> (r: Self)
        ensures
            r@ == self@,
    {
        self.duplicate()
    }
}

impl PartialEq for IntervalState {
    fn eq(&self, other: &Self) -> (r: bool) {
        self.same(other)
    }
}

impl vstd::std_specs::cmp::PartialEqSpecImpl for IntervalState {
    open spec fn obeys_eq_spec() -> bool {
        true
    }

    open spec fn eq_spec(&self, other: &Self) -> bool {
        self@ == other@
    }
}

impl Eq for IntervalState {}

impl Default for IntervalState {
    fn default() -> (r: Self)
        ensures
            r@ == Intervals::initial(),
            r.wf(),
    {
        IntervalState::new()
    }
}

} // verus!
