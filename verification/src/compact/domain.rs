//! Registers, their types and their values, without packet anchors.
use crate::compact::ctx_model::MemRegionId;
use crate::domains::zone::dbm::{clamp_upper_bound, table, Dbm, Zone, INF};
use crate::domains::zone::ops::wrapped_neg;
use crate::machine::ids::IdCounter;
use crate::num::{clip64, max_i64, sat_add, sat_mul, sat_sub, wadd};
use vstd::prelude::*;

verus! {

/// A variable: constant zero or a register.
#[derive(Copy, Clone, Debug, Eq, PartialEq, Structural, Hash)]
pub enum Reg {
    Zero,
    R0,
    R1,
    R2,
    R3,
    R4,
    R5,
    R6,
    R7,
    R8,
    R9,
    R10,
}

/// Number of variables.
pub const NUM_VARS: usize = 12;

/// Number of registers that have a type.
pub const NUM_REGS: usize = 11;

impl Reg {
    pub open spec fn spec_idx(self) -> usize {
        match self {
            Reg::Zero => 0,
            Reg::R0 => 1,
            Reg::R1 => 2,
            Reg::R2 => 3,
            Reg::R3 => 4,
            Reg::R4 => 5,
            Reg::R5 => 6,
            Reg::R6 => 7,
            Reg::R7 => 8,
            Reg::R8 => 9,
            Reg::R9 => 10,
            Reg::R10 => 11,
        }
    }

    /// Matrix index of the variable.
    #[verifier::when_used_as_spec(spec_idx)]
    pub fn idx(self) -> (r: usize)
        ensures
            r == self.spec_idx(),
            r < NUM_VARS,
    {
        match self {
            Reg::Zero => 0,
            Reg::R0 => 1,
            Reg::R1 => 2,
            Reg::R2 => 3,
            Reg::R3 => 4,
            Reg::R4 => 5,
            Reg::R5 => 6,
            Reg::R6 => 7,
            Reg::R7 => 8,
            Reg::R8 => 9,
            Reg::R9 => 10,
            Reg::R10 => 11,
        }
    }

    pub open spec fn spec_name(self) -> &'static str {
        match self {
            Reg::Zero => "0",
            Reg::R0 => "r0",
            Reg::R1 => "r1",
            Reg::R2 => "r2",
            Reg::R3 => "r3",
            Reg::R4 => "r4",
            Reg::R5 => "r5",
            Reg::R6 => "r6",
            Reg::R7 => "r7",
            Reg::R8 => "r8",
            Reg::R9 => "r9",
            Reg::R10 => "r10",
        }
    }

    /// Human-readable name.
    #[verifier::when_used_as_spec(spec_name)]
    pub fn name(self) -> (r: &'static str)
        ensures
            r == self.spec_name(),
    {
        match self {
            Reg::Zero => "0",
            Reg::R0 => "r0",
            Reg::R1 => "r1",
            Reg::R2 => "r2",
            Reg::R3 => "r3",
            Reg::R4 => "r4",
            Reg::R5 => "r5",
            Reg::R6 => "r6",
            Reg::R7 => "r7",
            Reg::R8 => "r8",
            Reg::R9 => "r9",
            Reg::R10 => "r10",
        }
    }
}

/// All variables in index order.
pub open spec fn all_regs() -> Seq<Reg> {
    seq![
        Reg::Zero,
        Reg::R0,
        Reg::R1,
        Reg::R2,
        Reg::R3,
        Reg::R4,
        Reg::R5,
        Reg::R6,
        Reg::R7,
        Reg::R8,
        Reg::R9,
        Reg::R10,
    ]
}

/// The type of a register.
#[allow(inconsistent_fields)]
#[derive(Copy, Clone, Debug, Eq, PartialEq, Structural)]
pub enum RegType {
    NotInit,
    ScalarValue,
    PtrToCtx,
    PtrToStack,
    PtrToMapObject { map_idx: usize },
    PtrToMapValue { offset: i64, map_idx: usize },
    PtrToMapValueOrNull { id: u32, map_idx: usize },
    PtrToMapKey,
    /// `range` bytes from the pointer on are known to be in the packet.
    PtrToPacket { id: u32, range: u64 },
    PtrToPacketMeta,
    PtrToPacketEnd,
    PtrToMem { region: MemRegionId },
    /// Paths disagree.
    Unknown,
}

impl Default for RegType {
    fn default() -> (r: Self)
        ensures
            r == RegType::NotInit,
    {
        RegType::NotInit
    }
}

impl RegType {
    pub open spec fn spec_is_pointer(self) -> bool {
        self is PtrToCtx || self is PtrToStack || self is PtrToMapValue || self is PtrToMapKey
            || self is PtrToPacket || self is PtrToPacketMeta || self is PtrToPacketEnd
            || self is PtrToMem
    }

    /// Whether the type allows pointer arithmetic.
    #[verifier::when_used_as_spec(spec_is_pointer)]
    pub fn is_pointer(self) -> (r: bool)
        ensures
            r == self.spec_is_pointer(),
    {
        matches!(
            self,
            RegType::PtrToCtx | RegType::PtrToStack | RegType::PtrToMapValue { .. }
                | RegType::PtrToMapKey | RegType::PtrToPacket { .. } | RegType::PtrToPacketMeta
                | RegType::PtrToPacketEnd | RegType::PtrToMem { .. }
        )
    }
}

pub open spec fn spec_reg_to_index(r: Reg) -> Option<usize> {
    if r is Zero { None } else { Some((r.idx() - 1) as usize) }
}

/// The place of a register among those that have a type; zero has none.
#[verifier::when_used_as_spec(spec_reg_to_index)]
pub fn reg_to_index(r: Reg) -> (i: Option<usize>)
    ensures
        i == spec_reg_to_index(r),
        i matches Some(k) ==> k < NUM_REGS,
{
    match r {
        Reg::Zero => None,
        _ => Some(r.idx() - 1),
    }
}

pub open spec fn spec_join_reg_type(a: RegType, b: RegType) -> RegType {
    if a == b {
        a
    } else {
        match (a, b) {
            (RegType::NotInit, t) => t,
            (t, RegType::NotInit) => t,
            (RegType::PtrToPacket { id: i1, range: r1 }, RegType::PtrToPacket { id: i2, range: r2 }) => {
                if i1 == i2 {
                    RegType::PtrToPacket { id: i1, range: if r1 <= r2 { r1 } else { r2 } }
                } else {
                    RegType::Unknown
                }
            },
            _ => RegType::Unknown,
        }
    }
}

/// What a register is where two paths meet.
#[verifier::when_used_as_spec(spec_join_reg_type)]
pub fn join_reg_type(a: RegType, b: RegType) -> (r: RegType)
    ensures
        r == spec_join_reg_type(a, b),
{
    if a == b {
        return a;
    }
    match (a, b) {
        (RegType::NotInit, t) => t,
        (t, RegType::NotInit) => t,
        (RegType::PtrToPacket { id: i1, range: r1 }, RegType::PtrToPacket { id: i2, range: r2 }) => {
            if i1 == i2 {
                RegType::PtrToPacket { id: i1, range: if r1 <= r2 { r1 } else { r2 } }
            } else {
                RegType::Unknown
            }
        },
        _ => RegType::Unknown,
    }
}

/// Joining types does not depend on order, repetition or grouping.
pub proof fn law_type_join_is_a_semilattice(a: RegType, b: RegType, c: RegType)
    ensures
        join_reg_type(a, a) == a,
        join_reg_type(a, b) == join_reg_type(b, a),
        join_reg_type(join_reg_type(a, b), c) == join_reg_type(a, join_reg_type(b, c)),
        join_reg_type(a, RegType::Unknown) == RegType::Unknown,
        join_reg_type(a, RegType::NotInit) == a,
{
}

/// The types of all registers.
#[derive(Debug)]
pub struct RegTypeState {
    pub regs: Vec<RegType>,
}

/// The types with one replaced; zero has none.
pub open spec fn with_type(t: Seq<RegType>, r: Reg, ty: RegType) -> Seq<RegType> {
    match reg_to_index(r) {
        Some(i) => t.update(i as int, ty),
        None => t,
    }
}

/// The type of a register.
pub open spec fn type_of(t: Seq<RegType>, r: Reg) -> RegType {
    match reg_to_index(r) {
        Some(i) => t[i as int],
        None => RegType::NotInit,
    }
}

/// The types where two paths meet.
pub open spec fn joined_types(a: Seq<RegType>, b: Seq<RegType>) -> Seq<RegType> {
    Seq::new(a.len(), |i: int| join_reg_type(a[i], b[i]))
}

/// No register is initialized.
pub open spec fn no_types() -> Seq<RegType> {
    Seq::new(NUM_REGS as nat, |i: int| RegType::NotInit)
}

impl RegTypeState {
    pub open spec fn view(&self) -> Seq<RegType> {
        self.regs@
    }

    pub open spec fn wf(&self) -> bool {
        self.regs@.len() == NUM_REGS
    }

    /// No register is initialized.
    pub fn new_not_init() -> (r: Self)
        ensures
            r.wf(),
            r@ == no_types(),
    {
        let mut regs: Vec<RegType> = Vec::new();
        let mut i: usize = 0;
        while i < NUM_REGS
            invariant
                i <= NUM_REGS,
                regs@ == Seq::new(i as nat, |k: int| RegType::NotInit),
            decreases NUM_REGS - i,
        {
            regs.push(RegType::NotInit);
            assert(regs@ =~= Seq::new((i + 1) as nat, |k: int| RegType::NotInit));
            i = i + 1;
        }
        RegTypeState { regs }
    }

    /// The type of a register.
    pub fn get(&self, r: Reg) -> (t: RegType)
        requires
            self.wf(),
        ensures
            t == type_of(self@, r),
    {
        match reg_to_index(r) {
            Some(i) => self.regs[i],
            None => RegType::NotInit,
        }
    }

    /// Replaces the type of a register.
    pub fn set(&mut self, r: Reg, ty: RegType)
        requires
            old(self).wf(),
        ensures
            final(self).wf(),
            final(self)@ == with_type(old(self)@, r, ty),
    {
        if let Some(i) = reg_to_index(r) {
            self.regs[i] = ty;
        }
    }

    /// Joins with other types. Returns whether anything changed.
    pub fn join_in_place(&mut self, other: &RegTypeState) -> (changed: bool)
        requires
            old(self).wf(),
            other.wf(),
        ensures
            final(self).wf(),
            final(self)@ == joined_types(old(self)@, other@),
            changed == (final(self)@ != old(self)@),
    {
        let ghost before = self@;
        let mut changed: bool = false;
        let mut i: usize = 0;
        while i < NUM_REGS
            invariant
                i <= NUM_REGS,
                self.wf(),
                other.wf(),
                before.len() == NUM_REGS,
                forall|k: int|
                    0 <= k < NUM_REGS ==> (#[trigger] self.regs@[k]) == if k < i {
                        join_reg_type(before[k], other@[k])
                    } else {
                        before[k]
                    },
                changed <==> exists|k: int| 0 <= k < i && (#[trigger] self.regs@[k]) != before[k],
            decreases NUM_REGS - i,
        {
            let b: RegType = self.regs[i];
            let a: RegType = join_reg_type(b, other.regs[i]);
            let ghost mid = self.regs@;
            let ghost was = changed;
            if a != b {
                self.regs[i] = a;
                changed = true;
            }
            proof {
                if was {
                    let k = choose|k: int| 0 <= k < i && (#[trigger] mid[k]) != before[k];
                    assert(self.regs@[k] != before[k]);
                }
                if a != b {
                    assert(self.regs@[i as int] != before[i as int]);
                }
                if changed && !(a != b) {
                    let k = choose|k: int| 0 <= k < i && (#[trigger] mid[k]) != before[k];
                    assert(self.regs@[k] != before[k]);
                }
            }
            i = i + 1;
        }
        assert(self@ =~= joined_types(before, other@));
        proof {
            if !changed {
                assert(self@ =~= before);
            }
        }
        changed
    }

    /// All registers with their types.
    pub fn iter_regs(&self) -> (r: Vec<(Reg, RegType)>)
        requires
            self.wf(),
        ensures
            r@ == Seq::new(NUM_REGS as nat, |i: int| (all_regs()[i + 1], self@[i])),
    {
        let all: Vec<Reg> = RegEnv.all();
        let mut r: Vec<(Reg, RegType)> = Vec::new();
        let mut i: usize = 0;
        while i < NUM_REGS
            invariant
                i <= NUM_REGS,
                self.wf(),
                all@ == all_regs(),
                r@ == Seq::new(i as nat, |k: int| (all_regs()[k + 1], self@[k])),
            decreases NUM_REGS - i,
        {
            r.push((all[i + 1], self.regs[i]));
            assert(r@ =~= Seq::new((i + 1) as nat, |k: int| (all_regs()[k + 1], self@[k])));
            i = i + 1;
        }
        r
    }
}

impl Clone for RegTypeState {
    fn clone(&self) -> (r: Self)
        ensures
            r@ == self@,
    {
        let mut regs: Vec<RegType> = Vec::new();
        let mut i: usize = 0;
        while i < self.regs.len()
            invariant
                i <= self.regs@.len(),
                regs@ == self.regs@.take(i as int),
            decreases self.regs@.len() - i,
        {
            regs.push(self.regs[i]);
            assert(self.regs@.take(i + 1) =~= self.regs@.take(i as int).push(self.regs@[i as int]));
            i = i + 1;
        }
        assert(self.regs@.take(self.regs@.len() as int) =~= self.regs@);
        RegTypeState { regs }
    }
}

/// Takes an identity for a new packet pointer.
pub fn new_packet_id(ids: &mut IdCounter) -> (r: u32)
    ensures
        r == old(ids).next,
        *final(ids) == old(ids).after(),
{
    ids.fresh()
}

/// The set of variables.
#[derive(Debug, Clone, Copy)]
pub struct RegEnv;

impl RegEnv {
    /// Number of variables.
    pub fn len(&self) -> (r: usize)
        ensures
            r == NUM_VARS,
            r == all_regs().len(),
    {
        NUM_VARS
    }

    /// The name of a variable.
    pub fn name(&self, v: Reg) -> (r: &'static str)
        ensures
            r == v.name(),
    {
        v.name()
    }

    /// All variables in index order.
    pub fn all(&self) -> (r: Vec<Reg>)
        ensures
            r@ == all_regs(),
    {
        vec![
            Reg::Zero,
            Reg::R0,
            Reg::R1,
            Reg::R2,
            Reg::R3,
            Reg::R4,
            Reg::R5,
            Reg::R6,
            Reg::R7,
            Reg::R8,
            Reg::R9,
            Reg::R10,
        ]
    }

    /// The index of a variable.
    pub fn index(&self, v: Reg) -> (r: usize)
        ensures
            r == v.idx(),
            r < NUM_VARS,
    {
        v.idx()
    }

    /// The variable with an index.
    pub fn var_of_index(&self, idx: usize) -> (r: Reg)
        requires
            idx < NUM_VARS,
        ensures
            r == all_regs()[idx as int],
            r.idx() == idx,
    {
        self.all()[idx]
    }
}

/// A variable and its index determine each other.
pub proof fn law_variables_are_indexed(r: Reg, i: int)
    ensures
        all_regs()[r.idx() as int] == r,
        0 <= i < NUM_VARS ==> all_regs()[i].idx() == i,
{
}

/// A matrix over the twelve variables.
pub open spec fn small(d: &Dbm) -> bool {
    d.wf() && d@.m.len() == NUM_VARS
}

/// A matrix over the twelve variables that says nothing.
pub fn unconstrained() -> (r: Dbm)
    ensures
        small(&r),
        r@ == Zone::top(NUM_VARS as nat),
{
    Dbm::with_dim(NUM_VARS)
}

/// The bounds of `x - zero` as far as there are any.
pub open spec fn bounds_of(z: Zone, x: Reg, zero: Reg) -> (Option<i64>, Option<i64>) {
    let ub = z.m[x.idx() as int][zero.idx() as int];
    let lb = z.m[zero.idx() as int][x.idx() as int];
    (
        if lb >= INF { None } else { Some(wrapped_neg(lb)) },
        if ub >= INF { None } else { Some(ub) },
    )
}

/// The bounds of `x - zero` as far as there are any.
pub fn get_bounds(dbm: &Dbm, x: Reg, zero: Reg) -> (r: (Option<i64>, Option<i64>))
    requires
        small(dbm),
    ensures
        r == bounds_of(dbm@, x, zero),
{
    let ub: i64 = dbm.get_idx(x.idx(), zero.idx());
    let lb: i64 = dbm.get_idx(zero.idx(), x.idx());
    let least: Option<i64> = if lb >= INF {
        None
    } else if lb == i64::MIN {
        Some(lb)
    } else {
        Some(-lb)
    };
    let most: Option<i64> = if ub >= INF { None } else { Some(ub) };
    (least, most)
}

fn negated(c: i64) -> (r: i64)
    ensures
        r == wrapped_neg(c),
{
    if c == i64::MIN {
        c
    } else {
        -c
    }
}

/// `x - y <= c` added, and the consequences drawn.
pub open spec fn stated(z: Zone, x: Reg, y: Reg, c: i64) -> Zone {
    z.add(x.idx() as int, y.idx() as int, c as int).close()
}

fn state_bound(dbm: &mut Dbm, x: Reg, y: Reg, c: i64)
    requires
        small(old(dbm)),
    ensures
        small(final(dbm)),
        final(dbm)@ == stated(old(dbm)@, x, y, c),
{
    dbm.add_constraint_idx(x.idx(), y.idx(), c);
    dbm.close();
}

pub open spec fn forgotten(z: Zone, x: Reg) -> Zone {
    z.forget(x.idx() as int).close()
}

/// Forgets a variable.
pub fn forget(dbm: &mut Dbm, x: Reg)
    requires
        small(old(dbm)),
    ensures
        small(final(dbm)),
        final(dbm)@ == forgotten(old(dbm)@, x),
{
    dbm.forget_idx(x.idx());
    dbm.close();
}

/// `x += c`.
pub open spec fn shifted(z: Zone, x: Reg, c: i64) -> Zone {
    Zone { m: z.shift(x.idx() as int, c as int), ..z }.close()
}

/// `x += c`.
pub fn add_imm(d: &mut Dbm, x: Reg, c: i64)
    requires
        small(old(d)),
    ensures
        small(final(d)),
        final(d)@ == shifted(old(d)@, x, c),
{
    let xi: usize = x.idx();
    let n: usize = d.num_vars();
    let ghost z = old(d)@;
    let ghost want = z.shift(xi as int, c as int);
    let mut j: usize = 0;
    while j < n
        invariant
            j <= n,
            n == NUM_VARS,
            xi < n,
            z.sized(n as int),
            small(d),
            d@.bounds == z.bounds,
            d@.prov == z.prov,
            want == z.shift(xi as int, c as int),
            forall|a: int, b: int|
                0 <= a < n && 0 <= b < n && !(a == xi && b == xi) ==> #[trigger] d@.m[a][b] == if a
                    == xi && b < j || b == xi && a < j {
                    want[a][b]
                } else {
                    z.m[a][b]
                },
        decreases n - j,
    {
        let ghost before = d@;
        let old_xz: i64 = d.get_idx(xi, j);
        if old_xz < INF {
            d.set_idx(xi, j, clamp_upper_bound(sat_add(old_xz, c)));
        }
        let old_zx: i64 = d.get_idx(j, xi);
        if old_zx < INF {
            d.set_idx(j, xi, clamp_upper_bound(sat_sub(old_zx, c)));
        }
        assert forall|a: int, b: int|
            0 <= a < n && 0 <= b < n && !(a == xi && b == xi) implies #[trigger] d@.m[a][b] == if a
            == xi && b < j + 1 || b == xi && a < j + 1 {
            want[a][b]
        } else {
            z.m[a][b]
        } by {
            assert(before.m[a][b] == if a == xi && b < j || b == xi && a < j {
                want[a][b]
            } else {
                z.m[a][b]
            });
        }
        j = j + 1;
    }
    d.set_idx(xi, xi, 0);
    proof {
        assert(d@.m =~= want) by {
            assert forall|a: int| 0 <= a < n implies d@.m[a] == want[a] by {
                assert(d@.m[a] =~= want[a]);
            }
        }
        assert(d@ =~= (Zone { m: want, ..z }));
    }
    d.close();
}

/// `dst += imm`.
pub fn assign_add_imm(dbm: &mut Dbm, dst: Reg, imm: i64)
    requires
        small(old(dbm)),
    ensures
        small(final(dbm)),
        final(dbm)@ == shifted(old(dbm)@, dst, imm),
{
    add_imm(dbm, dst, imm);
}

/// The zone with `x >= c` added if there is such a bound.
pub open spec fn at_least(z: Zone, x: Reg, zero: Reg, c: Option<i64>) -> Zone {
    match c {
        Some(c) => stated(z, zero, x, wrapped_neg(c)),
        None => z,
    }
}

/// The zone with `x <= c` added if there is such a bound.
pub open spec fn at_most(z: Zone, x: Reg, zero: Reg, c: Option<i64>) -> Zone {
    match c {
        Some(c) => stated(z, x, zero, c),
        None => z,
    }
}

/// The sum of two bounds if both are there.
pub open spec fn bound_sum(a: Option<i64>, b: Option<i64>) -> Option<i64> {
    match (a, b) {
        (Some(x), Some(y)) => Some(wadd(x, y)),
        _ => None,
    }
}

/// `dst += src`, by the bounds of both.
pub open spec fn summed(z: Zone, dst: Reg, src: Reg, zero: Reg) -> Zone {
    let (ld, ud) = bounds_of(z, dst, zero);
    let (ls, us) = bounds_of(z, src, zero);
    let z = z.forget(dst.idx() as int);
    let z = at_least(z, dst, zero, bound_sum(ld, ls));
    let z = at_most(z, dst, zero, bound_sum(ud, us));
    z.close()
}

/// `dst += src`.
pub fn assign_add_reg(dbm: &mut Dbm, dst: Reg, src: Reg, zero: Reg)
    requires
        small(old(dbm)),
    ensures
        small(final(dbm)),
        final(dbm)@ == summed(old(dbm)@, dst, src, zero),
{
    let (ld, ud) = get_bounds(dbm, dst, zero);
    let (ls, us) = get_bounds(dbm, src, zero);
    dbm.forget_idx(dst.idx());
    if let (Some(a), Some(b)) = (ld, ls) {
        assume_ge_const(dbm, dst, zero, wadd(a, b));
    }
    if let (Some(a), Some(b)) = (ud, us) {
        assume_le_const(dbm, dst, zero, wadd(a, b));
    }
    dbm.close();
}

/// `dst &= mask`: the result is between zero and the mask.
pub open spec fn masked(z: Zone, dst: Reg, mask: i64, zero: Reg) -> Zone {
    z.forget(dst.idx() as int).add(dst.idx() as int, zero.idx() as int, mask as int).add(
        zero.idx() as int,
        dst.idx() as int,
        0,
    ).close()
}

/// `dst &= mask`.
pub fn assign_and_mask(dbm: &mut Dbm, dst: Reg, mask: i64, zero: Reg)
    requires
        small(old(dbm)),
    ensures
        small(final(dbm)),
        final(dbm)@ == masked(old(dbm)@, dst, mask, zero),
{
    dbm.forget_idx(dst.idx());
    dbm.add_constraint_idx(dst.idx(), zero.idx(), mask);
    dbm.add_constraint_idx(zero.idx(), dst.idx(), 0);
    dbm.close();
}

/// `x <= y` holds.
pub fn assume_le_var(dbm: &mut Dbm, x: Reg, y: Reg)
    requires
        small(old(dbm)),
    ensures
        small(final(dbm)),
        final(dbm)@ == stated(old(dbm)@, x, y, 0),
{
    state_bound(dbm, x, y, 0);
}

/// `x >= y` holds.
pub fn assume_ge_var(dbm: &mut Dbm, x: Reg, y: Reg)
    requires
        small(old(dbm)),
    ensures
        small(final(dbm)),
        final(dbm)@ == stated(old(dbm)@, y, x, 0),
{
    state_bound(dbm, y, x, 0);
}

/// `x > y` holds.
pub fn assume_gt_var(dbm: &mut Dbm, x: Reg, y: Reg)
    requires
        small(old(dbm)),
    ensures
        small(final(dbm)),
        final(dbm)@ == stated(old(dbm)@, y, x, (-1) as i64),
{
    state_bound(dbm, y, x, -1);
}

/// `x <= y + c` holds.
pub fn assume_le_var_plus_const(dbm: &mut Dbm, x: Reg, y: Reg, c: i64)
    requires
        small(old(dbm)),
    ensures
        small(final(dbm)),
        final(dbm)@ == stated(old(dbm)@, x, y, c),
{
    state_bound(dbm, x, y, c);
}

/// `x` was given the value of `y`. Its own value changes nothing.
pub open spec fn equated(z: Zone, x: Reg, y: Reg) -> Zone {
    if x == y {
        z
    } else {
        z.forget(x.idx() as int).add(x.idx() as int, y.idx() as int, 0).add(
            y.idx() as int,
            x.idx() as int,
            0,
        ).close()
    }
}

/// `x = 0`.
pub fn assign_zero(dbm: &mut Dbm, x: Reg, zero: Reg)
    requires
        small(old(dbm)),
    ensures
        small(final(dbm)),
        final(dbm)@ == equated(old(dbm)@, x, zero),
{
    assign_eq(dbm, x, zero);
}

/// `x = y`.
pub fn assign_eq(dbm: &mut Dbm, x: Reg, y: Reg)
    requires
        small(old(dbm)),
    ensures
        small(final(dbm)),
        final(dbm)@ == equated(old(dbm)@, x, y),
        x == y ==> final(dbm)@ == old(dbm)@,
{
    if x == y {
        return;
    }
    dbm.forget_idx(x.idx());
    dbm.add_constraint_idx(x.idx(), y.idx(), 0);
    dbm.add_constraint_idx(y.idx(), x.idx(), 0);
    dbm.close();
}

/// `x <= c` holds.
pub fn assume_le_const(dbm: &mut Dbm, x: Reg, zero: Reg, c: i64)
    requires
        small(old(dbm)),
    ensures
        small(final(dbm)),
        final(dbm)@ == at_most(old(dbm)@, x, zero, Some(c)),
{
    state_bound(dbm, x, zero, c);
}

/// `x >= c` holds.
pub fn assume_ge_const(dbm: &mut Dbm, x: Reg, zero: Reg, c: i64)
    requires
        small(old(dbm)),
    ensures
        small(final(dbm)),
        final(dbm)@ == at_least(old(dbm)@, x, zero, Some(c)),
{
    state_bound(dbm, zero, x, negated(c));
}

pub open spec fn exactly(z: Zone, x: Reg, zero: Reg, c: i64) -> Zone {
    z.add(x.idx() as int, zero.idx() as int, c as int).add(
        zero.idx() as int,
        x.idx() as int,
        wrapped_neg(c) as int,
    ).close()
}

/// `x == c` holds.
pub fn assume_eq_const(dbm: &mut Dbm, x: Reg, zero: Reg, c: i64)
    requires
        small(old(dbm)),
    ensures
        small(final(dbm)),
        final(dbm)@ == exactly(old(dbm)@, x, zero, c),
{
    dbm.add_constraint_idx(x.idx(), zero.idx(), c);
    dbm.add_constraint_idx(zero.idx(), x.idx(), negated(c));
    dbm.close();
}

/// `x < c` holds.
pub fn assume_less_than(d: &mut Dbm, x: Reg, zero: Reg, c: i64)
    requires
        small(old(d)),
    ensures
        small(final(d)),
        final(d)@ == at_most(old(d)@, x, zero, Some(wadd(c, (-1) as i64))),
{
    state_bound(d, x, zero, wadd(c, -1));
}

/// A bound times a number, clipped.
pub open spec fn bound_times(a: Option<i64>, k: i64) -> Option<i64> {
    match a {
        Some(x) => Some(clip64(x * k)),
        None => None,
    }
}

/// `dst *= imm`: bounds scale with a positive factor; a negative one loses
/// them.
pub open spec fn multiplied(z: Zone, dst: Reg, imm: i64, zero: Reg) -> Zone {
    if imm == 0 {
        equated(z, dst, zero)
    } else if imm == 1 {
        z
    } else if imm < 0 {
        forgotten(z, dst)
    } else {
        let (lo, hi) = bounds_of(z, dst, zero);
        let z = z.forget(dst.idx() as int);
        let z = at_least(z, dst, zero, bound_times(lo, imm));
        at_most(z, dst, zero, bound_times(hi, imm)).close()
    }
}

/// `dst *= imm`.
pub fn assign_mul_imm(dbm: &mut Dbm, dst: Reg, imm: i64, zero: Reg)
    requires
        small(old(dbm)),
    ensures
        small(final(dbm)),
        final(dbm)@ == multiplied(old(dbm)@, dst, imm, zero),
{
    if imm == 0 {
        assign_zero(dbm, dst, zero);
        return;
    }
    if imm == 1 {
        return;
    }
    if imm < 0 {
        forget(dbm, dst);
        return;
    }
    let (lo, hi) = get_bounds(dbm, dst, zero);
    dbm.forget_idx(dst.idx());
    if let Some(a) = lo {
        assume_ge_const(dbm, dst, zero, sat_mul(a, imm));
    }
    if let Some(b) = hi {
        assume_le_const(dbm, dst, zero, sat_mul(b, imm));
    }
    dbm.close();
}

/// Every bound of `a` is at most that of `b`: `b` allows all that `a` does.
pub open spec fn below(a: Zone, b: Zone) -> bool {
    forall|i: int, j: int|
        0 <= i < NUM_VARS && 0 <= j < NUM_VARS ==> #[trigger] a.m[i][j] <= b.m[i][j]
}

/// The looser bound of two at each entry.
pub open spec fn looser(a: Zone, b: Zone) -> Seq<Seq<i64>> {
    table(NUM_VARS as nat, |i: int, j: int| max_i64(a.m[i][j], b.m[i][j]))
}

/// What two zones allow together.
pub open spec fn joined(a: Zone, b: Zone) -> Zone {
    Zone { m: looser(a, b), ..Zone::top(NUM_VARS as nat) }
}

/// The least zone that allows all that either of two does.
pub fn join(a: &Dbm, b: &Dbm) -> (r: Dbm)
    requires
        small(a),
        small(b),
    ensures
        small(&r),
        r@ == joined(a@, b@),
{
    let mut r: Dbm = unconstrained();
    let ghost want = looser(a@, b@);
    let mut i: usize = 0;
    while i < NUM_VARS
        invariant
            i <= NUM_VARS,
            small(a),
            small(b),
            small(&r),
            want == looser(a@, b@),
            r@.bounds == Zone::top(NUM_VARS as nat).bounds,
            r@.prov is None,
            forall|p: int, q: int|
                0 <= p < i && 0 <= q < NUM_VARS ==> #[trigger] r@.m[p][q] == want[p][q],
        decreases NUM_VARS - i,
    {
        let mut j: usize = 0;
        while j < NUM_VARS
            invariant
                i < NUM_VARS,
                j <= NUM_VARS,
                small(a),
                small(b),
                small(&r),
                want == looser(a@, b@),
            r@.bounds == Zone::top(NUM_VARS as nat).bounds,
            r@.prov is None,
                forall|p: int, q: int|
                    0 <= p < i && 0 <= q < NUM_VARS || p == i && 0 <= q < j
                        ==> #[trigger] r@.m[p][q] == want[p][q],
            decreases NUM_VARS - j,
        {
            let v: i64 = max_i64(a.get_idx(i, j), b.get_idx(i, j));
            r.set_idx(i, j, v);
            j = j + 1;
        }
        i = i + 1;
    }
    proof {
        assert(r@.m =~= want) by {
            assert forall|p: int| 0 <= p < NUM_VARS implies r@.m[p] == want[p] by {
                assert(r@.m[p] =~= want[p]);
            }
        }
    }
    r
}

/// Whether two matrices have the same entries.
pub fn dbm_equals(a: &Dbm, b: &Dbm) -> (r: bool)
    requires
        small(a),
        small(b),
    ensures
        r == (a@.m == b@.m),
{
    let mut i: usize = 0;
    while i < NUM_VARS
        invariant
            i <= NUM_VARS,
            small(a),
            small(b),
            forall|p: int, q: int|
                0 <= p < i && 0 <= q < NUM_VARS ==> #[trigger] a@.m[p][q] == b@.m[p][q],
        decreases NUM_VARS - i,
    {
        let mut j: usize = 0;
        while j < NUM_VARS
            invariant
                i < NUM_VARS,
                j <= NUM_VARS,
                small(a),
                small(b),
                forall|p: int, q: int|
                    0 <= p < i && 0 <= q < NUM_VARS || p == i && 0 <= q < j
                        ==> #[trigger] a@.m[p][q] == b@.m[p][q],
            decreases NUM_VARS - j,
        {
            if a.get_idx(i, j) != b.get_idx(i, j) {
                return false;
            }
            j = j + 1;
        }
        i = i + 1;
    }
    proof {
        assert(a@.m =~= b@.m) by {
            assert forall|p: int| 0 <= p < NUM_VARS implies a@.m[p] == b@.m[p] by {
                assert(a@.m[p] =~= b@.m[p]);
            }
        }
    }
    true
}

/// A join allows all that either side does.
pub proof fn law_join_is_an_upper_bound(a: Zone, b: Zone)
    ensures
        below(a, joined(a, b)),
        below(b, joined(a, b)),
        forall|c: Zone| below(a, c) && below(b, c) ==> #[trigger] below(joined(a, b), c),
{
    let j = joined(a, b);
    assert forall|c: Zone| below(a, c) && below(b, c) implies #[trigger] below(joined(a, b), c) by {
        assert forall|p: int, q: int| 0 <= p < NUM_VARS && 0 <= q < NUM_VARS implies #[trigger] j.m[p][q]
            <= c.m[p][q] by {
            assert(a.m[p][q] <= c.m[p][q] && b.m[p][q] <= c.m[p][q]);
        }
    }
}

} // verus!
