//! Small programs over the zone domain, and records of their runs.
use crate::compact::domain::{
    add_imm, assign_eq, assign_zero, assume_less_than, at_most, equated, shifted, small,
    unconstrained, Reg, RegEnv, NUM_VARS,
};
use crate::domains::zone::dbm::{Dbm, Zone, INF};
use crate::domains::zone::ops::wrapped_neg;
use crate::num::wadd;
use vstd::prelude::*;

verus! {

/// An instruction of a small program.
#[allow(inconsistent_fields)]
#[derive(Debug, Clone, Copy, PartialEq, Eq, Structural)]
pub enum Instr {
    /// `x = 0`.
    AssignZero { x: Reg },
    /// `x = y`.
    AssignEq { x: Reg, y: Reg },
    /// `x = y + c`.
    AssignAddConst { x: Reg, y: Reg, c: i64 },
    /// `x < c` holds.
    AssumeLessThan { x: Reg, c: i64 },
}

/// A bound that says something: `x_i - x_j <= bound`.
#[derive(Debug, Clone, Copy, PartialEq, Eq, Structural)]
pub struct DbmEntry {
    pub i: usize,
    pub j: usize,
    pub bound: i64,
}

/// The bounds at a point of a run.
#[derive(Debug)]
pub struct DbmSnapshot {
    pub pc: usize,
    pub entries: Vec<DbmEntry>,
}

/// A record of a run.
#[derive(Debug)]
pub struct Trace {
    pub label: String,
    pub snapshots: Vec<DbmSnapshot>,
}

/// `x = y + c`.
pub open spec fn offset(z: Zone, x: Reg, y: Reg, c: i64) -> Zone {
    if x == y {
        shifted(z, x, c)
    } else {
        z.forget(x.idx() as int).add(x.idx() as int, y.idx() as int, c as int).add(
            y.idx() as int,
            x.idx() as int,
            wrapped_neg(c) as int,
        ).close()
    }
}

/// `x = y + c`.
pub fn assign_add_const(dbm: &mut Dbm, x: Reg, y: Reg, c: i64)
    requires
        small(old(dbm)),
    ensures
        small(final(dbm)),
        final(dbm)@ == offset(old(dbm)@, x, y, c),
{
    if x == y {
        add_imm(dbm, x, c);
        return ;
    }
    dbm.forget_idx(x.idx());
    dbm.add_constraint_idx(x.idx(), y.idx(), c);
    dbm.add_constraint_idx(y.idx(), x.idx(), if c == i64::MIN { c } else { -c });
    dbm.close();
}

/// The values after an instruction.
pub open spec fn applied(z: Zone, i: Instr) -> Zone {
    match i {
        Instr::AssignZero { x } => equated(z, x, Reg::Zero),
        Instr::AssignEq { x, y } => equated(z, x, y),
        Instr::AssignAddConst { x, y, c } => offset(z, x, y, c),
        Instr::AssumeLessThan { x, c } => at_most(z, x, Reg::Zero, Some(wadd(c, (-1) as i64))),
    }
}

fn apply(dbm: &mut Dbm, i: Instr)
    requires
        small(old(dbm)),
    ensures
        small(final(dbm)),
        final(dbm)@ == applied(old(dbm)@, i),
{
    match i {
        Instr::AssignZero { x } => assign_zero(dbm, x, Reg::Zero),
        Instr::AssignEq { x, y } => assign_eq(dbm, x, y),
        Instr::AssignAddConst { x, y, c } => assign_add_const(dbm, x, y, c),
        Instr::AssumeLessThan { x, c } => assume_less_than(dbm, x, Reg::Zero, c),
    }
}

/// The values after the first `k` instructions.
pub open spec fn after(instrs: Seq<Instr>, k: nat) -> Zone
    decreases k,
{
    if k == 0 {
        Zone::top(NUM_VARS as nat)
    } else {
        applied(after(instrs, (k - 1) as nat), instrs[k - 1])
    }
}

/// How many instructions run, if `k` have run: a run stops where no values are
/// left.
pub open spec fn ran(instrs: Seq<Instr>, k: nat) -> nat
    decreases instrs.len() - k,
{
    if k >= instrs.len() {
        k
    } else if after(instrs, k + 1).inconsistent() {
        k + 1
    } else {
        ran(instrs, k + 1)
    }
}

/// Runs a program: the values after each instruction that ran.
pub fn run_program(instrs: &[Instr]) -> (r: Vec<Dbm>)
    ensures
        r@.len() == ran(instrs@, 0),
        forall|k: int|
            0 <= k < r@.len() ==> small(&#[trigger] r@[k]) && r@[k]@ == after(
                instrs@,
                (k + 1) as nat,
            ),
{
    let mut dbm: Dbm = unconstrained();
    let mut r: Vec<Dbm> = Vec::new();
    let mut pc: usize = 0;
    while pc < instrs.len()
        invariant
            pc <= instrs@.len(),
            small(&dbm),
            dbm@ == after(instrs@, pc as nat),
            r@.len() == pc,
            ran(instrs@, 0) == ran(instrs@, pc as nat),
            forall|k: int|
                0 <= k < r@.len() ==> small(&#[trigger] r@[k]) && r@[k]@ == after(
                    instrs@,
                    (k + 1) as nat,
                ),
        decreases instrs@.len() - pc,
    {
        apply(&mut dbm, instrs[pc]);
        r.push(dbm.clone());
        if dbm.is_inconsistent() {
            return r;
        }
        pc = pc + 1;
    }
    r
}

/// The bounds of a row, up to `j`, that say something about two variables.
pub open spec fn row_entries(m: Seq<Seq<i64>>, i: nat, j: nat) -> Seq<DbmEntry>
    decreases j,
{
    if j == 0 {
        Seq::empty()
    } else {
        let e = row_entries(m, i, (j - 1) as nat);
        let bound = m[i as int][j - 1];
        if i != j - 1 && bound < INF {
            e.push(DbmEntry { i: i as usize, j: (j - 1) as usize, bound })
        } else {
            e
        }
    }
}

/// The bounds of the first `i` rows that say something about two variables.
pub open spec fn entries(m: Seq<Seq<i64>>, i: nat) -> Seq<DbmEntry>
    decreases i,
{
    if i == 0 {
        Seq::empty()
    } else {
        entries(m, (i - 1) as nat) + row_entries(m, (i - 1) as nat, NUM_VARS as nat)
    }
}

/// The bounds that say something about two variables.
pub fn to_compact_entries(dbm: &Dbm) -> (r: Vec<DbmEntry>)
    requires
        small(dbm),
    ensures
        r@ == entries(dbm@.m, NUM_VARS as nat),
{
    let mut r: Vec<DbmEntry> = Vec::new();
    let mut i: usize = 0;
    while i < NUM_VARS
        invariant
            i <= NUM_VARS,
            small(dbm),
            r@ == entries(dbm@.m, i as nat),
        decreases NUM_VARS - i,
    {
        let ghost before = r@;
        let mut j: usize = 0;
        assert(r@ =~= before + row_entries(dbm@.m, i as nat, 0));
        while j < NUM_VARS
            invariant
                i < NUM_VARS,
                j <= NUM_VARS,
                small(dbm),
                r@ == before + row_entries(dbm@.m, i as nat, j as nat),
            decreases NUM_VARS - j,
        {
            let bound: i64 = dbm.raw(i, j);
            if i != j && bound < INF {
                r.push(DbmEntry { i, j, bound });
            }
            assert(r@ =~= before + row_entries(dbm@.m, i as nat, (j + 1) as nat));
            j = j + 1;
        }
        i = i + 1;
    }
    r
}

/// Runs a program and records the bounds before it and after each instruction
/// that ran.
pub fn run_program_with_trace(instrs: &[Instr], label: &str) -> (r: Trace)
    requires
        instrs@.len() < usize::MAX,
    ensures
        r.label@ == label@,
        r.snapshots@.len() == ran(instrs@, 0) + 1,
        forall|k: int|
            0 <= k < r.snapshots@.len() ==> (#[trigger] r.snapshots@[k]).pc == k
                && r.snapshots@[k].entries@ == entries(
                after(instrs@, k as nat).m,
                NUM_VARS as nat,
            ),
{
    let start: Dbm = unconstrained();
    let states: Vec<Dbm> = run_program(instrs);
    let mut snapshots: Vec<DbmSnapshot> = Vec::new();
    snapshots.push(DbmSnapshot { pc: 0, entries: to_compact_entries(&start) });
    let mut k: usize = 0;
    proof {
        law_runs_stop_at_the_first_conflict(instrs@, 0);
    }
    while k < states.len()
        invariant
            k <= states@.len(),
            states@.len() <= instrs@.len() < usize::MAX,
            snapshots@.len() == k + 1,
            forall|i: int|
                0 <= i < states@.len() ==> small(&#[trigger] states@[i]) && states@[i]@ == after(
                    instrs@,
                    (i + 1) as nat,
                ),
            forall|i: int|
                0 <= i < snapshots@.len() ==> (#[trigger] snapshots@[i]).pc == i
                    && snapshots@[i].entries@ == entries(
                    after(instrs@, i as nat).m,
                    NUM_VARS as nat,
                ),
        decreases states@.len() - k,
    {
        snapshots.push(DbmSnapshot { pc: k + 1, entries: to_compact_entries(&states[k]) });
        k = k + 1;
    }
    let mut name: String = String::new();
    name.append(label);
    assert(name@ =~= label@);
    Trace { label: name, snapshots }
}

/// A run goes through the whole program, or stops at the first instruction that
/// leaves no values.
pub proof fn law_runs_stop_at_the_first_conflict(instrs: Seq<Instr>, k: nat)
    requires
        k <= instrs.len(),
    ensures
        k <= ran(instrs, k) <= instrs.len(),
        ran(instrs, k) < instrs.len() ==> after(instrs, ran(instrs, k)).inconsistent(),
        forall|i: nat|
            k < i < ran(instrs, k) ==> !(#[trigger] after(instrs, i)).inconsistent(),
    decreases instrs.len() - k,
{
    if k < instrs.len() && !after(instrs, k + 1).inconsistent() {
        law_runs_stop_at_the_first_conflict(instrs, k + 1);
    }
}

/// `r0 = 0; r1 = r0 + 10; r1 < 20; r1 < 15`: the bounds on `r1` are known
/// already.
pub fn program_interval_narrowing(env: &RegEnv) -> (r: Vec<Instr>)
    ensures
        r@ == seq![
            Instr::AssignZero { x: Reg::R0 },
            Instr::AssignAddConst { x: Reg::R1, y: Reg::R0, c: 10 },
            Instr::AssumeLessThan { x: Reg::R1, c: 20 },
            Instr::AssumeLessThan { x: Reg::R1, c: 15 },
        ],
{
    let r0: Reg = env.var_of_index(1);
    let r1: Reg = env.var_of_index(2);
    vec![
        Instr::AssignZero { x: r0 },
        Instr::AssignAddConst { x: r1, y: r0, c: 10 },
        Instr::AssumeLessThan { x: r1, c: 20 },
        Instr::AssumeLessThan { x: r1, c: 15 },
    ]
}

/// `r0 = 0; r1 = r0 + 3; r2 = r1 + 7; r2 < 12`: a chain of two variables.
pub fn program_two_var_chain(env: &RegEnv) -> (r: Vec<Instr>)
    ensures
        r@ == seq![
            Instr::AssignZero { x: Reg::R0 },
            Instr::AssignAddConst { x: Reg::R1, y: Reg::R0, c: 3 },
            Instr::AssignAddConst { x: Reg::R2, y: Reg::R1, c: 7 },
            Instr::AssumeLessThan { x: Reg::R2, c: 12 },
        ],
{
    let r0: Reg = env.var_of_index(1);
    let r1: Reg = env.var_of_index(2);
    let r2: Reg = env.var_of_index(3);
    vec![
        Instr::AssignZero { x: r0 },
        Instr::AssignAddConst { x: r1, y: r0, c: 3 },
        Instr::AssignAddConst { x: r2, y: r1, c: 7 },
        Instr::AssumeLessThan { x: r2, c: 12 },
    ]
}

/// `r0 = 0; r0 < 0`: impossible.
pub fn program_inconsistent(env: &RegEnv) -> (r: Vec<Instr>)
    ensures
        r@ == seq![
            Instr::AssignZero { x: Reg::R0 },
            Instr::AssumeLessThan { x: Reg::R0, c: 0 },
        ],
{
    let r0: Reg = env.var_of_index(1);
    vec![Instr::AssignZero { x: r0 }, Instr::AssumeLessThan { x: r0, c: 0 }]
}

/// `r0 = 0; r1 = r0; r2 = r1 + 5; r1 = r2; r2 < 4`: impossible, since `r2` is
/// five.
pub fn program_alias_and_conflict(env: &RegEnv) -> (r: Vec<Instr>)
    ensures
        r@ == seq![
            Instr::AssignZero { x: Reg::R0 },
            Instr::AssignEq { x: Reg::R1, y: Reg::R0 },
            Instr::AssignAddConst { x: Reg::R2, y: Reg::R1, c: 5 },
            Instr::AssignEq { x: Reg::R1, y: Reg::R2 },
            Instr::AssumeLessThan { x: Reg::R2, c: 4 },
        ],
{
    let r0: Reg = env.var_of_index(1);
    let r1: Reg = env.var_of_index(2);
    let r2: Reg = env.var_of_index(3);
    vec![
        Instr::AssignZero { x: r0 },
        Instr::AssignEq { x: r1, y: r0 },
        Instr::AssignAddConst { x: r2, y: r1, c: 5 },
        Instr::AssignEq { x: r1, y: r2 },
        Instr::AssumeLessThan { x: r2, c: 4 },
    ]
}

proof fn lemma_row_entries(m: Seq<Seq<i64>>, i: nat, j: nat, e: DbmEntry)
    requires
        i < NUM_VARS,
        j <= NUM_VARS,
    ensures
        row_entries(m, i, j).contains(e) <==> e.i == i && e.j < j && e.j != i && e.bound
            == m[i as int][e.j as int] && e.bound < INF,
    decreases j,
{
    if j > 0 {
        lemma_row_entries(m, i, (j - 1) as nat, e);
        let before = row_entries(m, i, (j - 1) as nat);
        let all = row_entries(m, i, j);
        if before.contains(e) {
            let k = choose|k: int| 0 <= k < before.len() && before[k] == e;
            assert(all[k] == e);
        }
        if i != j - 1 && m[i as int][j - 1] < INF {
            assert(all[all.len() - 1] == (DbmEntry {
                i: i as usize,
                j: (j - 1) as usize,
                bound: m[i as int][j - 1],
            }));
        }
        if all.contains(e) && !before.contains(e) {
            let k = choose|k: int| 0 <= k < all.len() && all[k] == e;
            if k < before.len() {
                assert(before[k] == e);
            }
        }
    }
}

/// The bounds that are listed are those between two variables that say
/// something, each with its value.
pub proof fn law_listed_bounds_are_those_that_say_something(
    m: Seq<Seq<i64>>,
    n: nat,
    e: DbmEntry,
)
    requires
        n <= NUM_VARS,
    ensures
        entries(m, n).contains(e) <==> e.i < n && e.j < NUM_VARS && e.i != e.j && e.bound
            == m[e.i as int][e.j as int] && e.bound < INF,
    decreases n,
{
    if n > 0 {
        law_listed_bounds_are_those_that_say_something(m, (n - 1) as nat, e);
        lemma_row_entries(m, (n - 1) as nat, NUM_VARS as nat, e);
        let before = entries(m, (n - 1) as nat);
        let row = row_entries(m, (n - 1) as nat, NUM_VARS as nat);
        let all = entries(m, n);
        if before.contains(e) {
            let k = choose|k: int| 0 <= k < before.len() && before[k] == e;
            assert(all[k] == e);
        }
        if row.contains(e) {
            let k = choose|k: int| 0 <= k < row.len() && row[k] == e;
            assert(all[before.len() + k] == e);
        }
        if all.contains(e) && !before.contains(e) {
            let k = choose|k: int| 0 <= k < all.len() && all[k] == e;
            if k < before.len() {
                assert(before[k] == e);
            } else {
                assert(row[k - before.len()] == e);
            }
        }
    }
}

} // verus!
