//! Sample programs by name.
use crate::ast::{MemSize, Width};
use crate::compact::ast::{AluOp, CmpOp, Instr, Operand, Program};
use crate::compact::domain::Reg;
use crate::text::text_eq;
use vstd::prelude::*;

verus! {

/// A program and its name.
#[derive(Debug)]
pub struct NamedProgram {
    pub name: &'static str,
    pub program: Program,
}

pub open spec fn mov_r(dst: Reg, src: Reg) -> Instr {
    Instr::Alu { width: Width::W64, op: AluOp::Mov, dst, src: Operand::Reg(src) }
}

pub open spec fn add_r(dst: Reg, src: Reg) -> Instr {
    Instr::Alu { width: Width::W64, op: AluOp::Add, dst, src: Operand::Reg(src) }
}

pub open spec fn add_i(dst: Reg, imm: i64) -> Instr {
    Instr::Alu { width: Width::W64, op: AluOp::Add, dst, src: Operand::Imm(imm) }
}

pub open spec fn and_i(dst: Reg, imm: i64) -> Instr {
    Instr::Alu { width: Width::W64, op: AluOp::And, dst, src: Operand::Imm(imm) }
}

pub open spec fn if_uge_i(left: Reg, imm: i64, target: usize) -> Instr {
    Instr::If { width: Width::W64, left, op: CmpOp::UGe, right: Operand::Imm(imm), target }
}

pub open spec fn load_u8(dst: Reg, base: Reg, off: i16) -> Instr {
    Instr::Load { size: MemSize::U8, dst, base, off }
}

/// The names of the sample programs.
pub open spec fn sample_names() -> Seq<&'static str> {
    seq![
        "canonical_relational_guard",
        "unsafe_no_constraints",
        "safe_via_mask_small_offset",
        "merge_two_offsets_join",
        "addreg_const_offset_demo",
        "masked_copy_index",
    ]
}

/// Instructions of the sample programs.
pub open spec fn sample_instrs(i: int) -> Seq<Instr> {
    if i == 0 {
        seq![
            Instr::MovArg0 { dst: Reg::R0 },
            mov_r(Reg::R1, Reg::R0),
            if_uge_i(Reg::R1, 16, 7),
            mov_r(Reg::R2, Reg::R10),
            add_i(Reg::R2, (-16) as i64),
            add_r(Reg::R2, Reg::R0),
            load_u8(Reg::R0, Reg::R2, 0),
            Instr::Exit,
        ]
    } else if i == 1 {
        seq![
            Instr::MovArg0 { dst: Reg::R0 },
            mov_r(Reg::R2, Reg::R10),
            add_i(Reg::R2, (-16) as i64),
            add_r(Reg::R2, Reg::R0),
            load_u8(Reg::R0, Reg::R2, 0),
            Instr::Exit,
        ]
    } else if i == 2 {
        seq![
            Instr::MovArg0 { dst: Reg::R0 },
            and_i(Reg::R0, 7),
            mov_r(Reg::R2, Reg::R10),
            add_i(Reg::R2, (-8) as i64),
            add_r(Reg::R2, Reg::R0),
            load_u8(Reg::R0, Reg::R2, 0),
            Instr::Exit,
        ]
    } else if i == 3 {
        seq![
            Instr::MovArg0 { dst: Reg::R0 },
            and_i(Reg::R0, 1),
            if_uge_i(Reg::R0, 1, 6),
            mov_r(Reg::R2, Reg::R10),
            add_i(Reg::R2, (-16) as i64),
            if_uge_i(Reg::Zero, 0, 8),
            mov_r(Reg::R2, Reg::R10),
            add_i(Reg::R2, (-32) as i64),
            add_r(Reg::R2, Reg::R0),
            load_u8(Reg::R0, Reg::R2, 0),
            Instr::Exit,
        ]
    } else if i == 4 {
        seq![
            Instr::MovArg0 { dst: Reg::R0 },
            mov_r(Reg::R1, Reg::R0),
            and_i(Reg::R1, 7),
            mov_r(Reg::R2, Reg::Zero),
            add_i(Reg::R2, 3),
            add_r(Reg::R2, Reg::R1),
            Instr::Exit,
        ]
    } else {
        seq![
            Instr::MovArg0 { dst: Reg::R0 },
            and_i(Reg::R0, 31),
            mov_r(Reg::R1, Reg::R0),
            mov_r(Reg::R2, Reg::R10),
            add_i(Reg::R2, (-32) as i64),
            add_r(Reg::R2, Reg::R1),
            load_u8(Reg::R0, Reg::R2, 0),
            Instr::Exit,
        ]
    }
}

fn make_mov_r(dst: Reg, src: Reg) -> (r: Instr)
    ensures
        r == mov_r(dst, src),
{
    Instr::Alu { width: Width::W64, op: AluOp::Mov, dst, src: Operand::Reg(src) }
}

fn make_add_r(dst: Reg, src: Reg) -> (r: Instr)
    ensures
        r == add_r(dst, src),
{
    Instr::Alu { width: Width::W64, op: AluOp::Add, dst, src: Operand::Reg(src) }
}

fn make_add_i(dst: Reg, imm: i64) -> (r: Instr)
    ensures
        r == add_i(dst, imm),
{
    Instr::Alu { width: Width::W64, op: AluOp::Add, dst, src: Operand::Imm(imm) }
}

fn make_and_i(dst: Reg, imm: i64) -> (r: Instr)
    ensures
        r == and_i(dst, imm),
{
    Instr::Alu { width: Width::W64, op: AluOp::And, dst, src: Operand::Imm(imm) }
}

fn make_if_uge_i(left: Reg, imm: i64, target: usize) -> (r: Instr)
    ensures
        r == if_uge_i(left, imm, target),
{
    Instr::If { width: Width::W64, left, op: CmpOp::UGe, right: Operand::Imm(imm), target }
}

fn make_load_u8(dst: Reg, base: Reg, off: i16) -> (r: Instr)
    ensures
        r == load_u8(dst, base, off),
{
    Instr::Load { size: MemSize::U8, dst, base, off }
}

/// A masked index is copied and used.
pub fn masked_copy_index() -> (r: Program)
    ensures
        r.instrs@ == sample_instrs(5),
{
    Program {
        instrs: vec![
            Instr::MovArg0 { dst: Reg::R0 },
            make_and_i(Reg::R0, 31),
            make_mov_r(Reg::R1, Reg::R0),
            make_mov_r(Reg::R2, Reg::R10),
            make_add_i(Reg::R2, -32),
            make_add_r(Reg::R2, Reg::R1),
            make_load_u8(Reg::R0, Reg::R2, 0),
            Instr::Exit,
        ],
    }
}

/// A copy of an index is bounded, and the index is used.
pub fn canonical_relational_guard() -> (r: Program)
    ensures
        r.instrs@ == sample_instrs(0),
{
    Program {
        instrs: vec![
            Instr::MovArg0 { dst: Reg::R0 },
            make_mov_r(Reg::R1, Reg::R0),
            make_if_uge_i(Reg::R1, 16, 7),
            make_mov_r(Reg::R2, Reg::R10),
            make_add_i(Reg::R2, -16),
            make_add_r(Reg::R2, Reg::R0),
            make_load_u8(Reg::R0, Reg::R2, 0),
            Instr::Exit,
        ],
    }
}

/// An index without bounds is used.
pub fn unsafe_no_constraints() -> (r: Program)
    ensures
        r.instrs@ == sample_instrs(1),
{
    Program {
        instrs: vec![
            Instr::MovArg0 { dst: Reg::R0 },
            make_mov_r(Reg::R2, Reg::R10),
            make_add_i(Reg::R2, -16),
            make_add_r(Reg::R2, Reg::R0),
            make_load_u8(Reg::R0, Reg::R2, 0),
            Instr::Exit,
        ],
    }
}

/// A masked index is used.
pub fn safe_via_mask_small_offset() -> (r: Program)
    ensures
        r.instrs@ == sample_instrs(2),
{
    Program {
        instrs: vec![
            Instr::MovArg0 { dst: Reg::R0 },
            make_and_i(Reg::R0, 7),
            make_mov_r(Reg::R2, Reg::R10),
            make_add_i(Reg::R2, -8),
            make_add_r(Reg::R2, Reg::R0),
            make_load_u8(Reg::R0, Reg::R2, 0),
            Instr::Exit,
        ],
    }
}

/// Two paths with different offsets meet before the offset is used.
pub fn merge_two_offsets_join() -> (r: Program)
    ensures
        r.instrs@ == sample_instrs(3),
{
    Program {
        instrs: vec![
            Instr::MovArg0 { dst: Reg::R0 },
            make_and_i(Reg::R0, 1),
            make_if_uge_i(Reg::R0, 1, 6),
            make_mov_r(Reg::R2, Reg::R10),
            make_add_i(Reg::R2, -16),
            make_if_uge_i(Reg::Zero, 0, 8),
            make_mov_r(Reg::R2, Reg::R10),
            make_add_i(Reg::R2, -32),
            make_add_r(Reg::R2, Reg::R0),
            make_load_u8(Reg::R0, Reg::R2, 0),
            Instr::Exit,
        ],
    }
}

/// Sums of registers, without memory.
pub fn addreg_const_offset_demo() -> (r: Program)
    ensures
        r.instrs@ == sample_instrs(4),
{
    Program {
        instrs: vec![
            Instr::MovArg0 { dst: Reg::R0 },
            make_mov_r(Reg::R1, Reg::R0),
            make_and_i(Reg::R1, 7),
            make_mov_r(Reg::R2, Reg::Zero),
            make_add_i(Reg::R2, 3),
            make_add_r(Reg::R2, Reg::R1),
            Instr::Exit,
        ],
    }
}

/// The sample programs.
pub fn registry() -> (r: Vec<NamedProgram>)
    ensures
        r@.len() == 6,
        forall|i: int|
            0 <= i < 6 ==> (#[trigger] r@[i]).name == sample_names()[i] && r@[i].program.instrs@
                == sample_instrs(i),
{
    vec![
        NamedProgram { name: "canonical_relational_guard", program: canonical_relational_guard() },
        NamedProgram { name: "unsafe_no_constraints", program: unsafe_no_constraints() },
        NamedProgram { name: "safe_via_mask_small_offset", program: safe_via_mask_small_offset() },
        NamedProgram { name: "merge_two_offsets_join", program: merge_two_offsets_join() },
        NamedProgram { name: "addreg_const_offset_demo", program: addreg_const_offset_demo() },
        NamedProgram { name: "masked_copy_index", program: masked_copy_index() },
    ]
}

/// The names of the sample programs.
pub fn names() -> (r: Vec<&'static str>)
    ensures
        r@ == sample_names(),
{
    vec![
        "canonical_relational_guard",
        "unsafe_no_constraints",
        "safe_via_mask_small_offset",
        "merge_two_offsets_join",
        "addreg_const_offset_demo",
        "masked_copy_index",
    ]
}

/// The first sample program, from `i` on, with a name.
pub open spec fn sample_from(name: Seq<char>, i: int) -> Option<Seq<Instr>>
    decreases 6 - i,
{
    if i >= 6 {
        None
    } else if sample_names()[i]@ == name {
        Some(sample_instrs(i))
    } else {
        sample_from(name, i + 1)
    }
}

/// The sample program with a name.
pub fn get(name: &str) -> (r: Option<Program>)
    ensures
        match r {
            Some(p) => sample_from(name@, 0) == Some(p.instrs@),
            None => sample_from(name@, 0) is None,
        },
{
    let mut all: Vec<NamedProgram> = registry();
    let ghost whole = all@;
    let mut i: usize = 0;
    while i < 6
        invariant
            i <= 6,
            all@ == whole.skip(i as int),
            whole.len() == 6,
            forall|k: int|
                0 <= k < 6 ==> (#[trigger] whole[k]).name == sample_names()[k]
                    && whole[k].program.instrs@ == sample_instrs(k),
            sample_from(name@, 0) == sample_from(name@, i as int),
        decreases 6 - i,
    {
        let one: NamedProgram = all.remove(0);
        assert(one == whole[i as int]);
        assert(all@ =~= whole.skip(i + 1));
        if text_eq(one.name, name) {
            return Some(one.program);
        }
        i = i + 1;
    }
    None
}

} // verus!
