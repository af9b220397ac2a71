//! Encoded instructions as instructions of the compact analyzer.
use crate::ast::{MemSize, Width};
use crate::compact::alu::{computed, result_type};
use crate::compact::ast::{AluOp, CmpOp, Instr, Operand, Program};
use crate::compact::context::ExecContext;
use crate::compact::domain::{type_of, with_type, Reg, RegType, NUM_REGS};
use crate::domains::zone::dbm::Zone;
use crate::parsing::bpf_insn::RawBpfInsn;
use crate::text::{dec, hex, owned, pad_zero, push_dec, push_hex_padded, push_nat};
use vstd::prelude::*;

verus! {

/// Why an encoded program has no counterpart.
#[derive(Debug)]
pub struct LowerError {
    pub pc: usize,
    pub code: u8,
    pub msg: String,
}

/// The model of an error.
#[verifier::ext_equal]
pub ghost struct Refusal {
    pub pc: usize,
    pub code: u8,
    pub msg: Seq<char>,
}

impl LowerError {
    pub open spec fn view(&self) -> Refusal {
        Refusal { pc: self.pc, code: self.code, msg: self.msg@ }
    }
}

pub open spec fn spec_reg_to_var(r: u8) -> Reg {
    if r == 0 {
        Reg::R0
    } else if r == 1 {
        Reg::R1
    } else if r == 2 {
        Reg::R2
    } else if r == 3 {
        Reg::R3
    } else if r == 4 {
        Reg::R4
    } else if r == 5 {
        Reg::R5
    } else if r == 6 {
        Reg::R6
    } else if r == 7 {
        Reg::R7
    } else if r == 8 {
        Reg::R8
    } else if r == 9 {
        Reg::R9
    } else {
        Reg::R10
    }
}

/// The register with a number.
#[verifier::when_used_as_spec(spec_reg_to_var)]
pub fn reg_to_var(r: u8) -> (v: Reg)
    requires
        r <= 10,
    ensures
        v == spec_reg_to_var(r),
        v.idx() == r + 1,
{
    match r {
        0 => Reg::R0,
        1 => Reg::R1,
        2 => Reg::R2,
        3 => Reg::R3,
        4 => Reg::R4,
        5 => Reg::R5,
        6 => Reg::R6,
        7 => Reg::R7,
        8 => Reg::R8,
        9 => Reg::R9,
        _ => Reg::R10,
    }
}

/// A jump goes on from the next instruction, by its offset.
pub open spec fn spec_branch_target(pc: usize, off: i16, len: nat, code: u8) -> Result<usize, Refusal> {
    let t = pc + 1 + off;
    if t < 0 || t >= len {
        Err(Refusal { pc, code, msg: "branch target out of range: "@ + dec(t) })
    } else {
        Ok(t as usize)
    }
}

/// The model of a result.
pub open spec fn outcome<T>(r: Result<T, LowerError>) -> Result<T, Refusal> {
    match r {
        Ok(x) => Ok(x),
        Err(e) => Err(e@),
    }
}

/// Where a jump goes.
pub fn branch_target(pc: usize, off: i16, len: usize, code: u8) -> (r: Result<usize, LowerError>)
    requires
        pc < len <= i64::MAX,
    ensures
        outcome(r) == spec_branch_target(pc, off, len as nat, code),
{
    let t: i128 = pc as i128 + 1 + off as i128;
    if t < 0 || t >= len as i128 {
        let mut msg: String = String::new();
        msg.append("branch target out of range: ");
        assert(msg@ =~= "branch target out of range: "@);
        if t < 0 {
            push_dec(&mut msg, t as i64);
        } else {
            push_nat(&mut msg, t as u64);
        }
        return Err(LowerError { pc, code, msg });
    }
    Ok(t as usize)
}

pub open spec fn spec_unsigned(imm: i32) -> i64 {
    if imm < 0 { (imm + 0x1_0000_0000) as i64 } else { imm as i64 }
}

/// The bits of a constant as an unsigned number.
#[verifier::when_used_as_spec(spec_unsigned)]
pub fn unsigned(imm: i32) -> (r: i64)
    ensures
        r == spec_unsigned(imm),
        0 <= r <= 0xffff_ffff,
{
    if imm < 0 {
        imm as i64 + 0x1_0000_0000
    } else {
        imm as i64
    }
}

pub open spec fn spec_wide(low: i32, high: i32) -> i64 {
    (high * 0x1_0000_0000 + unsigned(low)) as i64
}

/// A 64-bit constant out of its halves.
#[verifier::when_used_as_spec(spec_wide)]
pub fn wide(low: i32, high: i32) -> (r: i64)
    ensures
        r == spec_wide(low, high),
{
    high as i64 * 0x1_0000_0000 + unsigned(low)
}

/// Nothing happens.
pub open spec fn nop() -> Instr {
    Instr::Alu { width: Width::W64, op: AluOp::Mov, dst: Reg::R0, src: Operand::Reg(Reg::R0) }
}

/// Slots that an instruction takes.
pub open spec fn slots(insn: RawBpfInsn) -> int {
    if insn.code == 0x18 { 2 } else { 1 }
}

/// The instructions of a wide constant: a move, and nothing in the second slot.
pub open spec fn wide_load(raw: Seq<RawBpfInsn>, pc: int) -> Result<Seq<Instr>, Refusal> {
    let insn = raw[pc];
    if pc + 1 >= raw.len() {
        Err(
            Refusal {
                pc: pc as usize,
                code: insn.code,
                msg: "LDIMM64 at end of stream missing continuation slot"@,
            },
        )
    } else if raw[pc + 1].code != 0 {
        Err(
            Refusal {
                pc: pc as usize,
                code: raw[pc + 1].code,
                msg: "LDIMM64 continuation slot had unexpected opcode 0x"@ + pad_zero(
                    hex(raw[pc + 1].code as nat),
                    2,
                ),
            },
        )
    } else {
        Ok(
            seq![
                Instr::Alu {
                    width: Width::W64,
                    op: AluOp::Mov,
                    dst: reg_to_var(insn.dst),
                    src: Operand::Imm(wide(insn.imm, raw[pc + 1].imm)),
                },
                nop(),
            ],
        )
    }
}

/// A conditional jump, if it has a target.
pub open spec fn jump_if(
    pc: usize,
    insn: RawBpfInsn,
    len: nat,
    width: Width,
    op: CmpOp,
    right: Operand,
) -> Result<Instr, Refusal> {
    match spec_branch_target(pc, insn.off, len, insn.code) {
        Ok(target) => Ok(Instr::If { width, left: reg_to_var(insn.dst), op, right, target }),
        Err(e) => Err(e),
    }
}

/// The instruction of a slot, other than a wide constant.
pub open spec fn lowered_one(insn: RawBpfInsn, pc: usize, len: nat) -> Result<Instr, Refusal> {
    let dst = reg_to_var(insn.dst);
    let src = reg_to_var(insn.src);
    let c = insn.code;
    let imm = insn.imm as i64;
    if c == 0xbf {
        Ok(Instr::Alu { width: Width::W64, op: AluOp::Mov, dst, src: Operand::Reg(src) })
    } else if c == 0xb7 {
        Ok(Instr::Alu { width: Width::W64, op: AluOp::Mov, dst, src: Operand::Imm(imm) })
    } else if c == 0x07 {
        Ok(Instr::Alu { width: Width::W64, op: AluOp::Add, dst, src: Operand::Imm(imm) })
    } else if c == 0x0f {
        Ok(Instr::Alu { width: Width::W64, op: AluOp::Add, dst, src: Operand::Reg(src) })
    } else if c == 0x54 {
        Ok(
            Instr::Alu {
                width: Width::W32,
                op: AluOp::And,
                dst,
                src: Operand::Imm(unsigned(insn.imm)),
            },
        )
    } else if c == 0x57 {
        Ok(Instr::Alu { width: Width::W64, op: AluOp::And, dst, src: Operand::Imm(imm) })
    } else if c == 0x95 {
        Ok(Instr::Exit)
    } else if c == 0x55 {
        jump_if(pc, insn, len, Width::W64, CmpOp::Ne, Operand::Imm(imm))
    } else if c == 0xbd {
        jump_if(pc, insn, len, Width::W64, CmpOp::ULe, Operand::Reg(src))
    } else if c == 0xb4 {
        Ok(
            Instr::Alu {
                width: Width::W32,
                op: AluOp::Mov,
                dst,
                src: Operand::Imm(unsigned(insn.imm)),
            },
        )
    } else if c == 0xb5 {
        jump_if(pc, insn, len, Width::W64, CmpOp::UGe, Operand::Imm(imm))
    } else if c == 0x16 {
        jump_if(pc, insn, len, Width::W32, CmpOp::Eq, Operand::Imm(unsigned(insn.imm)))
    } else if c == 0x05 {
        match spec_branch_target(pc, insn.off, len, c) {
            Ok(target) => Ok(Instr::Jmp { target }),
            Err(e) => Err(e),
        }
    } else if c == 0x61 {
        Ok(Instr::Load { size: MemSize::U32, dst, base: src, off: insn.off })
    } else if c == 0x6b {
        Ok(Instr::Store { size: MemSize::U16, base: dst, off: insn.off, src })
    } else if c == 0x63 {
        Ok(Instr::Store { size: MemSize::U32, base: dst, off: insn.off, src })
    } else if c == 0x73 {
        Ok(Instr::Store { size: MemSize::U8, base: dst, off: insn.off, src })
    } else if c == 0x7b {
        Ok(Instr::Store { size: MemSize::U64, base: dst, off: insn.off, src })
    } else if c == 0x85 {
        Ok(Instr::Call { helper: unsigned(insn.imm) as u32 })
    } else if c == 0x00 {
        Err(
            Refusal {
                pc,
                code: c,
                msg: "unexpected opcode 0x00 (LDIMM64 continuation without prefix?)"@,
            },
        )
    } else {
        Err(
            Refusal {
                pc,
                code: c,
                msg: "unsupported opcode 0x"@ + pad_zero(hex(c as nat), 2) + " at pc "@ + dec(
                    pc as int,
                ),
            },
        )
    }
}

/// The instructions of the slots that an instruction takes.
pub open spec fn lowered_at(raw: Seq<RawBpfInsn>, pc: int) -> Result<Seq<Instr>, Refusal> {
    if raw[pc].code == 0x18 {
        wide_load(raw, pc)
    } else {
        match lowered_one(raw[pc], pc as usize, raw.len()) {
            Ok(i) => Ok(seq![i]),
            Err(e) => Err(e),
        }
    }
}

/// The instructions from a slot on, or the first error.
pub open spec fn lowered(raw: Seq<RawBpfInsn>, pc: int) -> Result<Seq<Instr>, Refusal>
    decreases raw.len() - pc,
{
    if pc >= raw.len() {
        Ok(Seq::empty())
    } else {
        match lowered_at(raw, pc) {
            Ok(first) => match lowered(raw, pc + slots(raw[pc])) {
                Ok(rest) => Ok(first + rest),
                Err(e) => Err(e),
            },
            Err(e) => Err(e),
        }
    }
}

/// Every instruction that is looked at names registers that exist. Second
/// slots, and what is behind an error, are not looked at.
pub open spec fn registers_exist(raw: Seq<RawBpfInsn>, pc: int) -> bool
    decreases raw.len() - pc,
{
    pc < raw.len() ==> {
        &&& raw[pc].dst <= 10
        &&& raw[pc].src <= 10
        &&& lowered_at(raw, pc) is Ok ==> registers_exist(raw, pc + slots(raw[pc]))
    }
}

fn lower_if(
    pc: usize,
    insn: RawBpfInsn,
    len: usize,
    width: Width,
    op: CmpOp,
    right: Operand,
) -> (r: Result<Instr, LowerError>)
    requires
        pc < len <= i64::MAX,
        insn.dst <= 10,
    ensures
        outcome(r) == jump_if(pc, insn, len as nat, width, op, right),
{
    match branch_target(pc, insn.off, len, insn.code) {
        Ok(target) => Ok(Instr::If { width, left: reg_to_var(insn.dst), op, right, target }),
        Err(e) => Err(e),
    }
}

fn lower_one(insn: RawBpfInsn, pc: usize, len: usize) -> (r: Result<Instr, LowerError>)
    requires
        pc < len <= i64::MAX,
        insn.dst <= 10,
        insn.src <= 10,
    ensures
        outcome(r) == lowered_one(insn, pc, len as nat),
{
    let dst: Reg = reg_to_var(insn.dst);
    let src: Reg = reg_to_var(insn.src);
    let imm: i64 = insn.imm as i64;
    match insn.code {
        0xbf => Ok(Instr::Alu { width: Width::W64, op: AluOp::Mov, dst, src: Operand::Reg(src) }),
        0xb7 => Ok(Instr::Alu { width: Width::W64, op: AluOp::Mov, dst, src: Operand::Imm(imm) }),
        0x07 => Ok(Instr::Alu { width: Width::W64, op: AluOp::Add, dst, src: Operand::Imm(imm) }),
        0x0f => Ok(Instr::Alu { width: Width::W64, op: AluOp::Add, dst, src: Operand::Reg(src) }),
        0x54 => Ok(
            Instr::Alu {
                width: Width::W32,
                op: AluOp::And,
                dst,
                src: Operand::Imm(unsigned(insn.imm)),
            },
        ),
        0x57 => Ok(Instr::Alu { width: Width::W64, op: AluOp::And, dst, src: Operand::Imm(imm) }),
        0x95 => Ok(Instr::Exit),
        0x55 => lower_if(pc, insn, len, Width::W64, CmpOp::Ne, Operand::Imm(imm)),
        0xbd => lower_if(pc, insn, len, Width::W64, CmpOp::ULe, Operand::Reg(src)),
        0xb4 => Ok(
            Instr::Alu {
                width: Width::W32,
                op: AluOp::Mov,
                dst,
                src: Operand::Imm(unsigned(insn.imm)),
            },
        ),
        0xb5 => lower_if(pc, insn, len, Width::W64, CmpOp::UGe, Operand::Imm(imm)),
        0x16 => lower_if(pc, insn, len, Width::W32, CmpOp::Eq, Operand::Imm(unsigned(insn.imm))),
        0x05 => match branch_target(pc, insn.off, len, insn.code) {
            Ok(target) => Ok(Instr::Jmp { target }),
            Err(e) => Err(e),
        },
        0x61 => Ok(Instr::Load { size: MemSize::U32, dst, base: src, off: insn.off }),
        0x6b => Ok(Instr::Store { size: MemSize::U16, base: dst, off: insn.off, src }),
        0x63 => Ok(Instr::Store { size: MemSize::U32, base: dst, off: insn.off, src }),
        0x73 => Ok(Instr::Store { size: MemSize::U8, base: dst, off: insn.off, src }),
        0x7b => Ok(Instr::Store { size: MemSize::U64, base: dst, off: insn.off, src }),
        0x85 => Ok(Instr::Call { helper: unsigned(insn.imm) as u32 }),
        0x00 => Err(
            LowerError {
                pc,
                code: insn.code,
                msg: owned("unexpected opcode 0x00 (LDIMM64 continuation without prefix?)"),
            },
        ),
        other => {
            let mut msg: String = owned("unsupported opcode 0x");
            push_hex_padded(&mut msg, other as u64, 2);
            msg.append(" at pc ");
            push_nat(&mut msg, pc as u64);
            Err(LowerError { pc, code: other, msg })
        },
    }
}

/// A whole program, or the first thing in it that has no counterpart.
pub fn lower_raw_to_program(raw: &[RawBpfInsn]) -> (r: Result<Program, LowerError>)
    requires
        registers_exist(raw@, 0),
        raw@.len() <= i64::MAX,
    ensures
        match r {
            Ok(p) => lowered(raw@, 0) == Ok::<Seq<Instr>, Refusal>(p.instrs@),
            Err(e) => lowered(raw@, 0) == Err::<Seq<Instr>, Refusal>(e@),
        },
{
    let mut instrs: Vec<Instr> = Vec::new();
    let mut pc: usize = 0;
    assert(lowered(raw@, 0) matches Ok(rest) ==> instrs@ + rest =~= rest);
    while pc < raw.len()
        invariant
            pc <= raw@.len() <= i64::MAX,
            registers_exist(raw@, pc as int),
            lowered(raw@, 0) == match lowered(raw@, pc as int) {
                Ok(rest) => Ok::<Seq<Instr>, Refusal>(instrs@ + rest),
                Err(e) => Err(e),
            },
        decreases raw@.len() - pc,
    {
        let insn: RawBpfInsn = raw[pc];
        let ghost before = instrs@;
        let ghost at = pc as int;
        if insn.code == 0x18 {
            if pc + 1 >= raw.len() {
                return Err(
                    LowerError {
                        pc,
                        code: insn.code,
                        msg: owned("LDIMM64 at end of stream missing continuation slot"),
                    },
                );
            }
            let cont: RawBpfInsn = raw[pc + 1];
            if cont.code != 0 {
                let mut msg: String = owned("LDIMM64 continuation slot had unexpected opcode 0x");
                push_hex_padded(&mut msg, cont.code as u64, 2);
                return Err(LowerError { pc, code: cont.code, msg });
            }
            instrs.push(
                Instr::Alu {
                    width: Width::W64,
                    op: AluOp::Mov,
                    dst: reg_to_var(insn.dst),
                    src: Operand::Imm(wide(insn.imm, cont.imm)),
                },
            );
            instrs.push(
                Instr::Alu {
                    width: Width::W64,
                    op: AluOp::Mov,
                    dst: Reg::R0,
                    src: Operand::Reg(Reg::R0),
                },
            );
            pc = pc + 2;
        } else {
            match lower_one(insn, pc, raw.len()) {
                Ok(i) => {
                    instrs.push(i);
                    pc = pc + 1;
                },
                Err(e) => {
                    return Err(e);
                },
            }
        }
        proof {
            let first = lowered_at(raw@, at)->Ok_0;
            assert(instrs@ =~= before + first);
            if let Ok(rest) = lowered(raw@, pc as int) {
                assert(before + (first + rest) =~= instrs@ + rest);
            }
        }
    }
    assert(instrs@ + Seq::<Instr>::empty() =~= instrs@);
    Ok(Program { instrs })
}

/// Whether every instruction that is looked at names registers that exist.
pub fn check_registers(raw: &[RawBpfInsn]) -> (r: bool)
    requires
        raw@.len() <= i64::MAX,
    ensures
        r == registers_exist(raw@, 0),
{
    let mut pc: usize = 0;
    while pc < raw.len()
        invariant
            pc <= raw@.len() <= i64::MAX,
            registers_exist(raw@, 0) == registers_exist(raw@, pc as int),
        decreases raw@.len() - pc,
    {
        let insn: RawBpfInsn = raw[pc];
        if insn.dst > 10 || insn.src > 10 {
            return false;
        }
        if insn.code == 0x18 {
            if pc + 1 >= raw.len() || raw[pc + 1].code != 0 {
                return true;
            }
            pc = pc + 2;
        } else {
            match lower_one(insn, pc, raw.len()) {
                Ok(_) => {
                    pc = pc + 1;
                },
                Err(_) => {
                    return true;
                },
            }
        }
    }
    true
}

/// An instruction stands at the place of its encoding: a program has as many
/// instructions as there are slots.
pub proof fn law_places_are_kept(raw: Seq<RawBpfInsn>, pc: int)
    requires
        0 <= pc <= raw.len(),
        lowered(raw, pc) is Ok,
    ensures
        lowered(raw, pc)->Ok_0.len() == raw.len() - pc,
    decreases raw.len() - pc,
{
    if pc < raw.len() {
        law_places_are_kept(raw, pc + slots(raw[pc]));
    }
}

/// The instruction in the second slot of a wide constant changes neither
/// values nor types.
pub proof fn law_padding_changes_nothing(ctx: &ExecContext, z: Zone, types: Seq<RegType>)
    requires
        ctx.r10 != Reg::R0,
        types.len() == NUM_REGS,
    ensures
        nop() matches Instr::Alu { width, op, dst, src } && computed(ctx, z, width, op, dst, src)
            == z && with_type(types, dst, result_type(types, width, op, dst, src)) == types,
{
    assert(with_type(types, Reg::R0, type_of(types, Reg::R0)) =~= types);
}

/// An instruction jumps to a place in a program of `n` instructions, if it
/// jumps.
pub open spec fn jumps_inside(i: Instr, n: nat) -> bool {
    match i {
        Instr::If { target, .. } => target < n,
        Instr::Jmp { target } => target < n,
        _ => true,
    }
}

/// Every jump of a program goes to a place in the program.
pub proof fn law_jumps_stay_inside(raw: Seq<RawBpfInsn>, pc: int)
    requires
        0 <= pc <= raw.len(),
        lowered(raw, pc) is Ok,
    ensures
        forall|k: int|
            0 <= k < lowered(raw, pc)->Ok_0.len() ==> jumps_inside(
                #[trigger] lowered(raw, pc)->Ok_0[k],
                raw.len(),
            ),
    decreases raw.len() - pc,
{
    if pc < raw.len() {
        law_jumps_stay_inside(raw, pc + slots(raw[pc]));
        let first = lowered_at(raw, pc)->Ok_0;
        let rest = lowered(raw, pc + slots(raw[pc]))->Ok_0;
        assert forall|k: int| 0 <= k < (first + rest).len() implies jumps_inside(
            #[trigger] (first + rest)[k],
            raw.len(),
        ) by {
            if k < first.len() {
                assert((first + rest)[k] == first[k]);
            } else {
                assert((first + rest)[k] == rest[k - first.len()]);
            }
        }
    }
}

} // verus!
