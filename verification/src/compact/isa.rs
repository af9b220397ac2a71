//! What encoded instructions mean, by the bits of their opcodes, and that the
//! instructions they are decoded to mean the same.
//!
//! A register holds a 64-bit pattern, a number from 0 on. The low three bits of
//! an opcode are its class, the fourth says whether the second operand is a
//! register, and the high four are the operation of arithmetic and jumps; of a
//! load or store, bits four and five are the size.
use crate::ast::{MemSize, Width};
use crate::compact::ast::{AluOp, CmpOp, Instr, Operand};
use crate::compact::bpf_to_ast::{
    lowered, lowered_at, lowered_one, registers_exist, slots, wide,
};
use crate::compact::domain::Reg;
use crate::parsing::bpf_insn::{record, RawBpfInsn};
use vstd::prelude::*;

verus! {

/// The number of 64-bit patterns.
#[verifier::inline]
pub open spec fn full() -> int {
    0x1_0000_0000_0000_0000
}

/// The number of 32-bit patterns.
#[verifier::inline]
pub open spec fn half() -> int {
    0x1_0000_0000
}

/// The registers of a machine, by number.
pub open spec fn patterns(v: spec_fn(int) -> int) -> bool {
    forall|i: int| 0 <= #[trigger] v(i) < full()
}

/// What a register holds of a number: all of it or its low half.
pub open spec fn low_part(whole: bool, x: int) -> int {
    if whole { x % full() } else { x % half() }
}

pub open spec fn class(code: u8) -> int {
    code as int % 8
}

pub open spec fn by_register(code: u8) -> bool {
    code as int / 8 % 2 == 1
}

pub open spec fn operation(code: u8) -> int {
    code as int / 16
}

/// The bits that two patterns share.
pub open spec fn common_bits(a: int, b: int) -> int {
    ((a as u64) & (b as u64)) as int
}

/// The second operand of an encoded instruction; a constant is extended by its
/// sign.
pub open spec fn encoded_operand(insn: RawBpfInsn, v: spec_fn(int) -> int) -> int {
    if by_register(insn.code) {
        v(insn.src as int)
    } else {
        insn.imm as int % full()
    }
}

/// What encoded arithmetic leaves in its destination. Class 7 works on whole
/// registers, class 4 on low halves, which are extended by zeroes.
pub open spec fn encoded_result(insn: RawBpfInsn, v: spec_fn(int) -> int) -> int {
    let d = v(insn.dst as int);
    let s = encoded_operand(insn, v);
    let whole = class(insn.code) == 7;
    if operation(insn.code) == 0x0 {
        low_part(whole, d + s)
    } else if operation(insn.code) == 0x5 {
        low_part(whole, common_bits(d, s))
    } else {
        low_part(whole, s)
    }
}

/// Operations of arithmetic that are decoded: sum, shared bits, move.
pub open spec fn encoded_arithmetic(code: u8) -> bool {
    &&& class(code) == 7 || class(code) == 4
    &&& operation(code) == 0x0 || operation(code) == 0x5 || operation(code) == 0xb
}

/// Whether an encoded jump is taken. Class 5 compares whole registers, class 6
/// low halves, all as unsigned numbers.
pub open spec fn encoded_condition(insn: RawBpfInsn, v: spec_fn(int) -> int) -> bool {
    let whole = class(insn.code) == 5;
    let a = low_part(whole, v(insn.dst as int));
    let b = low_part(whole, encoded_operand(insn, v));
    if operation(insn.code) == 0x1 {
        a == b
    } else if operation(insn.code) == 0x2 {
        a > b
    } else if operation(insn.code) == 0x3 {
        a >= b
    } else if operation(insn.code) == 0x5 {
        a != b
    } else if operation(insn.code) == 0xa {
        a < b
    } else {
        a <= b
    }
}

/// The bytes that an encoded load or store moves.
pub open spec fn encoded_bytes(code: u8) -> int {
    let bits = code as int / 8 % 4;
    if bits == 0 {
        4
    } else if bits == 1 {
        2
    } else if bits == 2 {
        1
    } else {
        8
    }
}

/// The number of a register.
pub open spec fn number(r: Reg) -> int {
    match r {
        Reg::Zero => -1,
        Reg::R0 => 0,
        Reg::R1 => 1,
        Reg::R2 => 2,
        Reg::R3 => 3,
        Reg::R4 => 4,
        Reg::R5 => 5,
        Reg::R6 => 6,
        Reg::R7 => 7,
        Reg::R8 => 8,
        Reg::R9 => 9,
        Reg::R10 => 10,
    }
}

pub open spec fn bytes(size: MemSize) -> int {
    match size {
        MemSize::U8 => 1,
        MemSize::U16 => 2,
        MemSize::U32 => 4,
        MemSize::U64 => 8,
    }
}

/// The pattern of an operand.
pub open spec fn operand(o: Operand, v: spec_fn(int) -> int) -> int {
    match o {
        Operand::Reg(r) => v(number(r)),
        Operand::Imm(c) => c as int % full(),
    }
}

/// What arithmetic on patterns yields.
pub open spec fn result(width: Width, op: AluOp, d: int, s: int) -> Option<int> {
    match op {
        AluOp::Add => Some(low_part(width is W64, d + s)),
        AluOp::And => Some(low_part(width is W64, common_bits(d, s))),
        AluOp::Mov => Some(low_part(width is W64, s)),
        _ => None,
    }
}

/// Whether a condition holds of patterns.
pub open spec fn condition(width: Width, op: CmpOp, left: int, right: int) -> bool {
    let a = low_part(width is W64, left);
    let b = low_part(width is W64, right);
    match op {
        CmpOp::Eq => a == b,
        CmpOp::Ne => a != b,
        CmpOp::UGt => a > b,
        CmpOp::UGe => a >= b,
        CmpOp::ULt => a < b,
        CmpOp::ULe => a <= b,
    }
}

/// An instruction does what an encoded one at a place does, to any registers.
pub open spec fn faithful(insn: RawBpfInsn, pc: int, i: Instr) -> bool {
    match i {
        Instr::Alu { width, op, dst, src } => {
            &&& encoded_arithmetic(insn.code)
            &&& number(dst) == insn.dst
            &&& forall|v: spec_fn(int) -> int| #[trigger]
                patterns(v) ==> result(width, op, v(number(dst)), operand(src, v)) == Some(
                    encoded_result(insn, v),
                )
        },
        Instr::If { width, left, op, right, target } => {
            &&& class(insn.code) == 5 || class(insn.code) == 6
            &&& target == pc + 1 + insn.off
            &&& forall|v: spec_fn(int) -> int| #[trigger]
                patterns(v) ==> condition(width, op, v(number(left)), operand(right, v))
                    == encoded_condition(insn, v)
        },
        Instr::Jmp { target } => {
            &&& class(insn.code) == 5
            &&& operation(insn.code) == 0
            &&& target == pc + 1 + insn.off
        },
        Instr::Load { size, dst, base, off } => {
            &&& class(insn.code) == 1
            &&& insn.code as int / 32 == 3
            &&& number(dst) == insn.dst
            &&& number(base) == insn.src
            &&& bytes(size) == encoded_bytes(insn.code)
            &&& off == insn.off
        },
        Instr::Store { size, base, off, src } => {
            &&& class(insn.code) == 3
            &&& insn.code as int / 32 == 3
            &&& number(base) == insn.dst
            &&& number(src) == insn.src
            &&& bytes(size) == encoded_bytes(insn.code)
            &&& off == insn.off
        },
        Instr::Call { helper } => {
            &&& class(insn.code) == 5
            &&& operation(insn.code) == 8
            &&& helper == insn.imm as int % half()
        },
        Instr::Exit => class(insn.code) == 5 && operation(insn.code) == 9,
        Instr::MovArg0 { .. } => false,
        Instr::Endian { .. } => false,
    }
}

proof fn lemma_low_bits(d: u64, s: u64, t: u64)
    requires
        s % 0x1_0000_0000 == t % 0x1_0000_0000,
    ensures
        (d & s) % 0x1_0000_0000 == (d & t) % 0x1_0000_0000,
{
    assert(s % 0x1_0000_0000 == t % 0x1_0000_0000 ==> (d & s) % 0x1_0000_0000 == (d & t)
        % 0x1_0000_0000) by (bit_vector);
}

/// Decoding keeps the meaning: of each operation on registers, of the condition
/// and the target of each jump, and of the place, the size and the direction of
/// each load and store. (Opcode 0xb5 is not decoded by its operation bits; see
/// [`law_the_other_comparison_is_decoded`].)
pub proof fn law_decoding_keeps_the_meaning(insn: RawBpfInsn, pc: usize, len: nat)
    requires
        insn.dst <= 10,
        insn.src <= 10,
        insn.code != 0xb5,
        len <= usize::MAX,
        lowered_one(insn, pc, len) is Ok,
    ensures
        faithful(insn, pc as int, lowered_one(insn, pc, len)->Ok_0),
{
    let i = lowered_one(insn, pc, len)->Ok_0;
    match i {
        Instr::Alu { width, op, dst, src } => {
            assert forall|v: spec_fn(int) -> int| #[trigger] patterns(v) implies result(
                width,
                op,
                v(number(dst)),
                operand(src, v),
            ) == Some(encoded_result(insn, v)) by {
                let d = v(insn.dst as int);
                let e = encoded_operand(insn, v);
                assert(0 <= d < full());
                assert(0 <= v(insn.src as int) < full());
                if insn.code == 0x54 {
                    lemma_low_bits(d as u64, e as u64, (insn.imm as int % half()) as u64);
                }
            }
            assert(number(dst) == insn.dst);
            assert(encoded_arithmetic(insn.code));
        },
        Instr::If { width, left, op, right, .. } => {
            assert forall|v: spec_fn(int) -> int| #[trigger] patterns(v) implies condition(
                width,
                op,
                v(number(left)),
                operand(right, v),
            ) == encoded_condition(insn, v) by {
                assert(0 <= v(insn.dst as int) < full());
                assert(0 <= v(insn.src as int) < full());
            }
        },
        _ => {},
    }
}

/// Opcode 0xb5 jumps where the register is at least the constant.
pub proof fn law_the_other_comparison_is_decoded(
    insn: RawBpfInsn,
    pc: usize,
    len: nat,
    v: spec_fn(int) -> int,
)
    requires
        insn.dst <= 10,
        insn.code == 0xb5,
        patterns(v),
        len <= usize::MAX,
        lowered_one(insn, pc, len) is Ok,
    ensures
        lowered_one(insn, pc, len)->Ok_0 matches Instr::If { width, left, op, right, target }
            && target == pc + 1 + insn.off && (condition(
            width,
            op,
            v(number(left)),
            operand(right, v),
        ) <==> v(insn.dst as int) >= insn.imm as int % full()),
{
    assert(0 <= v(insn.dst as int) < full());
    let i = lowered_one(insn, pc, len)->Ok_0;
    assert(number(i->left) == insn.dst);
    assert(operand(i->right, v) == insn.imm as int % full());
}

/// Opcodes of arithmetic that are decoded.
pub open spec fn is_arithmetic(code: u8) -> bool {
    code == 0x07 || code == 0x0f || code == 0x54 || code == 0x57 || code == 0xb4 || code == 0xb7
        || code == 0xbf
}

/// Opcodes of jumps that are decoded.
pub open spec fn is_jump(code: u8) -> bool {
    code == 0x05 || code == 0x16 || code == 0x55 || code == 0xb5 || code == 0xbd
}

/// Opcodes of loads, stores, calls and returns that are decoded.
pub open spec fn is_other(code: u8) -> bool {
    code == 0x61 || code == 0x63 || code == 0x6b || code == 0x73 || code == 0x7b || code == 0x85
        || code == 0x95
}

/// Which instructions are decoded: those that are known, if they jump into the
/// program.
pub proof fn law_known_instructions_are_decoded(insn: RawBpfInsn, pc: usize, len: nat)
    ensures
        lowered_one(insn, pc, len) is Ok <==> is_arithmetic(insn.code) || is_other(insn.code)
            || is_jump(insn.code) && 0 <= pc + 1 + insn.off < len,
        lowered_one(insn, pc, len) matches Err(e) ==> e.pc == pc && e.code == insn.code,
{
}

/// A slot is the second one of a wide constant, counted from a slot that is
/// none.
pub open spec fn is_second(raw: Seq<RawBpfInsn>, from: int, k: int) -> bool
    decreases raw.len() - from,
{
    if from >= raw.len() || k <= from {
        false
    } else if raw[from].code == 0x18 {
        k == from + 1 || from + 2 <= raw.len() && is_second(raw, from + 2, k)
    } else {
        is_second(raw, from + 1, k)
    }
}

/// A program is decoded slot by slot: each instruction is the one of its slot;
/// a wide constant is a move of all its 64 bits to its register, and what
/// stands in its second slot moves a register to itself.
pub proof fn law_programs_are_decoded_by_slot(raw: Seq<RawBpfInsn>, from: int, k: int)
    requires
        0 <= from <= k < raw.len(),
        lowered(raw, from) is Ok,
        raw[k].dst <= 10,
    ensures
        k - from < lowered(raw, from)->Ok_0.len(),
        ({
            let i = lowered(raw, from)->Ok_0[k - from];
            if is_second(raw, from, k) {
                i matches Instr::Alu { width: Width::W64, op: AluOp::Mov, dst, src } && src
                    == Operand::Reg(dst)
            } else if raw[k].code == 0x18 {
                &&& k + 1 < raw.len()
                &&& raw[k + 1].code == 0
                &&& i matches Instr::Alu {
                    width: Width::W64,
                    op: AluOp::Mov,
                    dst,
                    src: Operand::Imm(c),
                } && number(dst) == raw[k].dst && c as int % full() == raw[k].imm as int % half()
                    + half() * (raw[k + 1].imm as int % half())
            } else {
                lowered_one(raw[k], k as usize, raw.len()) == Ok::<
                    Instr,
                    crate::compact::bpf_to_ast::Refusal,
                >(i)
            }
        }),
    decreases raw.len() - from,
{
    let first = lowered_at(raw, from)->Ok_0;
    let next = from + slots(raw[from]);
    let rest = lowered(raw, next)->Ok_0;
    assert(lowered(raw, from)->Ok_0 == first + rest);
    if k >= next {
        law_programs_are_decoded_by_slot(raw, next, k);
        assert((first + rest)[k - from] == rest[k - next]);
    } else {
        assert((first + rest)[k - from] == first[k - from]);
        if raw[from].code == 0x18 && k == from {
            let (lo, hi) = (raw[k].imm as int, raw[k + 1].imm as int);
            assert(wide(raw[k].imm, raw[k + 1].imm) as int == hi * half() + lo % half());
        }
    }
}

/// Where a program is not decoded, the error names the first slot that is to
/// blame, and its opcode.
pub proof fn law_errors_name_the_first_fault(raw: Seq<RawBpfInsn>, from: int)
    requires
        0 <= from <= raw.len() <= usize::MAX,
        lowered(raw, from) is Err,
    ensures
        ({
            let e = lowered(raw, from)->Err_0;
            &&& from <= e.pc < raw.len()
            &&& raw[e.pc as int].code == 0x18 ==> e.pc + 1 >= raw.len() || raw[e.pc + 1].code != 0
            &&& raw[e.pc as int].code != 0x18 ==> lowered_one(
                raw[e.pc as int],
                e.pc,
                raw.len(),
            ) is Err
            &&& !is_second(raw, from, e.pc as int)
            &&& forall|k: int|
                from <= k < e.pc && !is_second(raw, from, k) && raw[k].code != 0x18
                    ==> #[trigger] lowered_one(raw[k], k as usize, raw.len()) is Ok
        }),
    decreases raw.len() - from,
{
    if lowered_at(raw, from) is Ok {
        let next = from + slots(raw[from]);
        if next <= raw.len() {
            law_errors_name_the_first_fault(raw, next);
        }
    }
}

/// Decoding bytes undoes encoding: the opcode, the registers in the halves of a
/// byte, and offset and constant in two and four bytes, the low byte first.
pub proof fn law_bytes_read_back(b: Seq<u8>, i: int, insn: RawBpfInsn)
    requires
        0 <= i <= b.len() - 8,
        insn.dst < 16,
        insn.src < 16,
        b[i] == insn.code,
        b[i + 1] == insn.dst + 16 * insn.src,
        b[i + 2] + 256 * b[i + 3] == insn.off as int % 0x1_0000,
        b[i + 4] + 256 * (b[i + 5] + 256 * (b[i + 6] + 256 * b[i + 7])) == insn.imm as int
            % 0x1_0000_0000,
    ensures
        record(b, i) == insn,
{
}

/// Programs all of whose registers are R0 to R10 are looked at; one that starts
/// with another register is not.
pub proof fn law_registers_go_up_to_ten(raw: Seq<RawBpfInsn>, pc: int)
    requires
        0 <= pc,
    ensures
        (forall|i: int|
            0 <= i < raw.len() ==> (#[trigger] raw[i]).dst < 11 && raw[i].src < 11)
            ==> registers_exist(raw, pc),
        pc < raw.len() && (raw[pc].dst >= 11 || raw[pc].src >= 11) ==> !registers_exist(raw, pc),
    decreases raw.len() - pc,
{
    if pc < raw.len() && pc + slots(raw[pc]) <= raw.len() {
        law_registers_go_up_to_ten(raw, pc + slots(raw[pc]));
    }
}

} // verus!
