//! How registers, signs, instructions and results are shown.
use crate::ast::instr as wide;
use crate::ast::{AluOp, AtomicOp, CmpOp, EndianOp, MemSize, Operand, Width};
use crate::benchmark::report::{failures_text, json_run, json_runs, run_text, runs_text};
use crate::benchmark::{FileResult, SectionResult};
use crate::classic;
use crate::compact::ast as compact;
use crate::compact::domain::Reg as SmallReg;
use crate::machine::reg::Reg;
use crate::text::{dec, digits, hex, pad_zero};
use vstd::prelude::*;

verus! {

/// `a` is the end of `s`.
pub open spec fn ends_with(s: Seq<char>, a: Seq<char>) -> bool {
    s.len() >= a.len() && s.skip(s.len() - a.len()) == a
}

/// `a` is the beginning of `s`.
pub open spec fn starts_with(s: Seq<char>, a: Seq<char>) -> bool {
    s.len() >= a.len() && s.take(a.len() as int) == a
}

proof fn lemma_ends(a: Seq<char>, b: Seq<char>)
    ensures
        ends_with(a + b, b),
        starts_with(a + b, a),
{
    assert((a + b).skip((a + b).len() - b.len()) =~= b);
    assert((a + b).take(a.len() as int) =~= a);
}

proof fn lemma_small_numbers()
    ensures
        dec(0) == seq!['0'],
        dec(1) == seq!['1'],
        dec(2) == seq!['2'],
        dec(3) == seq!['3'],
        dec(4) == seq!['4'],
        dec(5) == seq!['5'],
        dec(6) == seq!['6'],
        dec(7) == seq!['7'],
        dec(8) == seq!['8'],
        dec(9) == seq!['9'],
        dec(10) == seq!['1', '0'],
        dec(16) == seq!['1', '6'],
        dec(32) == seq!['3', '2'],
        dec(64) == seq!['6', '4'],
{
    reveal_with_fuel(digits, 3);
    assert(dec(10) =~= seq!['1', '0']);
    assert(dec(16) =~= seq!['1', '6']);
    assert(dec(32) =~= seq!['3', '2']);
    assert(dec(64) =~= seq!['6', '4']);
}

/// The registers of a program are shown by their numbers, in both instruction
/// sets; their low halves with another letter.
pub proof fn law_registers_are_shown_by_number(r: Reg, s: SmallReg)
    ensures
        1 <= r.idx() <= 11 ==> r.name()@ == seq!['r'] + dec(r.idx() - 1),
        1 <= s.idx() <= 11 ==> s.name()@ == seq!['r'] + dec(s.idx() - 1),
        1 <= s.idx() <= 11 ==> compact::half_name(s)@ == seq!['w'] + dec(s.idx() - 1),
        1 <= s.idx() <= 11 ==> compact::whole_name(s)@ == seq!['r'] + dec(s.idx() - 1),
{
    lemma_small_numbers();
    reveal_strlit("r0");
    reveal_strlit("r1");
    reveal_strlit("r2");
    reveal_strlit("r3");
    reveal_strlit("r4");
    reveal_strlit("r5");
    reveal_strlit("r6");
    reveal_strlit("r7");
    reveal_strlit("r8");
    reveal_strlit("r9");
    reveal_strlit("r10");
    reveal_strlit("w0");
    reveal_strlit("w1");
    reveal_strlit("w2");
    reveal_strlit("w3");
    reveal_strlit("w4");
    reveal_strlit("w5");
    reveal_strlit("w6");
    reveal_strlit("w7");
    reveal_strlit("w8");
    reveal_strlit("w9");
    reveal_strlit("w10");
    if 1 <= r.idx() <= 11 {
        assert(r.name()@ =~= seq!['r'] + dec(r.idx() - 1));
    }
    if 1 <= s.idx() <= 11 {
        assert(s.name()@ =~= seq!['r'] + dec(s.idx() - 1));
        assert(compact::half_name(s)@ =~= seq!['w'] + dec(s.idx() - 1));
        assert(compact::whole_name(s)@ =~= seq!['r'] + dec(s.idx() - 1));
    }
}

/// The sign of a comparison has a greater-than, less-than, equals or exclamation
/// mark first; an equals sign follows if equal numbers satisfy it; unsigned ones
/// end with a letter.
pub proof fn law_conditions_are_shown(op: CmpOp, small: compact::CmpOp)
    ensures
        wide::condition_sign(op)@ == match op {
            CmpOp::Eq => seq!['=', '='],
            CmpOp::Ne => seq!['!', '='],
            CmpOp::UGt => seq!['>', 'u'],
            CmpOp::ULt => seq!['<', 'u'],
            CmpOp::UGe => seq!['>', '=', 'u'],
            CmpOp::ULe => seq!['<', '=', 'u'],
            CmpOp::SGt => seq!['>'],
            CmpOp::SLt => seq!['<'],
            CmpOp::SGe => seq!['>', '='],
            CmpOp::SLe => seq!['<', '='],
            CmpOp::Test => seq!['&'],
        },
        compact::condition_sign(small)@ == match small {
            compact::CmpOp::Eq => seq!['=', '='],
            compact::CmpOp::Ne => seq!['!', '='],
            compact::CmpOp::UGt => seq!['>', 'u'],
            compact::CmpOp::ULt => seq!['<', 'u'],
            compact::CmpOp::UGe => seq!['>', '=', 'u'],
            compact::CmpOp::ULe => seq!['<', '=', 'u'],
        },
{
    lemma_condition_letters();
}

proof fn lemma_condition_letters()
    ensures
        "=="@ == seq!['=', '='],
        "!="@ == seq!['!', '='],
        ">u"@ == seq!['>', 'u'],
        "<u"@ == seq!['<', 'u'],
        ">=u"@ == seq!['>', '=', 'u'],
        "<=u"@ == seq!['<', '=', 'u'],
        ">"@ == seq!['>'],
        "<"@ == seq!['<'],
        ">="@ == seq!['>', '='],
        "<="@ == seq!['<', '='],
        "&"@ == seq!['&'],
{
    reveal_strlit("==");
    reveal_strlit("!=");
    reveal_strlit(">u");
    reveal_strlit("<u");
    reveal_strlit(">=u");
    reveal_strlit("<=u");
    reveal_strlit(">");
    reveal_strlit("<");
    reveal_strlit(">=");
    reveal_strlit("<=");
    reveal_strlit("&");
    assert("=="@ =~= seq!['=', '=']);
    assert("!="@ =~= seq!['!', '=']);
    assert(">u"@ =~= seq!['>', 'u']);
    assert("<u"@ =~= seq!['<', 'u']);
    assert(">=u"@ =~= seq!['>', '=', 'u']);
    assert("<=u"@ =~= seq!['<', '=', 'u']);
    assert(">"@ =~= seq!['>']);
    assert("<"@ =~= seq!['<']);
    assert(">="@ =~= seq!['>', '=']);
    assert("<="@ =~= seq!['<', '=']);
    assert("&"@ =~= seq!['&']);
}

/// Arithmetic is shown by the usual signs, in all three instruction sets.
pub proof fn law_arithmetic_is_shown(
    op: AluOp,
    small: compact::AluOp,
    old_op: classic::AluOp,
    atomic: AtomicOp,
)
    ensures
        wide::alu_sign(op)@ == match op {
            AluOp::Add => seq!['+'],
            AluOp::Sub => seq!['-'],
            AluOp::And => seq!['&'],
            AluOp::Or => seq!['|'],
            AluOp::Xor => seq!['^'],
            AluOp::Mov => seq!['='],
            AluOp::Shl => seq!['<', '<'],
            AluOp::Lsh => seq!['<', '<'],
            AluOp::Shr => seq!['>', '>'],
            AluOp::Rsh => seq!['>', '>'],
            AluOp::Arsh => seq!['s', '>', '>'],
            AluOp::Mul => seq!['*'],
            AluOp::Mod => seq!['%'],
            AluOp::Div => seq!['/'],
            AluOp::Neg => seq!['-'],
        },
        compact::alu_sign(small)@ == match small {
            compact::AluOp::Add => seq!['+'],
            compact::AluOp::Sub => seq!['-'],
            compact::AluOp::And => seq!['&'],
            compact::AluOp::Or => seq!['|'],
            compact::AluOp::Xor => seq!['^'],
            compact::AluOp::Mov => seq!['='],
            compact::AluOp::Shl => seq!['<', '<'],
            compact::AluOp::Shr => seq!['>', '>'],
            compact::AluOp::Arsh => seq!['s', '>', '>'],
            compact::AluOp::Mul => seq!['*'],
            compact::AluOp::Mod => seq!['%'],
        },
        classic::alu_sign(old_op)@ == match old_op {
            classic::AluOp::Add => seq!['+'],
            classic::AluOp::Sub => seq!['-'],
            classic::AluOp::And => seq!['&'],
            classic::AluOp::Or => seq!['|'],
            classic::AluOp::Xor => seq!['^'],
            classic::AluOp::Mov => seq!['='],
            classic::AluOp::Shl => seq!['<', '<'],
            classic::AluOp::Shr => seq!['>', '>'],
            classic::AluOp::Arsh => seq!['s', '>', '>'],
            classic::AluOp::Mul => seq!['*'],
            classic::AluOp::Mod => seq!['%'],
            classic::AluOp::Div => seq!['/'],
            classic::AluOp::Neg => seq!['-'],
        },
        atomic is Add ==> wide::atomic_sign(atomic)@ == seq!['+'],
        atomic is Or ==> wide::atomic_sign(atomic)@ == seq!['|', '|'],
        atomic is And ==> wide::atomic_sign(atomic)@ == seq!['&', '&'],
        atomic is Xor ==> wide::atomic_sign(atomic)@ == seq!['^'],
{
    lemma_condition_letters();
    reveal_strlit("+");
    reveal_strlit("-");
    reveal_strlit("|");
    reveal_strlit("^");
    reveal_strlit("=");
    reveal_strlit("<<");
    reveal_strlit(">>");
    reveal_strlit("s>>");
    reveal_strlit("*");
    reveal_strlit("%");
    reveal_strlit("/");
    reveal_strlit("||");
    reveal_strlit("&&");
    assert("+"@ =~= seq!['+']);
    assert("-"@ =~= seq!['-']);
    assert("|"@ =~= seq!['|']);
    assert("^"@ =~= seq!['^']);
    assert("="@ =~= seq!['=']);
    assert("<<"@ =~= seq!['<', '<']);
    assert(">>"@ =~= seq!['>', '>']);
    assert("s>>"@ =~= seq!['s', '>', '>']);
    assert("*"@ =~= seq!['*']);
    assert("%"@ =~= seq!['%']);
    assert("/"@ =~= seq!['/']);
    assert("||"@ =~= seq!['|', '|']);
    assert("&&"@ =~= seq!['&', '&']);
}

/// The bits of a size.
pub open spec fn bits(size: MemSize) -> int {
    match size {
        MemSize::U8 => 8,
        MemSize::U16 => 16,
        MemSize::U32 => 32,
        MemSize::U64 => 64,
    }
}

/// Sizes are shown by their bits, and byte swaps by their direction and bits.
pub proof fn law_sizes_are_shown_by_bits(size: MemSize, op: EndianOp, n: u32, c: classic::EndianOp)
    ensures
        wide::unsigned_name(size)@ == seq!['u'] + dec(bits(size)),
        wide::signed_name(size)@ == seq!['s'] + dec(bits(size)),
        compact::size_name(size)@ == seq!['u'] + dec(bits(size)),
        op is ToBe && (n == 16 || n == 32 || n == 64) ==> wide::endian_name(op, n) == seq!['b', 'e']
            + dec(n as int),
        op is ToLe && (n == 16 || n == 32 || n == 64) ==> wide::endian_name(op, n) == seq!['l', 'e']
            + dec(n as int),
        c is ToBe && (n == 16 || n == 32 || n == 64) ==> classic::endian_name(c, n) == seq!['b', 'e']
            + dec(n as int),
        c is ToLe && (n == 16 || n == 32 || n == 64) ==> classic::endian_name(c, n) == seq!['l', 'e']
            + dec(n as int),
{
    lemma_small_numbers();
    reveal_strlit("u8");
    reveal_strlit("u16");
    reveal_strlit("u32");
    reveal_strlit("u64");
    reveal_strlit("s8");
    reveal_strlit("s16");
    reveal_strlit("s32");
    reveal_strlit("s64");
    reveal_strlit("be16");
    reveal_strlit("be32");
    reveal_strlit("be64");
    reveal_strlit("le16");
    reveal_strlit("le32");
    reveal_strlit("le64");
    assert(wide::unsigned_name(size)@ =~= seq!['u'] + dec(bits(size)));
    assert(wide::signed_name(size)@ =~= seq!['s'] + dec(bits(size)));
    assert("be16"@ =~= seq!['b', 'e'] + dec(16));
    assert("be32"@ =~= seq!['b', 'e'] + dec(32));
    assert("be64"@ =~= seq!['b', 'e'] + dec(64));
    assert("le16"@ =~= seq!['l', 'e'] + dec(16));
    assert("le32"@ =~= seq!['l', 'e'] + dec(32));
    assert("le64"@ =~= seq!['l', 'e'] + dec(64));
}

/// Jumps and calls are shown with where they lead at the end.
pub proof fn law_jumps_show_their_targets(
    i: wide::Instr,
    s: compact::Instr,
    c: classic::Instr,
    n: usize,
)
    ensures
        i == (wide::Instr::Jmp { target: n }) ==> ends_with(wide::instr_text(i), dec(n as int))
            && starts_with(wide::instr_text(i), "goto "@),
        i == (wide::Instr::MayGoto { target: n }) ==> ends_with(wide::instr_text(i), dec(n as int))
            && starts_with(wide::instr_text(i), "may_goto "@),
        i == (wide::Instr::CallRel { target: n }) ==> ends_with(wide::instr_text(i), dec(n as int))
            && starts_with(wide::instr_text(i), "call "@),
        (i matches wide::Instr::If { target, .. } && target == n) ==> ends_with(
            wide::instr_text(i),
            " goto "@ + dec(n as int),
        ),
        s == (compact::Instr::Jmp { target: n }) ==> ends_with(
            compact::instr_text(s),
            dec(n as int),
        ) && starts_with(compact::instr_text(s), "goto "@),
        (s matches compact::Instr::If { target, .. } && target == n) ==> ends_with(
            compact::instr_text(s),
            " goto "@ + dec(n as int),
        ),
        c == (classic::Instr::Jmp { target: n }) ==> ends_with(classic::instr_text(c), dec(n as int))
            && starts_with(classic::instr_text(c), "goto "@),
        (c matches classic::Instr::If { target, .. } && target == n) ==> ends_with(
            classic::instr_text(c),
            " goto "@ + dec(n as int),
        ),
        i is Exit ==> wide::instr_text(i) == "exit"@,
        s is Exit ==> compact::instr_text(s) == "exit"@,
        c is Exit ==> classic::instr_text(c) == "exit"@,
{
    let d = dec(n as int);
    lemma_ends("goto "@, d);
    lemma_ends("may_goto "@, d);
    lemma_ends("call "@, d);
    if let wide::Instr::If { width, left, op, right, target } = i {
        let a = "if "@ + left.name()@ + " "@ + wide::condition_sign(op)@ + (match width {
            Width::W32 => "32"@,
            Width::W64 => "64"@,
        }) + " "@ + wide::operand_text(right);
        lemma_ends(a, " goto "@ + dec(target as int));
        assert(wide::instr_text(i) =~= a + (" goto "@ + dec(target as int)));
    }
    if let compact::Instr::If { width, left, op, right, target } = s {
        let a = "if "@ + left.name()@ + " "@ + compact::condition_sign(op)@ + " "@
            + compact::operand_text(right) + (if width is W32 { " w"@ } else { " r"@ });
        lemma_ends(a, " goto "@ + dec(target as int));
        assert(compact::instr_text(s) =~= a + (" goto "@ + dec(target as int)));
    }
    if let classic::Instr::If { width, left, op, right, target } = c {
        let a = "if "@ + left.name()@ + " "@ + wide::condition_sign(op)@ + " "@
            + compact::operand_text(right) + (if width is W32 { " w"@ } else { " r"@ });
        lemma_ends(a, " goto "@ + dec(target as int));
        assert(classic::instr_text(c) =~= a + (" goto "@ + dec(target as int)));
    }
}

/// Moves, arithmetic, loads and stores show what is written first, then an
/// equals sign, then what it is written with.
pub proof fn law_writes_show_their_targets(i: wide::Instr, s: compact::Instr)
    ensures
        i matches wide::Instr::Alu { width, op, dst, src } ==> ends_with(
            wide::instr_text(i),
            wide::operand_text(src),
        ) && starts_with(
            wide::instr_text(i),
            (if width is W32 { "w"@ } else { "r"@ }) + dst.name()@.skip(1) + " = "@,
        ),
        i matches wide::Instr::Load { size, dst, base, off } ==> wide::instr_text(i) == dst.name()@
            + " = "@ + ("*("@ + wide::unsigned_name(size)@ + " *)("@ + base.name()@ + " + "@ + dec(
            off as int,
        ) + ")"@),
        i matches wide::Instr::Store { size, base, off, src } ==> wide::instr_text(i) == ("*("@
            + wide::unsigned_name(size)@ + " *)("@ + base.name()@ + " + "@ + dec(off as int)
            + ")"@) + " = "@ + wide::operand_text(src),
        s matches compact::Instr::Load { size, dst, base, off } ==> starts_with(
            compact::instr_text(s),
            dst.name()@ + " = "@,
        ),
        s matches compact::Instr::Store { size, base, off, src } ==> ends_with(
            compact::instr_text(s),
            " = "@ + src.name()@,
        ),
        s matches compact::Instr::Alu { width, op, dst, src } ==> ends_with(
            compact::instr_text(s),
            compact::operand_text(src),
        ),
{
    if let wide::Instr::Alu { width, op, dst, src } = i {
        let a = (if width is W32 { "w"@ } else { "r"@ }) + dst.name()@.skip(1) + " = "@;
        let m = if op is Mov {
            Seq::<char>::empty()
        } else {
            dst.name()@ + " "@ + wide::alu_sign(op)@ + " "@
        };
        lemma_ends(a + m, wide::operand_text(src));
        lemma_ends(a, m + wide::operand_text(src));
        assert(wide::instr_text(i) =~= a + m + wide::operand_text(src));
        assert(wide::instr_text(i) =~= a + (m + wide::operand_text(src)));
    }
    if let compact::Instr::Load { size, dst, base, off } = s {
        lemma_ends(dst.name()@ + " = "@, compact::place_text(size, base, off));
    }
    if let compact::Instr::Store { size, base, off, src } = s {
        let a = compact::place_text(size, base, off);
        lemma_ends(a, " = "@ + src.name()@);
        assert(compact::instr_text(s) =~= a + (" = "@ + src.name()@));
    }
    if let compact::Instr::Alu { width, op, dst, src } = s {
        let lhs = if width is W32 { compact::half_name(dst)@ } else { compact::whole_name(dst)@ };
        let m = if op is Mov {
            lhs + " = "@
        } else {
            lhs + " = "@ + dst.name()@ + " "@ + compact::alu_sign(op)@ + " "@
        };
        lemma_ends(m, compact::operand_text(src));
    }
}

/// Constants are shown in sixteen hexadecimal digits, or in decimal in the small
/// instruction set.
pub proof fn law_constants_are_shown(k: i64, r: Reg)
    ensures
        wide::operand_text(Operand::Imm(k)) == "0x"@ + pad_zero(hex(k as u64 as nat), 16),
        wide::operand_text(Operand::Reg(r)) == r.name()@,
        compact::operand_text(compact::Operand::Imm(k)) == dec(k as int),
{
}

/// The result of a file is shown as passed only if it did; what failed is listed
/// for files that did not pass, section by section.
pub proof fn law_results_are_shown(r: FileResult, v: Seq<SectionResult>, n: nat)
    requires
        n < v.len(),
    ensures
        r.passed ==> starts_with(run_text(r), "  [PASS] ["@) && starts_with(
            run_text(r),
            "  [PASS] ["@ + r.project@,
        ),
        !r.passed ==> starts_with(run_text(r), "  [FAIL] ["@) && ends_with(
            run_text(r),
            failures_text(r.details@, r.details@.len()),
        ),
        v[n as int].result is Pass ==> failures_text(v, n + 1) == failures_text(v, n),
        !(v[n as int].result is Pass) ==> failures_text(v, n + 1) == failures_text(v, n) + (
        "      - "@ + v[n as int].section@ + ": "@ + v[n as int].result.reason() + "\n"@),
        failures_text(v, 0).len() == 0,
{
    reveal_strlit("  [");
    reveal_strlit("PASS");
    reveal_strlit("FAIL");
    reveal_strlit("] [");
    reveal_strlit("  [PASS] [");
    reveal_strlit("  [FAIL] [");
    let rest = r.project@ + "] "@ + r.compiler@ + " "@ + r.opt@ + ": "@ + r.file_name@ + "\n"@;
    if r.passed {
        assert("  [PASS] ["@ =~= "  ["@ + "PASS"@ + "] ["@);
        lemma_ends("  [PASS] ["@, rest);
        assert(run_text(r) =~= "  [PASS] ["@ + rest);
        let more = "] "@ + r.compiler@ + " "@ + r.opt@ + ": "@ + r.file_name@ + "\n"@;
        lemma_ends("  [PASS] ["@ + r.project@, more);
        assert(run_text(r) =~= "  [PASS] ["@ + r.project@ + more);
    } else {
        let f = failures_text(r.details@, r.details@.len());
        assert("  [FAIL] ["@ =~= "  ["@ + "FAIL"@ + "] ["@);
        lemma_ends("  [FAIL] ["@, rest + f);
        assert(run_text(r) =~= "  [FAIL] ["@ + (rest + f));
        lemma_ends("  [FAIL] ["@ + rest, f);
        assert(run_text(r) =~= "  [FAIL] ["@ + rest + f);
    }
}

/// The results of a group are shown in the order they are given in; in JSON
/// with a comma after each but the last.
pub proof fn law_groups_are_shown_in_order(v: Seq<FileResult>, places: Seq<usize>, n: nat)
    requires
        n < places.len(),
    ensures
        runs_text(v, places, n + 1) == runs_text(v, places, n) + run_text(v[places[n as int] as int]),
        runs_text(v, places, 0).len() == 0,
        json_runs(v, places, n + 1) == json_runs(v, places, n) + json_run(
            v[places[n as int] as int],
        ) + (if n + 1 < places.len() { seq![',', '\n'] } else { seq!['\n'] }),
        json_runs(v, places, 0).len() == 0,
{
    reveal_strlit(",\n");
    reveal_strlit("\n");
    assert(",\n"@ =~= seq![',', '\n']);
    assert("\n"@ =~= seq!['\n']);
}

} // verus!
