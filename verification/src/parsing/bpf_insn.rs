//! Instructions as they are encoded: eight bytes each.
use vstd::prelude::*;

verus! {

/// An encoded instruction taken apart.
#[derive(Debug, Clone, Copy, PartialEq, Eq, Structural)]
pub struct RawBpfInsn {
    pub code: u8,
    pub dst: u8,
    pub src: u8,
    pub off: i16,
    pub imm: i32,
}

/// Two bytes as a signed number, the low byte first.
pub open spec fn le16(a: u8, b: u8) -> int {
    let v = a + 0x100 * b;
    if v >= 0x8000 { v - 0x1_0000 } else { v }
}

/// Four bytes as a signed number, the low byte first.
pub open spec fn le32(a: u8, b: u8, c: u8, d: u8) -> int {
    let v = a + 0x100 * b + 0x1_0000 * c + 0x100_0000 * d;
    if v >= 0x8000_0000 { v - 0x1_0000_0000 } else { v }
}

/// The instruction in the eight bytes from `i` on: the opcode, the registers
/// in the two halves of a byte, the offset, and the constant.
pub open spec fn record(b: Seq<u8>, i: int) -> RawBpfInsn {
    RawBpfInsn {
        code: b[i],
        dst: (b[i + 1] % 16) as u8,
        src: (b[i + 1] / 16) as u8,
        off: le16(b[i + 2], b[i + 3]) as i16,
        imm: le32(b[i + 4], b[i + 5], b[i + 6], b[i + 7]) as i32,
    }
}

/// The instructions in some bytes; bytes that make no whole instruction are
/// left out.
pub open spec fn records(b: Seq<u8>) -> Seq<RawBpfInsn> {
    Seq::new((b.len() / 8) as nat, |k: int| record(b, 8 * k))
}

/// The instructions in some bytes.
pub fn decode_insns(bytes: &[u8]) -> (r: Vec<RawBpfInsn>)
    ensures
        r@ == records(bytes@),
{
    let mut insns: Vec<RawBpfInsn> = Vec::new();
    let total: usize = bytes.len();
    let n: usize = total / 8;
    let mut k: usize = 0;
    while k < n
        invariant
            k <= n,
            total == bytes@.len(),
            n == total / 8,
            insns@ == Seq::new(k as nat, |i: int| record(bytes@, 8 * i)),
        decreases n - k,
    {
        let i: usize = 8 * k;
        let low: i32 = bytes[i + 2] as i32 + 0x100 * (bytes[i + 3] as i32);
        let off: i16 = if low >= 0x8000 {
            (low - 0x1_0000) as i16
        } else {
            low as i16
        };
        let wide: i64 = bytes[i + 4] as i64 + 0x100 * (bytes[i + 5] as i64) + 0x1_0000 * (bytes[i + 6]
            as i64) + 0x100_0000 * (bytes[i + 7] as i64);
        let imm: i32 = if wide >= 0x8000_0000 {
            (wide - 0x1_0000_0000) as i32
        } else {
            wide as i32
        };
        insns.push(
            RawBpfInsn {
                code: bytes[i],
                dst: bytes[i + 1] % 16,
                src: bytes[i + 1] / 16,
                off,
                imm,
            },
        );
        assert(insns@ =~= Seq::new((k + 1) as nat, |i: int| record(bytes@, 8 * i)));
        k = k + 1;
    }
    insns
}

/// Whole instructions one after another are decoded one after another.
pub proof fn law_decoding_is_by_record(a: Seq<u8>, b: Seq<u8>)
    requires
        a.len() % 8 == 0,
    ensures
        records(a + b) == records(a) + records(b),
{
    let n = a.len() as int / 8;
    assert(a.len() == 8 * n);
    assert((a + b).len() as int / 8 == n + b.len() as int / 8);
    assert forall|k: int| 0 <= k < n + b.len() as int / 8 implies record(a + b, 8 * k) == (records(a)
        + records(b))[k] by {
        if k < n {
            assert(records(a)[k] == record(a, 8 * k));
        } else {
            assert(records(b)[k - n] == record(b, 8 * (k - n)));
            assert(8 * k - a.len() == 8 * (k - n));
        }
    }
    assert(records(a + b) =~= records(a) + records(b));
}

/// Registers are four-bit numbers.
pub proof fn law_registers_are_nibbles(b: Seq<u8>, k: int)
    requires
        0 <= k < records(b).len(),
    ensures
        records(b)[k].dst < 16,
        records(b)[k].src < 16,
{
}

} // verus!
