//! Integer arithmetic that clips instead of overflowing, and typed minima and
//! maxima.
use vstd::prelude::*;

verus! {

/// The `i64` nearest to the mathematical integer `x`.
pub open spec fn clip64(x: int) -> i64 {
    if x > i64::MAX {
        i64::MAX
    } else if x < i64::MIN {
        i64::MIN
    } else {
        x as i64
    }
}

pub open spec fn spec_sat_add(a: i64, b: i64) -> i64 {
    clip64(a + b)
}

/// `a + b`, clipped to the range of `i64`.
#[verifier::when_used_as_spec(spec_sat_add)]
pub fn sat_add(a: i64, b: i64) -> (r: i64)
    ensures
        r == spec_sat_add(a, b),
{
    match a.checked_add(b) {
        Some(s) => s,
        None => if a < 0 { i64::MIN } else { i64::MAX },
    }
}

/// `a + b`, clipped to the range of `i64`.
pub fn sat_add_unsigned(a: i64, b: u64) -> (r: i64)
    ensures
        r == clip64(a + b),
{
    let s: i128 = a as i128 + b as i128;
    if s > i64::MAX as i128 { i64::MAX } else { s as i64 }
}

/// `a - b`, clipped to the range of `i64`.
pub fn sat_sub(a: i64, b: i64) -> (r: i64)
    ensures
        r == clip64(a - b),
{
    match a.checked_sub(b) {
        Some(s) => s,
        None => if a < 0 { i64::MIN } else { i64::MAX },
    }
}

/// `a * b`, clipped to the range of `i64`.
pub fn sat_mul(a: i64, b: i64) -> (r: i64)
    ensures
        r == clip64(a * b),
{
    assert(i128::MIN <= a * b <= i128::MAX) by (nonlinear_arith)
        requires
            i64::MIN <= a <= i64::MAX,
            i64::MIN <= b <= i64::MAX,
    ;
    let p: i128 = a as i128 * b as i128;
    if p > i64::MAX as i128 {
        i64::MAX
    } else if p < i64::MIN as i128 {
        i64::MIN
    } else {
        p as i64
    }
}

/// The `u64` nearest to the mathematical integer `x`.
pub open spec fn clip_u64(x: int) -> u64 {
    if x > u64::MAX {
        u64::MAX
    } else if x < 0 {
        0
    } else {
        x as u64
    }
}

/// `a + b`, clipped to the range of `u64`.
pub fn sat_add_u64(a: u64, b: u64) -> (r: u64)
    ensures
        r == clip_u64(a + b),
{
    match a.checked_add(b) {
        Some(s) => s,
        None => u64::MAX,
    }
}

/// `a - b`, clipped to the range of `u64`.
pub fn sat_sub_u64(a: u64, b: u64) -> (r: u64)
    ensures
        r == clip_u64(a - b),
{
    if a < b { 0 } else { a - b }
}

/// `a * b`, clipped to the range of `u64`.
pub fn sat_mul_u64(a: u64, b: u64) -> (r: u64)
    ensures
        r == clip_u64(a * b),
{
    assert(0 <= a * b <= u128::MAX) by (nonlinear_arith)
        requires
            0 <= a <= u64::MAX,
            0 <= b <= u64::MAX,
    ;
    let p: u128 = a as u128 * b as u128;
    if p > u64::MAX as u128 { u64::MAX } else { p as u64 }
}

/// `a * b`.
pub fn wide_mul(a: u64, b: u64) -> (r: u128)
    ensures
        r == a * b,
{
    assert(0 <= a * b <= u128::MAX) by (nonlinear_arith)
        requires
            0 <= a <= u64::MAX,
            0 <= b <= u64::MAX,
    ;
    a as u128 * b as u128
}

pub open spec fn spec_min_i64(a: i64, b: i64) -> i64 {
    if a <= b { a } else { b }
}

/// The smaller of two values.
#[verifier::when_used_as_spec(spec_min_i64)]
pub fn min_i64(a: i64, b: i64) -> (r: i64)
    ensures
        r == spec_min_i64(a, b),
{
    if a <= b { a } else { b }
}

pub open spec fn spec_max_i64(a: i64, b: i64) -> i64 {
    if a >= b { a } else { b }
}

/// The larger of two values.
#[verifier::when_used_as_spec(spec_max_i64)]
pub fn max_i64(a: i64, b: i64) -> (r: i64)
    ensures
        r == spec_max_i64(a, b),
{
    if a >= b { a } else { b }
}

pub open spec fn spec_min_u64(a: u64, b: u64) -> u64 {
    if a <= b { a } else { b }
}

/// The smaller of two values.
#[verifier::when_used_as_spec(spec_min_u64)]
pub fn min_u64(a: u64, b: u64) -> (r: u64)
    ensures
        r == spec_min_u64(a, b),
{
    if a <= b { a } else { b }
}

pub open spec fn spec_max_u64(a: u64, b: u64) -> u64 {
    if a >= b { a } else { b }
}

/// The larger of two values.
#[verifier::when_used_as_spec(spec_max_u64)]
pub fn max_u64(a: u64, b: u64) -> (r: u64)
    ensures
        r == spec_max_u64(a, b),
{
    if a >= b { a } else { b }
}

pub open spec fn spec_min_i32(a: i32, b: i32) -> i32 {
    if a <= b { a } else { b }
}

/// The smaller of two values.
#[verifier::when_used_as_spec(spec_min_i32)]
pub fn min_i32(a: i32, b: i32) -> (r: i32)
    ensures
        r == spec_min_i32(a, b),
{
    if a <= b { a } else { b }
}

pub open spec fn spec_max_i32(a: i32, b: i32) -> i32 {
    if a >= b { a } else { b }
}

/// The larger of two values.
#[verifier::when_used_as_spec(spec_max_i32)]
pub fn max_i32(a: i32, b: i32) -> (r: i32)
    ensures
        r == spec_max_i32(a, b),
{
    if a >= b { a } else { b }
}

pub open spec fn spec_min_u32(a: u32, b: u32) -> u32 {
    if a <= b { a } else { b }
}

/// The smaller of two values.
#[verifier::when_used_as_spec(spec_min_u32)]
pub fn min_u32(a: u32, b: u32) -> (r: u32)
    ensures
        r == spec_min_u32(a, b),
{
    if a <= b { a } else { b }
}

pub open spec fn spec_max_u32(a: u32, b: u32) -> u32 {
    if a >= b { a } else { b }
}

/// The larger of two values.
#[verifier::when_used_as_spec(spec_max_u32)]
pub fn max_u32(a: u32, b: u32) -> (r: u32)
    ensures
        r == spec_max_u32(a, b),
{
    if a >= b { a } else { b }
}

pub open spec fn spec_wadd(a: i64, b: i64) -> i64 {
    if a + b > i64::MAX {
        (a + b - 0x1_0000_0000_0000_0000) as i64
    } else if a + b < i64::MIN {
        (a + b + 0x1_0000_0000_0000_0000) as i64
    } else {
        (a + b) as i64
    }
}

/// The sum, wrapped around at the ends of the range.
#[verifier::when_used_as_spec(spec_wadd)]
pub fn wadd(a: i64, b: i64) -> (r: i64)
    ensures
        r == spec_wadd(a, b),
{
    a.wrapping_add(b)
}

/// A number and its negation have the same divisors.
pub proof fn lemma_negation_divides(x: int, n: int)
    requires
        n > 0,
    ensures
        x % n == 0 <==> (-x) % n == 0,
{
    if x % n == 0 {
        let q = x / n;
        assert(x == n * q) by (nonlinear_arith)
            requires
                n > 0,
                q == x / n,
                x % n == 0,
        ;
        assert(-x == (-q) * n) by (nonlinear_arith)
            requires
                x == n * q,
        ;
        vstd::arithmetic::div_mod::lemma_mod_multiples_basic(-q, n);
    }
    if (-x) % n == 0 {
        let q = (-x) / n;
        assert(-x == n * q) by (nonlinear_arith)
            requires
                n > 0,
                q == (-x) / n,
                (-x) % n == 0,
        ;
        assert(x == (-q) * n) by (nonlinear_arith)
            requires
                -x == n * q,
        ;
        vstd::arithmetic::div_mod::lemma_mod_multiples_basic(-q, n);
    }
}

/// Whether `n` divides `x`.
pub fn divides(n: i64, x: i64) -> (r: bool)
    requires
        n > 0,
    ensures
        r == (x as int % n as int == 0),
{
    let m: u64 = n as u64;
    if x >= 0 {
        x as u64 % m == 0
    } else {
        proof {
            lemma_negation_divides(x as int, n as int);
        }
        let a: u64 = (-(x as i128)) as u64;
        a % m == 0
    }
}

/// The nearest 32-bit number.
pub open spec fn clip32(x: int) -> i32 {
    if x > i32::MAX {
        i32::MAX
    } else if x < i32::MIN {
        i32::MIN
    } else {
        x as i32
    }
}

/// The sum of `a` and the nearest 32-bit number to `d`, clipped to 32 bits.
pub fn sat_add_i32(a: i32, d: i64) -> (r: i32)
    ensures
        r == clip32(a + clip32(d as int)),
{
    let d: i64 = if d > i32::MAX as i64 {
        i32::MAX as i64
    } else if d < i32::MIN as i64 {
        i32::MIN as i64
    } else {
        d
    };
    let x: i64 = a as i64 + d;
    if x > i32::MAX as i64 {
        i32::MAX
    } else if x < i32::MIN as i64 {
        i32::MIN
    } else {
        x as i32
    }
}

/// The remainder whose sign is that of the dividend.
pub open spec fn trunc_rem(a: i64, n: i64) -> int {
    if a >= 0 { a as int % n as int } else { -((-a) % (n as int)) }
}

/// Whether two numbers leave the same remainder, signs included.
pub fn same_remainder(a: i64, b: i64, n: i64) -> (r: bool)
    requires
        n > 0,
    ensures
        r == (trunc_rem(a, n) == trunc_rem(b, n)),
{
    let m: i128 = n as i128;
    let x: i128 = if a >= 0 { a as i128 % m } else { -((-(a as i128)) % m) };
    let y: i128 = if b >= 0 { b as i128 % m } else { -((-(b as i128)) % m) };
    x == y
}

} // verus!
