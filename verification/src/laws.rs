//! What arithmetic and texts are built on.
use crate::num::{clip32, clip64, clip_u64, sat_add, trunc_rem, wadd};
use crate::text::{ascii_lower, is_white, pad_left, pad_zero, trim_end, trim_start, trimmed};
use vstd::prelude::*;

verus! {

/// A number that fits is kept, and one that does not becomes the nearest that
/// does.
pub proof fn law_numbers_are_clipped_to_the_nearest(x: int, a: i64, b: i64)
    ensures
        i64::MIN <= x <= i64::MAX ==> clip64(x) == x,
        x > i64::MAX ==> clip64(x) == i64::MAX,
        x < i64::MIN ==> clip64(x) == i64::MIN,
        i32::MIN <= x <= i32::MAX ==> clip32(x) == x,
        x > i32::MAX ==> clip32(x) == i32::MAX,
        x < i32::MIN ==> clip32(x) == i32::MIN,
        0 <= x <= u64::MAX ==> clip_u64(x) == x,
        x > u64::MAX ==> clip_u64(x) == u64::MAX,
        x < 0 ==> clip_u64(x) == 0,
        i64::MIN <= a + b <= i64::MAX ==> sat_add(a, b) == a + b,
        a + b > i64::MAX ==> sat_add(a, b) == i64::MAX,
        a + b < i64::MIN ==> sat_add(a, b) == i64::MIN,
{
}

/// A sum that wraps around differs from the sum by whole turns of 2 to the
/// 64th, and equals it if it fits.
pub proof fn law_sums_wrap_around(a: i64, b: i64)
    ensures
        i64::MIN <= a + b <= i64::MAX ==> wadd(a, b) == a + b,
        (a + b - wadd(a, b)) % 0x1_0000_0000_0000_0000 == 0,
        wadd(a, b) == wadd(b, a),
{
}

/// A remainder has the sign of what was divided and is less than the divisor.
pub proof fn law_remainders_are_small(a: i64, n: i64)
    requires
        n > 0,
    ensures
        -n < trunc_rem(a, n) < n,
        a >= 0 ==> trunc_rem(a, n) >= 0,
        a <= 0 ==> trunc_rem(a, n) <= 0,
        (a - trunc_rem(a, n)) % (n as int) == 0,
{
    if a < 0 {
        let r = (-a) % (n as int);
        let q = (-a) / (n as int);
        vstd::arithmetic::div_mod::lemma_fundamental_div_mod(-a, n as int);
        assert(a + r == -(n * q)) by (nonlinear_arith)
            requires
                -a == n * q + r,
        ;
        vstd::arithmetic::div_mod::lemma_mod_multiples_basic(-q, n as int);
        assert(-(n * q) == (-q) * n) by (nonlinear_arith);
    } else {
        let r = a as int % n as int;
        let q = a as int / n as int;
        vstd::arithmetic::div_mod::lemma_fundamental_div_mod(a as int, n as int);
        vstd::arithmetic::div_mod::lemma_mod_multiples_basic(q, n as int);
        assert(n * q == q * n) by (nonlinear_arith);
    }
}

/// All characters are whitespace.
pub open spec fn all_white(s: Seq<char>) -> bool {
    forall|i: int| 0 <= i < s.len() ==> is_white(#[trigger] s[i])
}

/// What is cut off at the start of a text is whitespace, and what is left does
/// not start with any.
pub proof fn law_trimmed_starts(s: Seq<char>) -> (k: int)
    ensures
        0 <= k <= s.len(),
        all_white(s.take(k)),
        trim_start(s) == s.skip(k),
        trim_start(s).len() > 0 ==> !is_white(trim_start(s)[0]),
    decreases s.len(),
{
    if s.len() > 0 && is_white(s[0]) {
        let k = law_trimmed_starts(s.skip(1));
        assert(s.skip(1).skip(k) =~= s.skip(k + 1));
        assert forall|i: int| 0 <= i < k + 1 implies is_white(#[trigger] s.take(k + 1)[i]) by {
            if i > 0 {
                assert(s.skip(1).take(k)[i - 1] == s[i]);
            }
        }
        k + 1
    } else {
        assert(s.skip(0) =~= s);
        0
    }
}

/// The same at its end.
pub proof fn law_trimmed_ends(s: Seq<char>) -> (k: int)
    ensures
        0 <= k <= s.len(),
        all_white(s.skip(k)),
        trim_end(s) == s.take(k),
        trim_end(s).len() > 0 ==> !is_white(trim_end(s).last()),
    decreases s.len(),
{
    if s.len() > 0 && is_white(s.last()) {
        let k = law_trimmed_ends(s.drop_last());
        assert(s.drop_last().take(k) =~= s.take(k));
        assert forall|i: int| 0 <= i < s.len() - k implies is_white(#[trigger] s.skip(k)[i]) by {
            if k + i < s.len() - 1 {
                assert(s.drop_last().skip(k)[i] == s[k + i]);
            }
        }
        k
    } else {
        assert(s.take(s.len() as int) =~= s);
        s.len() as int
    }
}

/// A trimmed text neither starts nor ends with whitespace, and a text without
/// whitespace at its ends is kept.
pub proof fn law_trimmed_texts(s: Seq<char>)
    ensures
        trimmed(s).len() > 0 ==> !is_white(trimmed(s)[0]) && !is_white(trimmed(s).last()),
        s.len() > 0 && !is_white(s[0]) && !is_white(s.last()) ==> trimmed(s) == s,
        is_white(' ') && is_white('\n') && is_white('\t') && !is_white('a') && !is_white('0'),
{
    let k = law_trimmed_starts(s);
    let j = law_trimmed_ends(trim_start(s));
}

/// A padded text is at least as wide as asked for, ends with the text, and is
/// kept if it is wide enough.
pub proof fn law_padded_texts(s: Seq<char>, w: nat)
    ensures
        pad_left(s, w).len() == if s.len() >= w { s.len() } else { w },
        pad_zero(s, w).len() == if s.len() >= w { s.len() } else { w },
        pad_left(s, w).skip(pad_left(s, w).len() - s.len()) == s,
        pad_zero(s, w).skip(pad_zero(s, w).len() - s.len()) == s,
        forall|i: int| 0 <= i < pad_left(s, w).len() - s.len() ==> #[trigger] pad_left(s, w)[i] == ' ',
        forall|i: int| 0 <= i < pad_zero(s, w).len() - s.len() ==> #[trigger] pad_zero(s, w)[i] == '0',
{
    assert(pad_left(s, w).skip(pad_left(s, w).len() - s.len()) =~= s);
    assert(pad_zero(s, w).skip(pad_zero(s, w).len() - s.len()) =~= s);
}

/// Only the 26 capital letters are lowered, each by 32.
pub proof fn law_letters_are_lowered(c: char)
    ensures
        65 <= c as int <= 90 ==> ascii_lower(c) as int == c as int + 32,
        !(65 <= c as int <= 90) ==> ascii_lower(c) == c,
{
    assert('A' as int == 65 && 'Z' as int == 90);
}

} // verus!
