//! Text as the library writes and reads it: numbers in decimal and
//! hexadecimal, padding, joining, and comparison of strings.
use vstd::prelude::*;

verus! {

/// The character of a digit below sixteen.
pub open spec fn digit(d: int) -> char {
    if d == 0 { '0' }
    else if d == 1 { '1' }
    else if d == 2 { '2' }
    else if d == 3 { '3' }
    else if d == 4 { '4' }
    else if d == 5 { '5' }
    else if d == 6 { '6' }
    else if d == 7 { '7' }
    else if d == 8 { '8' }
    else if d == 9 { '9' }
    else if d == 10 { 'a' }
    else if d == 11 { 'b' }
    else if d == 12 { 'c' }
    else if d == 13 { 'd' }
    else if d == 14 { 'e' }
    else { 'f' }
}

/// The digits of `n` in the given base, most significant first.
pub open spec fn digits(n: nat, base: nat) -> Seq<char>
    decreases n,
{
    if n < base || base < 2 {
        seq![digit(n as int)]
    } else {
        proof {
            assert(n / base < n) by (nonlinear_arith)
                requires
                    n >= base,
                    base >= 2,
            ;
        }
        digits(n / base, base).push(digit((n % base) as int))
    }
}

/// `x` in decimal.
pub open spec fn dec(x: int) -> Seq<char> {
    if x < 0 { seq!['-'] + digits((-x) as nat, 10) } else { digits(x as nat, 10) }
}

/// `n` in hexadecimal.
pub open spec fn hex(n: nat) -> Seq<char> {
    digits(n, 16)
}

/// `n` copies of `c`.
pub open spec fn repeated(c: char, n: nat) -> Seq<char> {
    Seq::new(n, |i: int| c)
}

/// `s` with as many spaces before it as it takes to be `w` characters wide.
pub open spec fn pad_left(s: Seq<char>, w: nat) -> Seq<char> {
    if s.len() >= w { s } else { repeated(' ', (w - s.len()) as nat) + s }
}

/// `s` with as many zeros before it as it takes to be `w` characters wide.
pub open spec fn pad_zero(s: Seq<char>, w: nat) -> Seq<char> {
    if s.len() >= w { s } else { repeated('0', (w - s.len()) as nat) + s }
}

/// The parts one after another with `sep` between them.
pub open spec fn joined(parts: Seq<Seq<char>>, sep: Seq<char>) -> Seq<char>
    decreases parts.len(),
{
    if parts.len() == 0 {
        seq![]
    } else if parts.len() == 1 {
        parts[0]
    } else {
        joined(parts.drop_last(), sep) + sep + parts.last()
    }
}

/// The contents of the strings.
pub open spec fn contents(v: Seq<String>) -> Seq<Seq<char>> {
    Seq::new(v.len(), |i: int| v[i]@)
}

fn digit_text(d: u64) -> (r: &'static str)
    requires
        d < 16,
    ensures
        r@ == seq![digit(d as int)],
{
    proof {
        reveal_strlit("0");
        reveal_strlit("1");
        reveal_strlit("2");
        reveal_strlit("3");
        reveal_strlit("4");
        reveal_strlit("5");
        reveal_strlit("6");
        reveal_strlit("7");
        reveal_strlit("8");
        reveal_strlit("9");
        reveal_strlit("a");
        reveal_strlit("b");
        reveal_strlit("c");
        reveal_strlit("d");
        reveal_strlit("e");
        reveal_strlit("f");
    }
    match d {
        0 => "0",
        1 => "1",
        2 => "2",
        3 => "3",
        4 => "4",
        5 => "5",
        6 => "6",
        7 => "7",
        8 => "8",
        9 => "9",
        10 => "a",
        11 => "b",
        12 => "c",
        13 => "d",
        14 => "e",
        _ => "f",
    }
}

/// Appends the digits of `n` in the given base.
pub fn push_digits(out: &mut String, n: u64, base: u64)
    requires
        2 <= base <= 16,
    ensures
        final(out)@ == old(out)@ + digits(n as nat, base as nat),
    decreases n,
{
    if n >= base {
        assert((n as int) / (base as int) < n) by (nonlinear_arith)
            requires
                n >= base,
                base >= 2,
        ;
        push_digits(out, n / base, base);
        out.append(digit_text(n % base));
        assert(out@ =~= old(out)@ + digits(n as nat, base as nat));
    } else {
        out.append(digit_text(n));
    }
}

/// Appends `x` in decimal.
pub fn push_dec(out: &mut String, x: i64)
    ensures
        final(out)@ == old(out)@ + dec(x as int),
{
    if x < 0 {
        proof {
            reveal_strlit("-");
        }
        out.append("-");
        let magnitude: u64 = if x == i64::MIN { 9223372036854775808 } else { (-x) as u64 };
        push_digits(out, magnitude, 10);
        assert(out@ =~= old(out)@ + dec(x as int));
    } else {
        push_digits(out, x as u64, 10);
    }
}

/// Appends `n` in decimal.
pub fn push_nat(out: &mut String, n: u64)
    ensures
        final(out)@ == old(out)@ + dec(n as int),
{
    push_digits(out, n, 10);
}

/// `x` in decimal.
pub fn dec_text(x: i64) -> (r: String)
    ensures
        r@ == dec(x as int),
{
    let mut out = String::new();
    push_dec(&mut out, x);
    assert(out@ =~= dec(x as int));
    out
}

/// `n` in decimal.
pub fn nat_text(n: u64) -> (r: String)
    ensures
        r@ == dec(n as int),
{
    let mut out = String::new();
    push_nat(&mut out, n);
    assert(out@ =~= dec(n as int));
    out
}

/// `n` in hexadecimal.
pub fn hex_text(n: u64) -> (r: String)
    ensures
        r@ == hex(n as nat),
{
    let mut out = String::new();
    push_digits(&mut out, n, 16);
    assert(out@ =~= hex(n as nat));
    out
}

/// Appends `s`, with spaces before it up to a width of `w`.
pub fn push_padded(out: &mut String, s: &str, w: usize)
    ensures
        final(out)@ == old(out)@ + pad_left(s@, w as nat),
{
    let n: usize = s.unicode_len();
    let mut k: usize = n;
    proof {
        reveal_strlit(" ");
    }
    while k < w
        invariant
            n == s@.len(),
            n <= k,
            n <= w ==> k <= w,
            n > w ==> k == n,
            " "@ == seq![' '],
            out@ == old(out)@ + repeated(' ', (k - n) as nat),
        decreases w - k,
    {
        out.append(" ");
        assert(repeated(' ', (k + 1 - n) as nat) =~= repeated(' ', (k - n) as nat) + seq![' ']);
        assert(out@ =~= old(out)@ + repeated(' ', (k + 1 - n) as nat));
        k = k + 1;
    }
    out.append(s);
    assert(out@ =~= old(out)@ + pad_left(s@, w as nat));
}

/// Appends `n` in hexadecimal, with zeros before it up to a width of `w`.
pub fn push_hex_padded(out: &mut String, n: u64, w: usize)
    ensures
        final(out)@ == old(out)@ + pad_zero(hex(n as nat), w as nat),
{
    let s = hex_text(n);
    let len: usize = s.as_str().unicode_len();
    let mut k: usize = len;
    proof {
        reveal_strlit("0");
    }
    while k < w
        invariant
            len == s@.len(),
            len <= k,
            len <= w ==> k <= w,
            len > w ==> k == len,
            "0"@ == seq!['0'],
            out@ == old(out)@ + repeated('0', (k - len) as nat),
        decreases w - k,
    {
        out.append("0");
        assert(repeated('0', (k + 1 - len) as nat) =~= repeated('0', (k - len) as nat) + seq!['0']);
        assert(out@ =~= old(out)@ + repeated('0', (k + 1 - len) as nat));
        k = k + 1;
    }
    out.append(s.as_str());
    assert(out@ =~= old(out)@ + pad_zero(hex(n as nat), w as nat));
}

/// The parts one after another with `sep` between them.
pub fn join(parts: &Vec<String>, sep: &str) -> (r: String)
    ensures
        r@ == joined(contents(parts@), sep@),
{
    let ghost all = contents(parts@);
    let mut out = String::new();
    let mut i: usize = 0;
    while i < parts.len()
        invariant
            i <= parts@.len(),
            all == contents(parts@),
            out@ == joined(all.take(i as int), sep@),
        decreases parts@.len() - i,
    {
        if i > 0 {
            out.append(sep);
        }
        out.append(parts[i].as_str());
        proof {
            let t = all.take(i + 1);
            assert(t.drop_last() =~= all.take(i as int));
            assert(t.last() == parts@[i as int]@);
            assert(out@ =~= joined(t, sep@));
        }
        i = i + 1;
    }
    assert(all.take(all.len() as int) =~= all);
    out
}

/// Unicode whitespace.
pub open spec fn is_white(c: char) -> bool {
    let n = c as int;
    ||| 9 <= n <= 13
    ||| n == 0x20
    ||| n == 0x85
    ||| n == 0xA0
    ||| n == 0x1680
    ||| 0x2000 <= n <= 0x200A
    ||| n == 0x2028
    ||| n == 0x2029
    ||| n == 0x202F
    ||| n == 0x205F
    ||| n == 0x3000
}

/// `s` without the whitespace at its beginning.
pub open spec fn trim_start(s: Seq<char>) -> Seq<char>
    decreases s.len(),
{
    if s.len() > 0 && is_white(s[0]) { trim_start(s.skip(1)) } else { s }
}

/// `s` without the whitespace at its end.
pub open spec fn trim_end(s: Seq<char>) -> Seq<char>
    decreases s.len(),
{
    if s.len() > 0 && is_white(s.last()) { trim_end(s.drop_last()) } else { s }
}

/// `s` without the whitespace at both ends.
pub open spec fn trimmed(s: Seq<char>) -> Seq<char> {
    trim_end(trim_start(s))
}

pub fn white(c: char) -> (r: bool)
    ensures
        r == is_white(c),
{
    let n: u32 = c as u32;
    (9 <= n && n <= 13) || n == 0x20 || n == 0x85 || n == 0xA0 || n == 0x1680 || (0x2000 <= n && n
        <= 0x200A) || n == 0x2028 || n == 0x2029 || n == 0x202F || n == 0x205F || n == 0x3000
}

/// `s` without the whitespace at both ends.
pub fn trim<'a>(s: &'a str) -> (r: &'a str)
    ensures
        r@ == trimmed(s@),
{
    let n: usize = s.unicode_len();
    let mut i: usize = 0;
    assert(s@.skip(0) =~= s@);
    while i < n && white(s.get_char(i))
        invariant
            n == s@.len(),
            i <= n,
            trim_start(s@) == trim_start(s@.skip(i as int)),
        decreases n - i,
    {
        assert(s@.skip(i as int).skip(1) =~= s@.skip(i + 1));
        i = i + 1;
    }
    let ghost rest = s@.skip(i as int);
    assert(trim_start(s@) == rest);
    let mut j: usize = n;
    assert(s@.subrange(i as int, n as int) =~= rest);
    while i < j && white(s.get_char(j - 1))
        invariant
            n == s@.len(),
            i <= j <= n,
            rest == s@.skip(i as int),
            trim_end(rest) == trim_end(s@.subrange(i as int, j as int)),
        decreases j - i,
    {
        assert(s@.subrange(i as int, j as int).drop_last() =~= s@.subrange(i as int, j - 1));
        j = j - 1;
    }
    s.substring_char(i, j)
}

/// The lower-case form of a text.
pub uninterp spec fn lowercase(s: Seq<char>) -> Seq<char>;

/// All characters are ASCII.
pub open spec fn all_ascii(s: Seq<char>) -> bool {
    forall|i: int| 0 <= i < s.len() ==> (#[trigger] s[i] as int) < 128
}

/// The lower-case form of an ASCII character.
pub open spec fn ascii_lower(c: char) -> char {
    if 'A' as int <= c as int && c as int <= 'Z' as int {
        (c as int + 32) as char
    } else {
        c
    }
}

/// An ASCII text with each letter lowered.
pub open spec fn ascii_lowered(s: Seq<char>) -> Seq<char> {
    s.map_values(|c: char| ascii_lower(c))
}

/// The lower-case form of a text; `str::to_lowercase`, whose result is a
/// function of the text alone. Of an ASCII text each letter is lowered on its
/// own.
#[verifier::external_body]
pub(crate) fn to_lowercase(s: &str) -> (r: String)
    ensures
        r@ == lowercase(s@),
        all_ascii(s@) ==> r@ == ascii_lowered(s@),
{
    s.to_lowercase()
}

/// The text after its first character, if that is `c`.
pub open spec fn after_char(s: Seq<char>, c: char) -> Option<Seq<char>> {
    if s.len() > 0 && s[0] == c { Some(s.skip(1)) } else { None }
}

/// The text after its first character, if that is `c`.
pub fn strip_char<'a>(s: &'a str, c: char) -> (r: Option<&'a str>)
    ensures
        match r {
            Some(t) => after_char(s@, c) == Some(t@),
            None => after_char(s@, c) is None,
        },
{
    let n: usize = s.unicode_len();
    if n > 0 && s.get_char(0) == c {
        let t = s.substring_char(1, n);
        assert(t@ =~= s@.skip(1));
        Some(t)
    } else {
        None
    }
}

/// Whether the characters of `part` stand in `s` from place `at` on.
fn stands_at(s: &str, part: &str, at: usize, n: usize) -> (r: bool)
    requires
        n == part@.len(),
        at + n <= s@.len(),
        s@.len() <= usize::MAX,
    ensures
        r == (s@.subrange(at as int, at + n) == part@),
{
    let mut i: usize = 0;
    while i < n
        invariant
            i <= n,
            n == part@.len(),
            at + n <= s@.len(),
            s@.len() <= usize::MAX,
            forall|k: int| 0 <= k < i ==> s@[at + k] == #[trigger] part@[k],
        decreases n - i,
    {
        if s.get_char(at + i) != part.get_char(i) {
            assert(s@.subrange(at as int, at + n)[i as int] != part@[i as int]);
            return false;
        }
        i = i + 1;
    }
    assert(s@.subrange(at as int, at + n) =~= part@);
    true
}

/// Whether two texts have the same characters.
pub fn text_eq(a: &str, b: &str) -> (r: bool)
    ensures
        r == (a@ == b@),
{
    let n: usize = a.unicode_len();
    if n != b.unicode_len() {
        return false;
    }
    assert(a@.subrange(0, n as int) =~= a@);
    stands_at(a, b, 0, n)
}

/// Whether `s` begins with `prefix`.
pub fn starts_with(s: &str, prefix: &str) -> (r: bool)
    ensures
        r == prefix@.is_prefix_of(s@),
{
    let n: usize = prefix.unicode_len();
    if n > s.unicode_len() {
        return false;
    }
    stands_at(s, prefix, 0, n)
}

/// Whether `s` ends with `suffix`.
pub fn ends_with(s: &str, suffix: &str) -> (r: bool)
    ensures
        r == suffix@.is_suffix_of(s@),
{
    let n: usize = suffix.unicode_len();
    let len: usize = s.unicode_len();
    if n > len {
        return false;
    }
    stands_at(s, suffix, len - n, n)
}

/// `String::push`: appends a character.
#[verifier::external_body]
pub(crate) fn push_char(s: &mut String, c: char)
    ensures
        final(s)@ == old(s)@.push(c),
{
    s.push(c);
}

/// A copy of a text.
pub fn owned(s: &str) -> (r: String)
    ensures
        r@ == s@,
{
    let mut t: String = String::new();
    t.append(s);
    assert(t@ =~= s@);
    t
}

} // verus!
