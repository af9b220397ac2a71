//! Text cut into words, and words read as numbers.
use crate::text::{dec, digit, digits, is_white, white};
use vstd::prelude::*;

verus! {

/// A word that has been begun, if there is one.
pub open spec fn finished_word(word: Seq<char>) -> Seq<Seq<char>> {
    if word.len() == 0 { Seq::empty() } else { seq![word] }
}

/// The words of `s` behind a word that has been begun.
pub open spec fn words_from(s: Seq<char>, word: Seq<char>) -> Seq<Seq<char>>
    decreases s.len(),
{
    if s.len() == 0 {
        finished_word(word)
    } else if is_white(s[0]) {
        finished_word(word) + words_from(s.skip(1), Seq::empty())
    } else {
        words_from(s.skip(1), word.push(s[0]))
    }
}

/// The words of `s`: what is between whitespace.
pub open spec fn words(s: Seq<char>) -> Seq<Seq<char>> {
    words_from(s, Seq::empty())
}

/// The contents of words.
pub open spec fn spellings(v: Seq<Vec<char>>) -> Seq<Seq<char>> {
    Seq::new(v.len(), |i: int| v[i]@)
}

/// The words of a text.
pub fn split_words(s: &str) -> (r: Vec<Vec<char>>)
    ensures
        spellings(r@) == words(s@),
{
    let mut done: Vec<Vec<char>> = Vec::new();
    let mut word: Vec<char> = Vec::new();
    let ghost mut i: int = 0;
    assert(s@.skip(0) =~= s@);
    assert(spellings(done@) + words(s@) =~= words(s@));
    assert(word@ =~= Seq::<char>::empty());
    for c in it: s.chars()
        invariant
            it.seq() == s@,
            i == it.index(),
            0 <= i <= s@.len(),
            words(s@) == spellings(done@) + words_from(s@.skip(i), word@),
    {
        assert(c == s@[i]);
        assert(s@.skip(i)[0] == c);
        assert(s@.skip(i).skip(1) =~= s@.skip(i + 1));
        if white(c) {
            let ghost before = done@;
            let ghost w = word@;
            if word.len() > 0 {
                done.push(word);
                assert(spellings(done@) =~= spellings(before).push(w));
                assert(spellings(before) + (seq![w] + words_from(s@.skip(i + 1), Seq::empty()))
                    =~= spellings(done@) + words_from(s@.skip(i + 1), Seq::empty()));
            } else {
                assert(spellings(before) + (Seq::<Seq<char>>::empty() + words_from(
                    s@.skip(i + 1),
                    Seq::empty(),
                )) =~= spellings(done@) + words_from(s@.skip(i + 1), Seq::empty()));
            }
            word = Vec::new();
            assert(word@ =~= Seq::<char>::empty());
        } else {
            word.push(c);
        }
        proof {
            i = i + 1;
        }
    }
    assert(s@.skip(i) =~= Seq::<char>::empty());
    let ghost before = done@;
    let ghost w = word@;
    if word.len() > 0 {
        done.push(word);
        assert(spellings(done@) =~= spellings(before).push(w));
        assert(spellings(before) + seq![w] =~= spellings(done@));
    } else {
        assert(spellings(before) + Seq::<Seq<char>>::empty() =~= spellings(done@));
    }
    done
}

/// No whitespace in `s`.
pub open spec fn solid(s: Seq<char>) -> bool {
    forall|i: int| 0 <= i < s.len() ==> !is_white(#[trigger] s[i])
}

/// A word that is followed by whitespace.
pub proof fn lemma_words_of_word(begun: Seq<char>, word: Seq<char>, c: char, rest: Seq<char>)
    requires
        solid(word),
        is_white(c),
        begun.len() + word.len() > 0,
    ensures
        words_from(word + seq![c] + rest, begun) == seq![begun + word] + words(rest),
    decreases word.len(),
{
    let s = word + seq![c] + rest;
    if word.len() == 0 {
        assert(s[0] == c);
        assert(s.skip(1) =~= rest);
        assert(begun + word =~= begun);
    } else {
        assert(s[0] == word[0]);
        assert(s.skip(1) =~= word.skip(1) + seq![c] + rest);
        lemma_words_of_word(begun.push(word[0]), word.skip(1), c, rest);
        assert(begun.push(word[0]) + word.skip(1) =~= begun + word);
    }
}

/// Whitespace before words.
pub proof fn lemma_words_of_white(c: char, rest: Seq<char>)
    requires
        is_white(c),
    ensures
        words(seq![c] + rest) == words(rest),
{
    let s = seq![c] + rest;
    assert(s[0] == c);
    assert(s.skip(1) =~= rest);
    assert(Seq::<Seq<char>>::empty() + words(rest) =~= words(rest));
}

/// A decimal digit.
pub open spec fn is_digit(c: char) -> bool {
    '0' <= c <= '9'
}

/// The value of a decimal digit.
pub open spec fn digit_value(c: char) -> int {
    c as int - '0' as int
}

/// Every character is a decimal digit.
pub open spec fn all_digits(s: Seq<char>) -> bool {
    forall|i: int| 0 <= i < s.len() ==> is_digit(#[trigger] s[i])
}

/// The number that decimal digits write.
pub open spec fn number(s: Seq<char>) -> int
    decreases s.len(),
{
    if s.len() == 0 { 0 } else { number(s.drop_last()) * 10 + digit_value(s.last()) }
}

/// The number that a word writes, if it writes one: decimal digits, with a
/// sign before them or without. Only a signed number can have a minus.
pub open spec fn parsed(s: Seq<char>, signed: bool) -> Option<int> {
    if s.len() == 0 {
        None
    } else {
        let minus = signed && s[0] == '-';
        let tail = if minus || s[0] == '+' { s.skip(1) } else { s };
        if tail.len() == 0 || !all_digits(tail) {
            None
        } else if minus {
            Some(-number(tail))
        } else {
            Some(number(tail))
        }
    }
}

/// The number that a word writes, if it writes one in a range.
pub open spec fn parsed_in(s: Seq<char>, signed: bool, lo: int, hi: int) -> Option<int> {
    match parsed(s, signed) {
        Some(n) => if lo <= n <= hi { Some(n) } else { None },
        None => None,
    }
}

proof fn lemma_number_grows(s: Seq<char>, i: int)
    requires
        all_digits(s),
        0 <= i <= s.len(),
    ensures
        0 <= number(s.take(i)) <= number(s),
    decreases s.len(),
{
    if s.len() == 0 {
        assert(s.take(i) =~= s);
    } else if i == s.len() {
        assert(s.take(i) =~= s);
        lemma_number_grows(s.drop_last(), s.len() - 1);
        assert(s.drop_last().take(s.len() - 1) =~= s.drop_last());
        assert(is_digit(s[s.len() - 1]));
    } else {
        assert(s.drop_last().take(i) =~= s.take(i));
        lemma_number_grows(s.drop_last(), i);
        assert(is_digit(s[s.len() - 1]));
    }
}

/// The number that the digits from `from` on write, if it is at most `cap`.
fn read_digits(s: &Vec<char>, from: usize, cap: u64) -> (r: Option<u64>)
    requires
        from <= s@.len(),
    ensures
        ({
            let tail = s@.skip(from as int);
            r == if tail.len() > 0 && all_digits(tail) && number(tail) <= cap {
                Some(number(tail) as u64)
            } else {
                None
            }
        }),
{
    let ghost tail = s@.skip(from as int);
    if from == s.len() {
        return None;
    }
    let mut acc: u128 = 0;
    let mut i: usize = from;
    assert(tail.take(0) =~= Seq::<char>::empty());
    while i < s.len()
        invariant
            from <= i <= s@.len(),
            from < s@.len(),
            tail == s@.skip(from as int),
            forall|k: int| 0 <= k < i - from ==> is_digit(#[trigger] tail[k]),
            acc == number(tail.take(i - from)),
            acc <= cap,
        decreases s@.len() - i,
    {
        let c: char = s[i];
        assert(tail[i - from] == c);
        if !('0' <= c && c <= '9') {
            assert(!is_digit(tail[i - from]));
            return None;
        }
        let d: u128 = (c as u32 - '0' as u32) as u128;
        acc = acc * 10 + d;
        proof {
            let t = tail.take(i + 1 - from);
            assert(t.drop_last() =~= tail.take(i - from));
            assert(t.last() == c);
        }
        if acc > cap as u128 {
            proof {
                if all_digits(tail) {
                    lemma_number_grows(tail, i + 1 - from);
                }
            }
            return None;
        }
        i = i + 1;
    }
    assert(tail.take(tail.len() as int) =~= tail);
    Some(acc as u64)
}

/// Reads an unsigned number.
pub fn parse_usize(s: &Vec<char>) -> (r: Option<usize>)
    ensures
        r == match parsed_in(s@, false, 0, usize::MAX as int) {
            Some(n) => Some(n as usize),
            None => None,
        },
{
    if s.len() == 0 {
        return None;
    }
    let from: usize = if s[0] == '+' { 1 } else { 0 };
    assert(s@.skip(0) =~= s@);
    proof {
        let tail = s@.skip(from as int);
        if all_digits(tail) {
            lemma_number_grows(tail, 0);
            assert(tail.take(0) =~= Seq::<char>::empty());
        }
    }
    match read_digits(s, from, usize::MAX as u64) {
        Some(n) => Some(n as usize),
        None => None,
    }
}

/// Reads an unsigned 32-bit number.
pub fn parse_u32(s: &Vec<char>) -> (r: Option<u32>)
    ensures
        r == match parsed_in(s@, false, 0, u32::MAX as int) {
            Some(n) => Some(n as u32),
            None => None,
        },
{
    if s.len() == 0 {
        return None;
    }
    let from: usize = if s[0] == '+' { 1 } else { 0 };
    assert(s@.skip(0) =~= s@);
    proof {
        let tail = s@.skip(from as int);
        if all_digits(tail) {
            lemma_number_grows(tail, 0);
            assert(tail.take(0) =~= Seq::<char>::empty());
        }
    }
    match read_digits(s, from, 0xffff_ffff) {
        Some(n) => Some(n as u32),
        None => None,
    }
}

/// Reads a signed 32-bit number.
pub fn parse_i32(s: &Vec<char>) -> (r: Option<i32>)
    ensures
        r == match parsed_in(s@, true, i32::MIN as int, i32::MAX as int) {
            Some(n) => Some(n as i32),
            None => None,
        },
{
    if s.len() == 0 {
        return None;
    }
    let minus: bool = s[0] == '-';
    let from: usize = if minus || s[0] == '+' { 1 } else { 0 };
    assert(s@.skip(0) =~= s@);
    proof {
        let tail = s@.skip(from as int);
        if all_digits(tail) {
            lemma_number_grows(tail, 0);
            assert(tail.take(0) =~= Seq::<char>::empty());
        }
    }
    if minus {
        match read_digits(s, from, 0x8000_0000) {
            Some(n) => Some((-(n as i64)) as i32),
            None => None,
        }
    } else {
        match read_digits(s, from, 0x7fff_ffff) {
            Some(n) => Some(n as i32),
            None => None,
        }
    }
}

proof fn lemma_digits_read_back(n: nat)
    ensures
        digits(n, 10).len() > 0,
        all_digits(digits(n, 10)),
        number(digits(n, 10)) == n,
    decreases n,
{
    reveal_with_fuel(number, 2);
    if n < 10 {
        let s = digits(n, 10);
        assert(s =~= seq![digit(n as int)]);
        assert(s.drop_last() =~= Seq::<char>::empty());
        assert(s.last() == digit(n as int));
    } else {
        lemma_digits_read_back(n / 10);
        let s = digits(n, 10);
        assert(s == digits(n / 10, 10).push(digit((n % 10) as int)));
        assert(s.drop_last() =~= digits(n / 10, 10));
        assert(s.last() == digit((n % 10) as int));
        assert forall|i: int| 0 <= i < s.len() implies is_digit(#[trigger] s[i]) by {
            if i < s.len() - 1 {
                assert(s[i] == digits(n / 10, 10)[i]);
            }
        }
    }
}

/// A number that was written in decimal is read back, and is one word.
pub proof fn law_numbers_read_back(x: int)
    ensures
        parsed(dec(x), true) == Some(x),
        x >= 0 ==> parsed(dec(x), false) == Some(x),
        solid(dec(x)),
        dec(x).len() > 0,
{
    let m = if x < 0 { -x } else { x };
    lemma_digits_read_back(m as nat);
    let d = digits(m as nat, 10);
    assert(is_digit(d[0]));
    if x < 0 {
        assert(dec(x).skip(1) =~= d);
        assert(dec(x)[0] == '-');
        assert forall|i: int| 0 <= i < dec(x).len() implies !is_white(#[trigger] dec(x)[i]) by {
            if i > 0 {
                assert(dec(x)[i] == d[i - 1]);
                assert(is_digit(d[i - 1]));
            }
        }
    } else {
        assert forall|i: int| 0 <= i < dec(x).len() implies !is_white(#[trigger] dec(x)[i]) by {
            assert(is_digit(d[i]));
        }
    }
}

} // verus!
