//! Character-level text operations: conversion between strings and character
//! vectors, substring search, and the overlap between the end of one text and
//! the start of another.

use vstd::prelude::*;
use vstd::string::StringExecFns;

verus! {

/// The Unicode replacement character, which a decoder produces in place of an
/// incomplete multi-byte sequence.
pub open spec fn replacement_char() -> char {
    '\u{FFFD}'
}

/// `needle` occurs in `hay` starting at position `pos`.
pub open spec fn occurs_at(hay: Seq<char>, needle: Seq<char>, pos: int) -> bool {
    &&& 0 <= pos
    &&& pos + needle.len() <= hay.len()
    &&& hay.subrange(pos, pos + needle.len()) == needle
}

/// `pos` is the position of the leftmost occurrence of `needle` in `hay`.
pub open spec fn is_first_occurrence(hay: Seq<char>, needle: Seq<char>, pos: int) -> bool {
    &&& occurs_at(hay, needle, pos)
    &&& forall|q: int| 0 <= q < pos ==> !occurs_at(hay, needle, q)
}

/// `needle` occurs somewhere in `hay`.
pub open spec fn occurs_in(hay: Seq<char>, needle: Seq<char>) -> bool {
    exists|pos: int| occurs_at(hay, needle, pos)
}

/// The last `n` characters of `text` are the first `n` characters of `word`,
/// where `n` is at least one and `word` is longer than `n`: `text` ends in a
/// proper, non-empty beginning of `word`.
pub open spec fn is_overlap(text: Seq<char>, word: Seq<char>, n: int) -> bool {
    &&& 1 <= n <= text.len()
    &&& n < word.len()
    &&& text.subrange(text.len() - n, text.len() as int) == word.subrange(0, n)
}

/// `n` is the length of the longest overlap of `text` with `word`, or zero
/// where there is none.
pub open spec fn is_longest_overlap(text: Seq<char>, word: Seq<char>, n: int) -> bool {
    &&& n == 0 || is_overlap(text, word, n)
    &&& forall|m: int| is_overlap(text, word, m) ==> m <= n
}

/// The characters of a string, in order.
pub fn to_chars(s: &str) -> (v: Vec<char>)
    ensures
        v@ == s@,
{
    let mut v: Vec<char> = Vec::new();
    for c in it: s.chars()
        invariant
            v@ == it.seq().take(it.index()),
            it.seq() == s@,
    {
        v.push(c);
    }
    v
}

/// Whether `needle` occurs in `hay` at `pos`.
pub fn matches_at(hay: &[char], needle: &[char], pos: usize) -> (b: bool)
    ensures
        b == occurs_at(hay@, needle@, pos as int),
{
    if needle.len() > hay.len() || pos > hay.len() - needle.len() {
        return false;
    }
    let mut i: usize = 0;
    while i < needle.len()
        invariant
            i <= needle.len(),
            pos + needle.len() <= hay.len(),
            forall|k: int| 0 <= k < i ==> hay@[pos + k] == needle@[k],
        decreases needle.len() - i,
    {
        if hay[pos + i] != needle[i] {
            proof {
                let w = hay@.subrange(pos as int, pos + needle.len());
                assert(w[i as int] == hay@[pos + i]);
            }
            return false;
        }
        i += 1;
    }
    assert(hay@.subrange(pos as int, pos + needle.len()) =~= needle@);
    true
}

/// The position of the leftmost occurrence of `needle` in `hay`, if there is
/// one. An empty `needle` occurs at position zero of every text.
pub fn find(hay: &[char], needle: &[char]) -> (r: Option<usize>)
    ensures
        match r {
            Some(pos) => is_first_occurrence(hay@, needle@, pos as int),
            None => !occurs_in(hay@, needle@),
        },
{
    if needle.len() > hay.len() {
        return None;
    }
    let last: usize = hay.len() - needle.len();
    let mut pos: usize = 0;
    while pos < last
        invariant
            last == hay.len() - needle.len(),
            pos <= last,
            forall|q: int| 0 <= q < pos ==> !occurs_at(hay@, needle@, q),
        decreases last - pos,
    {
        if matches_at(hay, needle, pos) {
            return Some(pos);
        }
        pos += 1;
    }
    if matches_at(hay, needle, last) {
        Some(last)
    } else {
        None
    }
}

/// Whether `needle` occurs somewhere in `hay`.
pub fn contains(hay: &[char], needle: &[char]) -> (b: bool)
    ensures
        b == occurs_in(hay@, needle@),
{
    match find(hay, needle) {
        Some(_) => true,
        None => false,
    }
}

/// Whether the last `n` characters of `text` are the first `n` of `word`.
fn overlaps_by(text: &[char], word: &[char], n: usize) -> (b: bool)
    requires
        1 <= n <= text.len(),
        n < word.len(),
    ensures
        b == is_overlap(text@, word@, n as int),
{
    let start: usize = text.len() - n;
    let mut i: usize = 0;
    while i < n
        invariant
            i <= n,
            n <= text.len(),
            n < word.len(),
            start == text.len() - n,
            forall|k: int| 0 <= k < i ==> text@[start + k] == word@[k],
        decreases n - i,
    {
        if text[start + i] != word[i] {
            proof {
                let a = text@.subrange(text.len() - n, text.len() as int);
                let b = word@.subrange(0, n as int);
                assert(a[i as int] == text@[start + i]);
                assert(b[i as int] == word@[i as int]);
            }
            return false;
        }
        i += 1;
    }
    assert(text@.subrange(text.len() - n, text.len() as int) =~= word@.subrange(0, n as int));
    true
}

/// The length of the longest overlap of `text` with `word`: the greatest `n`
/// such that `text` ends in the first `n` characters of `word`, `n` being
/// smaller than the length of `word`; zero where `text` ends in no beginning
/// of `word`.
pub fn longest_overlap(text: &[char], word: &[char]) -> (n: usize)
    ensures
        is_longest_overlap(text@, word@, n as int),
{
    if word.len() == 0 {
        return 0;
    }
    let limit: usize = if text.len() < word.len() - 1 {
        text.len()
    } else {
        word.len() - 1
    };
    let mut n: usize = limit;
    while n > 0
        invariant
            n <= limit,
            limit <= text.len(),
            limit < word.len(),
            forall|m: int| n < m ==> !is_overlap(text@, word@, m),
        decreases n,
    {
        if overlaps_by(text, word, n) {
            return n;
        }
        n -= 1;
    }
    0
}

/// The character of a decimal digit.
pub open spec fn digit_char(d: int) -> char {
    if d == 0 {
        '0'
    } else if d == 1 {
        '1'
    } else if d == 2 {
        '2'
    } else if d == 3 {
        '3'
    } else if d == 4 {
        '4'
    } else if d == 5 {
        '5'
    } else if d == 6 {
        '6'
    } else if d == 7 {
        '7'
    } else if d == 8 {
        '8'
    } else {
        '9'
    }
}

/// The decimal numeral of a natural number, without leading zeros.
pub open spec fn decimal(n: nat) -> Seq<char>
    decreases n,
{
    if n < 10 {
        seq![digit_char(n as int)]
    } else {
        decimal(n / 10).push(digit_char((n % 10) as int))
    }
}

/// The decimal numeral of an integer: a minus sign before the numeral of a
/// negative number's magnitude.
pub open spec fn signed_decimal(i: int) -> Seq<char> {
    if i < 0 {
        seq!['-'] + decimal((-i) as nat)
    } else {
        decimal(i as nat)
    }
}

/// The one-character string of a decimal digit.
fn digit_str(d: u8) -> (s: &'static str)
    requires
        d < 10,
    ensures
        s@ == seq![digit_char(d as int)],
{
    proof {
        reveal_strlit("0");
        reveal_strlit("1");
        reveal_strlit("2");
        reveal_strlit("3");
        reveal_strlit("4");
        reveal_strlit("5");
        reveal_strlit("6");
        reveal_strlit("7");
        reveal_strlit("8");
        reveal_strlit("9");
    }
    let s = if d == 0 {
        "0"
    } else if d == 1 {
        "1"
    } else if d == 2 {
        "2"
    } else if d == 3 {
        "3"
    } else if d == 4 {
        "4"
    } else if d == 5 {
        "5"
    } else if d == 6 {
        "6"
    } else if d == 7 {
        "7"
    } else if d == 8 {
        "8"
    } else {
        "9"
    };
    assert(s@ =~= seq![digit_char(d as int)]);
    s
}

/// The decimal numeral of `n`.
pub fn decimal_string(n: u128) -> (s: String)
    ensures
        s@ == decimal(n as nat),
    decreases n,
{
    if n < 10 {
        digit_str(n as u8).to_owned()
    } else {
        let mut s = decimal_string(n / 10);
        s.append(digit_str((n % 10) as u8));
        assert(s@ =~= decimal((n / 10) as nat).push(digit_char((n % 10) as int)));
        s
    }
}

/// The decimal numeral of `i`, with a minus sign where `i` is negative.
pub fn signed_decimal_string(i: i128) -> (s: String)
    ensures
        s@ == signed_decimal(i as int),
{
    if i < 0 {
        proof {
            reveal_strlit("-");
        }
        let mut s: String = "-".to_owned();
        let magnitude: u128 = (-(i + 1)) as u128 + 1;
        let digits = decimal_string(magnitude);
        s.append(digits.as_str());
        assert(s@ =~= seq!['-'] + decimal((-i) as nat));
        s
    } else {
        decimal_string(i as u128)
    }
}

} // verus!
