//! Character-level text helpers: conversion between strings and character
//! vectors, whitespace trimming, and decimal digit printing.

use vstd::prelude::*;

verus! {

/// Relies on str::chars: yields exactly the characters of the string,
/// in order. Collected into a vector so verified code can index them.
#[verifier::external_body]
pub fn chars_of(s: &str) -> (r: Vec<char>)
    ensures
        r@ == s@,
{
    s.chars().collect()
}

/// Relies on String's FromIterator<char>: collecting characters builds
/// the string of exactly those characters, in order.
#[verifier::external_body]
pub fn string_of(cs: &Vec<char>) -> (r: String)
    ensures
        r@ == cs@,
{
    cs.iter().collect()
}

/// Whether two string slices hold the same text.
pub fn str_eq(a: &str, b: &str) -> (r: bool)
    ensures
        r == (a@ == b@),
{
    let aw: String = a.to_owned();
    let bw: String = b.to_owned();
    aw == bw
}

/// Whether a string holds exactly the text of `b`.
pub fn string_eq_str(a: &String, b: &str) -> (r: bool)
    ensures
        r == (a@ == b@),
{
    let bs: String = b.to_owned();
    *a == bs
}

/// Relies on char::from_u32: it returns the character with the given code
/// exactly when the code is a Unicode scalar value, that is, not a
/// surrogate and at most 0x10FFFF.
#[verifier::external_body]
pub fn char_from_u32(code: u32) -> (r: Option<char>)
    ensures
        r is Some <==> (code < 0xD800 || (0xE000 <= code && code <= 0x10FFFF)),
        r matches Some(c) ==> c as u32 == code,
{
    char::from_u32(code)
}

/// Copy the characters from `a` (inclusive) to `b` (exclusive).
pub fn copy_range(cs: &Vec<char>, a: usize, b: usize) -> (r: Vec<char>)
    requires
        a <= b <= cs@.len(),
    ensures
        r@ == cs@.subrange(a as int, b as int),
{
    let mut r: Vec<char> = Vec::new();
    let mut i: usize = a;
    while i < b
        invariant
            a <= i <= b <= cs@.len(),
            r@ == cs@.subrange(a as int, i as int),
        decreases b - i,
    {
        r.push(cs[i]);
        proof {
            assert(r@ =~= cs@.subrange(a as int, i + 1));
        }
        i = i + 1;
    }
    r
}

/// Whether `c` has the Unicode `White_Space` property, the set that
/// `str::trim` removes at either end of a string.
pub open spec fn is_unicode_ws(c: char) -> bool {
    ||| c == '\u{9}'
    ||| c == '\u{a}'
    ||| c == '\u{b}'
    ||| c == '\u{c}'
    ||| c == '\u{d}'
    ||| c == ' '
    ||| c == '\u{85}'
    ||| c == '\u{a0}'
    ||| c == '\u{1680}'
    ||| c == '\u{2000}'
    ||| c == '\u{2001}'
    ||| c == '\u{2002}'
    ||| c == '\u{2003}'
    ||| c == '\u{2004}'
    ||| c == '\u{2005}'
    ||| c == '\u{2006}'
    ||| c == '\u{2007}'
    ||| c == '\u{2008}'
    ||| c == '\u{2009}'
    ||| c == '\u{200a}'
    ||| c == '\u{2028}'
    ||| c == '\u{2029}'
    ||| c == '\u{202f}'
    ||| c == '\u{205f}'
    ||| c == '\u{3000}'
}

pub fn is_unicode_ws_exec(c: char) -> (r: bool)
    ensures
        r == is_unicode_ws(c),
{
    c == '\u{9}' || c == '\u{a}' || c == '\u{b}' || c == '\u{c}' || c == '\u{d}' || c == ' '
        || c == '\u{85}' || c == '\u{a0}' || c == '\u{1680}' || c == '\u{2000}' || c == '\u{2001}'
        || c == '\u{2002}' || c == '\u{2003}' || c == '\u{2004}' || c == '\u{2005}'
        || c == '\u{2006}' || c == '\u{2007}' || c == '\u{2008}' || c == '\u{2009}'
        || c == '\u{200a}' || c == '\u{2028}' || c == '\u{2029}' || c == '\u{202f}'
        || c == '\u{205f}' || c == '\u{3000}'
}

/// First index at or after `i` whose character is not whitespace.
pub open spec fn ws_from(s: Seq<char>, i: int) -> int
    decreases s.len() - i,
{
    if 0 <= i < s.len() && is_unicode_ws(s[i]) {
        ws_from(s, i + 1)
    } else {
        i
    }
}

/// Last index at or before `i` such that everything from it to `i` is
/// whitespace.
pub open spec fn ws_back(s: Seq<char>, i: int) -> int
    decreases i,
{
    if 0 < i <= s.len() && is_unicode_ws(s[i - 1]) {
        ws_back(s, i - 1)
    } else {
        i
    }
}

/// The string with leading and trailing whitespace removed, as `str::trim`
/// leaves it.
pub open spec fn trim_spec(s: Seq<char>) -> Seq<char> {
    let a = ws_from(s, 0);
    let b = ws_back(s, s.len() as int);
    if a <= b {
        s.subrange(a, b)
    } else {
        Seq::empty()
    }
}

proof fn lemma_ws_from_bounds(s: Seq<char>, i: int)
    requires
        0 <= i <= s.len(),
    ensures
        i <= ws_from(s, i) <= s.len(),
    decreases s.len() - i,
{
    if i < s.len() && is_unicode_ws(s[i]) {
        lemma_ws_from_bounds(s, i + 1);
    }
}

proof fn lemma_ws_back_bounds(s: Seq<char>, i: int)
    requires
        0 <= i <= s.len(),
    ensures
        0 <= ws_back(s, i) <= i,
    decreases i,
{
    if 0 < i && is_unicode_ws(s[i - 1]) {
        lemma_ws_back_bounds(s, i - 1);
    }
}

/// Remove leading and trailing whitespace.
pub fn trimmed(cs: &Vec<char>) -> (r: Vec<char>)
    ensures
        r@ == trim_spec(cs@),
{
    let n = cs.len();
    let mut a: usize = 0;
    while a < n && is_unicode_ws_exec(cs[a])
        invariant
            0 <= a <= n,
            n == cs@.len(),
            ws_from(cs@, 0) == ws_from(cs@, a as int),
        decreases n - a,
    {
        a = a + 1;
    }
    proof {
        lemma_ws_from_bounds(cs@, a as int);
        assert(ws_from(cs@, a as int) == a as int);
    }
    let mut b: usize = n;
    while b > 0 && is_unicode_ws_exec(cs[b - 1])
        invariant
            0 <= b <= n,
            n == cs@.len(),
            ws_back(cs@, n as int) == ws_back(cs@, b as int),
        decreases b,
    {
        b = b - 1;
    }
    proof {
        lemma_ws_back_bounds(cs@, b as int);
        assert(ws_back(cs@, b as int) == b as int);
    }
    let mut r: Vec<char> = Vec::new();
    if a <= b {
        let mut i: usize = a;
        while i < b
            invariant
                a <= i <= b <= n,
                n == cs@.len(),
                r@ == cs@.subrange(a as int, i as int),
            decreases b - i,
        {
            r.push(cs[i]);
            proof {
                assert(r@ =~= cs@.subrange(a as int, i + 1));
            }
            i = i + 1;
        }
    }
    proof {
        if a as int <= b as int {
            assert(r@ =~= trim_spec(cs@));
        } else {
            assert(r@ =~= trim_spec(cs@));
        }
    }
    r
}

/// The decimal digit for `n`, which must be below ten.
pub open spec fn dec_digit(n: int) -> char {
    if n == 0 {
        '0'
    } else if n == 1 {
        '1'
    } else if n == 2 {
        '2'
    } else if n == 3 {
        '3'
    } else if n == 4 {
        '4'
    } else if n == 5 {
        '5'
    } else if n == 6 {
        '6'
    } else if n == 7 {
        '7'
    } else if n == 8 {
        '8'
    } else {
        '9'
    }
}

/// The decimal notation of `n`, without sign or leading zeros.
pub open spec fn dec_str(n: nat) -> Seq<char>
    decreases n,
{
    if n < 10 {
        seq![dec_digit(n as int)]
    } else {
        dec_str(n / 10).push(dec_digit((n % 10) as int))
    }
}

fn dec_digit_exec(n: u64) -> (r: char)
    requires
        n < 10,
    ensures
        r == dec_digit(n as int),
{
    if n == 0 {
        '0'
    } else if n == 1 {
        '1'
    } else if n == 2 {
        '2'
    } else if n == 3 {
        '3'
    } else if n == 4 {
        '4'
    } else if n == 5 {
        '5'
    } else if n == 6 {
        '6'
    } else if n == 7 {
        '7'
    } else if n == 8 {
        '8'
    } else {
        '9'
    }
}

/// Print `n` in decimal.
pub fn u64_to_dec(n: u64) -> (r: Vec<char>)
    ensures
        r@ == dec_str(n as nat),
    decreases n,
{
    if n < 10 {
        let mut r: Vec<char> = Vec::new();
        r.push(dec_digit_exec(n));
        proof {
            assert(r@ =~= dec_str(n as nat));
        }
        r
    } else {
        let mut r = u64_to_dec(n / 10);
        r.push(dec_digit_exec(n % 10));
        r
    }
}

} // verus!
