//! Reading JSON text back into a value.
//!
//! A hook answers on its standard output with one JSON value. This module
//! holds the grammar as specification functions and an executable parser
//! proved to return exactly what the grammar says. Nesting is bounded, as
//! the reference JSON readers bound it, so adversarial input cannot recurse
//! without limit.

use vstd::prelude::*;
use crate::json::JsonVal;
use crate::json::JsonValue;
use crate::json::jval;
use crate::json::jval_seq;
use crate::json::jval_pairs;

verus! {

broadcast use vstd::seq::group_seq_axioms, vstd::std_specs::vec::group_vec_axioms;

/// How many levels of arrays and objects may nest.
pub const MAX_JSON_DEPTH: u32 = 128;

/// The whitespace JSON allows between tokens.
pub open spec fn is_json_ws(c: char) -> bool {
    c == ' ' || c == '\t' || c == '\n' || c == '\r'
}

/// First index at or after `i` that does not hold JSON whitespace.
pub open spec fn skip_ws(s: Seq<char>, i: int) -> int
    decreases s.len() - i,
{
    if 0 <= i < s.len() && is_json_ws(s[i]) {
        skip_ws(s, i + 1)
    } else {
        i
    }
}

/// A character equals the character built from its own code.
proof fn lemma_char_code(c: char, code: u32)
    requires
        c as u32 == code,
    ensures
        c == code as char,
{
}

/// `skip_ws` never moves backwards and never runs past the end.
proof fn lemma_skip_ws_facts(s: Seq<char>)
    ensures
        forall|j: int| #[trigger] skip_ws(s, j) >= j,
        forall|j: int| j <= s.len() ==> #[trigger] skip_ws(s, j) <= s.len(),
{
    assert forall|j: int| #[trigger] skip_ws(s, j) >= j by {
        lemma_skip_ws_ge(s, j);
    }
    assert forall|j: int| j <= s.len() implies #[trigger] skip_ws(s, j) <= s.len() by {
        if 0 <= j {
            lemma_skip_ws_bounds(s, j);
        } else {
            lemma_skip_ws_bounds(s, 0);
        }
    }
}

proof fn lemma_skip_ws_ge(s: Seq<char>, i: int)
    ensures
        skip_ws(s, i) >= i,
    decreases s.len() - i,
{
    if 0 <= i < s.len() && is_json_ws(s[i]) {
        lemma_skip_ws_ge(s, i + 1);
    }
}

proof fn lemma_skip_ws_bounds(s: Seq<char>, i: int)
    requires
        0 <= i <= s.len(),
    ensures
        i <= skip_ws(s, i) <= s.len(),
    decreases s.len() - i,
{
    if i < s.len() && is_json_ws(s[i]) {
        lemma_skip_ws_bounds(s, i + 1);
    }
}

pub open spec fn is_digit(c: char) -> bool {
    '0' <= c && c <= '9'
}

pub open spec fn is_hex(c: char) -> bool {
    is_digit(c) || ('a' <= c && c <= 'f') || ('A' <= c && c <= 'F')
}

/// The value of one hexadecimal digit.
pub open spec fn hex_val(c: char) -> int {
    if is_digit(c) {
        c as int - '0' as int
    } else if 'a' <= c && c <= 'f' {
        c as int - 'a' as int + 10
    } else {
        c as int - 'A' as int + 10
    }
}

/// The value of the four hexadecimal digits at `i`, if they are there.
pub open spec fn hex4(s: Seq<char>, i: int) -> Option<int> {
    if i + 4 <= s.len() && is_hex(s[i]) && is_hex(s[i + 1]) && is_hex(s[i + 2]) && is_hex(
        s[i + 3],
    ) {
        Some(hex_val(s[i]) * 4096 + hex_val(s[i + 1]) * 256 + hex_val(s[i + 2]) * 16 + hex_val(
            s[i + 3],
        ))
    } else {
        None
    }
}

/// First index at or after `i` that does not hold a decimal digit.
pub open spec fn digits_end(s: Seq<char>, i: int) -> int
    decreases s.len() - i,
{
    if 0 <= i < s.len() && is_digit(s[i]) {
        digits_end(s, i + 1)
    } else {
        i
    }
}

/// Where the integer part of a number ends, starting at its first digit:
/// a single `0`, or a nonzero digit followed by more digits.
pub open spec fn int_end(s: Seq<char>, i: int) -> Option<int> {
    if i < s.len() && s[i] == '0' {
        Some(i + 1)
    } else if i < s.len() && is_digit(s[i]) {
        Some(digits_end(s, i))
    } else {
        None
    }
}

/// Where the optional fraction part ends.
pub open spec fn frac_end(s: Seq<char>, i: int) -> Option<int> {
    if i < s.len() && s[i] == '.' {
        if i + 1 < s.len() && is_digit(s[i + 1]) {
            Some(digits_end(s, i + 1))
        } else {
            None
        }
    } else {
        Some(i)
    }
}

/// Where the optional exponent part ends.
pub open spec fn exp_end(s: Seq<char>, i: int) -> Option<int> {
    if i < s.len() && (s[i] == 'e' || s[i] == 'E') {
        let j = if i + 1 < s.len() && (s[i + 1] == '+' || s[i + 1] == '-') {
            i + 2
        } else {
            i + 1
        };
        if j < s.len() && is_digit(s[j]) {
            Some(digits_end(s, j))
        } else {
            None
        }
    } else {
        Some(i)
    }
}

/// Where a number token starting at `i` ends, if the text there is one.
pub open spec fn num_end(s: Seq<char>, i: int) -> Option<int> {
    let j = if i < s.len() && s[i] == '-' {
        i + 1
    } else {
        i
    };
    match int_end(s, j) {
        None => None,
        Some(k) => match frac_end(s, k) {
            None => None,
            Some(m) => exp_end(s, m),
        },
    }
}

/// The characters of a string literal from just after the opening quote,
/// with escapes decoded, and the index just after the closing quote.
pub open spec fn parse_string_body(s: Seq<char>, i: int) -> Option<(Seq<char>, int)>
    decreases s.len() - i,
{
    if i < 0 || i >= s.len() {
        None
    } else {
        let c = s[i];
        if c == '"' {
            Some((Seq::empty(), i + 1))
        } else if c == '\\' {
            if i + 1 >= s.len() {
                None
            } else {
                let e = s[i + 1];
                if e == 'u' {
                    match hex4(s, i + 2) {
                        None => None,
                        Some(code) => {
                            if 0xD800 <= code < 0xDC00 {
                                if i + 12 <= s.len() && s[i + 6] == '\\' && s[i + 7] == 'u' {
                                    match hex4(s, i + 8) {
                                        None => None,
                                        Some(low) => {
                                            if 0xDC00 <= low < 0xE000 {
                                                let cp = 0x10000 + (code - 0xD800) * 0x400 + (low
                                                    - 0xDC00);
                                                match parse_string_body(s, i + 12) {
                                                    None => None,
                                                    Some((rest, j)) => Some(
                                                        (seq![(cp as u32) as char] + rest, j),
                                                    ),
                                                }
                                            } else {
                                                None
                                            }
                                        },
                                    }
                                } else {
                                    None
                                }
                            } else if 0xDC00 <= code < 0xE000 {
                                None
                            } else {
                                match parse_string_body(s, i + 6) {
                                    None => None,
                                    Some((rest, j)) => Some(
                                        (seq![(code as u32) as char] + rest, j),
                                    ),
                                }
                            }
                        },
                    }
                } else {
                    let dc: Option<char> = if e == '"' {
                        Some('"')
                    } else if e == '\\' {
                        Some('\\')
                    } else if e == '/' {
                        Some('/')
                    } else if e == 'b' {
                        Some('\u{8}')
                    } else if e == 'f' {
                        Some('\u{c}')
                    } else if e == 'n' {
                        Some('\n')
                    } else if e == 'r' {
                        Some('\r')
                    } else if e == 't' {
                        Some('\t')
                    } else {
                        None
                    };
                    match dc {
                        None => None,
                        Some(d) => match parse_string_body(s, i + 2) {
                            None => None,
                            Some((rest, j)) => Some((seq![d] + rest, j)),
                        },
                    }
                }
            }
        } else if (c as u32) < 0x20 {
            None
        } else {
            match parse_string_body(s, i + 1) {
                None => None,
                Some((rest, j)) => Some((seq![c] + rest, j)),
            }
        }
    }
}

/// One JSON value starting at `i` (whitespace already skipped), and the
/// index just after it. `depth` bounds how deep arrays and objects nest.
pub open spec fn parse_value(s: Seq<char>, i: int, depth: u32) -> Option<(JsonVal, int)>
    decreases depth, s.len() - i, 0int,
{
    if depth == 0 || i < 0 || i >= s.len() {
        None
    } else {
        let c = s[i];
        if c == 'n' {
            if i + 4 <= s.len() && s[i + 1] == 'u' && s[i + 2] == 'l' && s[i + 3] == 'l' {
                Some((JsonVal::Null, i + 4))
            } else {
                None
            }
        } else if c == 't' {
            if i + 4 <= s.len() && s[i + 1] == 'r' && s[i + 2] == 'u' && s[i + 3] == 'e' {
                Some((JsonVal::Bool(true), i + 4))
            } else {
                None
            }
        } else if c == 'f' {
            if i + 5 <= s.len() && s[i + 1] == 'a' && s[i + 2] == 'l' && s[i + 3] == 's' && s[i
                + 4] == 'e' {
                Some((JsonVal::Bool(false), i + 5))
            } else {
                None
            }
        } else if c == '"' {
            match parse_string_body(s, i + 1) {
                None => None,
                Some((body, j)) => Some((JsonVal::Str(body), j)),
            }
        } else if c == '-' || is_digit(c) {
            match num_end(s, i) {
                None => None,
                Some(j) => Some((JsonVal::Num(s.subrange(i, j)), j)),
            }
        } else if c == '[' {
            let j = skip_ws(s, i + 1);
            if j < s.len() && s[j] == ']' {
                Some((JsonVal::Arr(Seq::empty()), j + 1))
            } else if j <= i {
                None
            } else {
                match parse_elems(s, j, (depth - 1) as u32) {
                    None => None,
                    Some((elems, k)) => Some((JsonVal::Arr(elems), k)),
                }
            }
        } else if c == '{' {
            let j = skip_ws(s, i + 1);
            if j < s.len() && s[j] == '}' {
                Some((JsonVal::Obj(Seq::empty()), j + 1))
            } else if j <= i {
                None
            } else {
                match parse_members(s, j, (depth - 1) as u32) {
                    None => None,
                    Some((members, k)) => Some((JsonVal::Obj(members), k)),
                }
            }
        } else {
            None
        }
    }
}

/// The elements of an array from the start of its first element up to and
/// including the closing bracket.
pub open spec fn parse_elems(s: Seq<char>, i: int, depth: u32) -> Option<(Seq<JsonVal>, int)>
    decreases depth, s.len() - i, 1int,
    via parse_elems_dec
{
    match parse_value(s, i, depth) {
        None => None,
        Some((v, j)) => {
            if j <= i {
                None
            } else {
                let k = skip_ws(s, j);
                if k < s.len() && s[k] == ',' {
                    let m = skip_ws(s, k + 1);
                    if m <= i {
                        None
                    } else {
                        match parse_elems(s, m, depth) {
                            None => None,
                            Some((rest, e)) => Some((seq![v] + rest, e)),
                        }
                    }
                } else if k < s.len() && s[k] == ']' {
                    Some((seq![v], k + 1))
                } else {
                    None
                }
            }
        },
    }
}

#[via_fn]
proof fn parse_elems_dec(s: Seq<char>, i: int, depth: u32) {
    lemma_skip_ws_facts(s);
}

/// The members of an object from the start of its first key up to and
/// including the closing brace.
pub open spec fn parse_members(s: Seq<char>, i: int, depth: u32) -> Option<
    (Seq<(Seq<char>, JsonVal)>, int),
>
    decreases depth, s.len() - i, 1int,
    via parse_members_dec
{
    if i < s.len() && s[i] == '"' {
        match parse_string_body(s, i + 1) {
            None => None,
            Some((key, j)) => {
                if j <= i {
                    None
                } else {
                    let k = skip_ws(s, j);
                    if k < s.len() && s[k] == ':' {
                        let m = skip_ws(s, k + 1);
                        if m < i {
                            None
                        } else {
                            match parse_value(s, m, depth) {
                                None => None,
                                Some((v, e)) => {
                                    if e <= i {
                                        None
                                    } else {
                                        let p = skip_ws(s, e);
                                        if p < s.len() && s[p] == ',' {
                                            let q = skip_ws(s, p + 1);
                                            if q <= i {
                                                None
                                            } else {
                                                match parse_members(s, q, depth) {
                                                    None => None,
                                                    Some((rest, z)) => Some(
                                                        (seq![(key, v)] + rest, z),
                                                    ),
                                                }
                                            }
                                        } else if p < s.len() && s[p] == '}' {
                                            Some((seq![(key, v)], p + 1))
                                        } else {
                                            None
                                        }
                                    }
                                },
                            }
                        }
                    } else {
                        None
                    }
                }
            },
        }
    } else {
        None
    }
}

#[via_fn]
proof fn parse_members_dec(s: Seq<char>, i: int, depth: u32) {
    lemma_skip_ws_facts(s);
}

/// One whole JSON text: optional whitespace, one value, optional
/// whitespace, and nothing else.
pub open spec fn json_parse_spec(s: Seq<char>) -> Option<JsonVal> {
    let i = skip_ws(s, 0);
    match parse_value(s, i, MAX_JSON_DEPTH) {
        None => None,
        Some((v, j)) => if skip_ws(s, j) == s.len() {
            Some(v)
        } else {
            None
        },
    }
}

fn is_json_ws_exec(c: char) -> (r: bool)
    ensures
        r == is_json_ws(c),
{
    c == ' ' || c == '\t' || c == '\n' || c == '\r'
}

fn skip_ws_exec(cs: &Vec<char>, i: usize) -> (r: usize)
    requires
        i <= cs@.len(),
    ensures
        r as int == skip_ws(cs@, i as int),
        i <= r <= cs@.len(),
{
    let n = cs.len();
    let mut r: usize = i;
    while r < n && is_json_ws_exec(cs[r])
        invariant
            i <= r <= n,
            n == cs@.len(),
            skip_ws(cs@, i as int) == skip_ws(cs@, r as int),
        decreases n - r,
    {
        r = r + 1;
    }
    r
}

fn is_digit_exec(c: char) -> (r: bool)
    ensures
        r == is_digit(c),
{
    '0' <= c && c <= '9'
}

fn is_hex_exec(c: char) -> (r: bool)
    ensures
        r == is_hex(c),
{
    is_digit_exec(c) || ('a' <= c && c <= 'f') || ('A' <= c && c <= 'F')
}

fn hex_val_exec(c: char) -> (r: u32)
    requires
        is_hex(c),
    ensures
        r as int == hex_val(c),
        r < 16,
{
    if '0' <= c && c <= '9' {
        c as u32 - '0' as u32
    } else if 'a' <= c && c <= 'f' {
        c as u32 - 'a' as u32 + 10
    } else {
        c as u32 - 'A' as u32 + 10
    }
}

fn hex4_exec(cs: &Vec<char>, i: usize) -> (r: Option<u32>)
    requires
        i <= cs@.len(),
    ensures
        r matches Some(v) ==> hex4(cs@, i as int) == Some(v as int) && i + 4 <= cs@.len(),
        r is None ==> hex4(cs@, i as int) is None,
{
    let n = cs.len();
    if n - i >= 4 && is_hex_exec(cs[i]) && is_hex_exec(cs[i + 1]) && is_hex_exec(cs[i + 2])
        && is_hex_exec(cs[i + 3]) {
        Some(
            hex_val_exec(cs[i]) * 4096 + hex_val_exec(cs[i + 1]) * 256 + hex_val_exec(cs[i + 2])
                * 16 + hex_val_exec(cs[i + 3]),
        )
    } else {
        None
    }
}

fn digits_end_exec(cs: &Vec<char>, i: usize) -> (r: usize)
    requires
        i <= cs@.len(),
    ensures
        r as int == digits_end(cs@, i as int),
        i <= r <= cs@.len(),
{
    let n = cs.len();
    let mut r: usize = i;
    while r < n && is_digit_exec(cs[r])
        invariant
            i <= r <= n,
            n == cs@.len(),
            digits_end(cs@, i as int) == digits_end(cs@, r as int),
        decreases n - r,
    {
        r = r + 1;
    }
    r
}

fn int_end_exec(cs: &Vec<char>, i: usize) -> (r: Option<usize>)
    requires
        i <= cs@.len(),
    ensures
        r matches Some(k) ==> int_end(cs@, i as int) == Some(k as int) && i <= k <= cs@.len(),
        r is None ==> int_end(cs@, i as int) is None,
{
    let n = cs.len();
    if i < n && cs[i] == '0' {
        Some(i + 1)
    } else if i < n && is_digit_exec(cs[i]) {
        Some(digits_end_exec(cs, i))
    } else {
        None
    }
}

fn frac_end_exec(cs: &Vec<char>, i: usize) -> (r: Option<usize>)
    requires
        i <= cs@.len(),
    ensures
        r matches Some(k) ==> frac_end(cs@, i as int) == Some(k as int) && i <= k <= cs@.len(),
        r is None ==> frac_end(cs@, i as int) is None,
{
    let n = cs.len();
    if i < n && cs[i] == '.' {
        if n - i >= 2 && is_digit_exec(cs[i + 1]) {
            Some(digits_end_exec(cs, i + 1))
        } else {
            None
        }
    } else {
        Some(i)
    }
}

fn exp_end_exec(cs: &Vec<char>, i: usize) -> (r: Option<usize>)
    requires
        i <= cs@.len(),
    ensures
        r matches Some(k) ==> exp_end(cs@, i as int) == Some(k as int) && i <= k <= cs@.len(),
        r is None ==> exp_end(cs@, i as int) is None,
{
    let n = cs.len();
    if i < n && (cs[i] == 'e' || cs[i] == 'E') {
        let j: usize = if n - i >= 2 && (cs[i + 1] == '+' || cs[i + 1] == '-') {
            i + 2
        } else {
            i + 1
        };
        if j < n && is_digit_exec(cs[j]) {
            Some(digits_end_exec(cs, j))
        } else {
            None
        }
    } else {
        Some(i)
    }
}

fn num_end_exec(cs: &Vec<char>, i: usize) -> (r: Option<usize>)
    requires
        i <= cs@.len(),
    ensures
        r matches Some(j) ==> num_end(cs@, i as int) == Some(j as int) && i <= j <= cs@.len(),
        r is None ==> num_end(cs@, i as int) is None,
{
    let n = cs.len();
    let j: usize = if i < n && cs[i] == '-' {
        i + 1
    } else {
        i
    };
    match int_end_exec(cs, j) {
        None => None,
        Some(k) => match frac_end_exec(cs, k) {
            None => None,
            Some(m) => exp_end_exec(cs, m),
        },
    }
}

fn parse_string_body_exec(cs: &Vec<char>, i: usize) -> (r: Option<(Vec<char>, usize)>)
    requires
        i <= cs@.len(),
    ensures
        r matches Some(p) ==> parse_string_body(cs@, i as int) == Some((p.0@, p.1 as int)) && p.1
            <= cs@.len(),
        r is None ==> parse_string_body(cs@, i as int) is None,
    decreases cs@.len() - i,
{
    let n = cs.len();
    if i >= n {
        None
    } else {
        let c = cs[i];
        if c == '"' {
            let empty: Vec<char> = Vec::new();
            proof {
                assert(empty@ =~= Seq::<char>::empty());
            }
            Some((empty, i + 1))
        } else if c == '\\' {
            if n - i < 2 {
                None
            } else {
                let e = cs[i + 1];
                if e == 'u' {
                    match hex4_exec(cs, i + 2) {
                        None => None,
                        Some(code) => {
                            if 0xD800 <= code && code < 0xDC00 {
                                if n - i >= 12 && cs[i + 6] == '\\' && cs[i + 7] == 'u' {
                                    match hex4_exec(cs, i + 8) {
                                        None => None,
                                        Some(low) => {
                                            if 0xDC00 <= low && low < 0xE000 {
                                                let cp: u32 = 0x10000 + (code - 0xD800) * 0x400 + (
                                                low - 0xDC00);
                                                match parse_string_body_exec(cs, i + 12) {
                                                    None => None,
                                                    Some((mut rest, j)) => {
                                                        let och = crate::text::char_from_u32(cp);
                                                        match och {
                                                            Some(ch) => {
                                                                proof {
                                                                    lemma_char_code(ch, cp);
                                                                    assert(rest@.insert(0, ch)
                                                                        =~= seq![ch] + rest@);
                                                                }
                                                                rest.insert(0, ch);
                                                                Some((rest, j))
                                                            },
                                                            None => vstd::pervasive::unreached(),
                                                        }
                                                    },
                                                }
                                            } else {
                                                None
                                            }
                                        },
                                    }
                                } else {
                                    None
                                }
                            } else if 0xDC00 <= code && code < 0xE000 {
                                None
                            } else {
                                match parse_string_body_exec(cs, i + 6) {
                                    None => None,
                                    Some((mut rest, j)) => {
                                        let och = crate::text::char_from_u32(code);
                                        match och {
                                            Some(ch) => {
                                                proof {
                                                    lemma_char_code(ch, code);
                                                    assert(rest@.insert(0, ch) =~= seq![ch]
                                                        + rest@);
                                                }
                                                rest.insert(0, ch);
                                                Some((rest, j))
                                            },
                                            None => vstd::pervasive::unreached(),
                                        }
                                    },
                                }
                            }
                        },
                    }
                } else {
                    let dc: Option<char> = if e == '"' {
                        Some('"')
                    } else if e == '\\' {
                        Some('\\')
                    } else if e == '/' {
                        Some('/')
                    } else if e == 'b' {
                        Some('\u{8}')
                    } else if e == 'f' {
                        Some('\u{c}')
                    } else if e == 'n' {
                        Some('\n')
                    } else if e == 'r' {
                        Some('\r')
                    } else if e == 't' {
                        Some('\t')
                    } else {
                        None
                    };
                    match dc {
                        None => None,
                        Some(d) => match parse_string_body_exec(cs, i + 2) {
                            None => None,
                            Some((mut rest, j)) => {
                                proof {
                                    assert(rest@.insert(0, d) =~= seq![d] + rest@);
                                }
                                rest.insert(0, d);
                                Some((rest, j))
                            },
                        },
                    }
                }
            }
        } else if (c as u32) < 0x20 {
            None
        } else {
            match parse_string_body_exec(cs, i + 1) {
                None => None,
                Some((mut rest, j)) => {
                    proof {
                        assert(rest@.insert(0, c) =~= seq![c] + rest@);
                    }
                    rest.insert(0, c);
                    Some((rest, j))
                },
            }
        }
    }
}

fn parse_value_exec(cs: &Vec<char>, i: usize, depth: u32) -> (r: Option<(JsonValue, usize)>)
    requires
        i <= cs@.len(),
    ensures
        r matches Some(p) ==> parse_value(cs@, i as int, depth) == Some((p.0@, p.1 as int)) && p.1
            <= cs@.len(),
        r is None ==> parse_value(cs@, i as int, depth) is None,
    decreases depth, cs@.len() - i, 0int,
{
    let n = cs.len();
    if depth == 0 || i >= n {
        None
    } else {
        let c = cs[i];
        if c == 'n' {
            if n - i >= 4 && cs[i + 1] == 'u' && cs[i + 2] == 'l' && cs[i + 3] == 'l' {
                Some((JsonValue::Null, i + 4))
            } else {
                None
            }
        } else if c == 't' {
            if n - i >= 4 && cs[i + 1] == 'r' && cs[i + 2] == 'u' && cs[i + 3] == 'e' {
                Some((JsonValue::Bool(true), i + 4))
            } else {
                None
            }
        } else if c == 'f' {
            if n - i >= 5 && cs[i + 1] == 'a' && cs[i + 2] == 'l' && cs[i + 3] == 's' && cs[i + 4]
                == 'e' {
                Some((JsonValue::Bool(false), i + 5))
            } else {
                None
            }
        } else if c == '"' {
            match parse_string_body_exec(cs, i + 1) {
                None => None,
                Some((body, j)) => Some((JsonValue::Str(crate::text::string_of(&body)), j)),
            }
        } else if c == '-' || is_digit_exec(c) {
            match num_end_exec(cs, i) {
                None => None,
                Some(j) => {
                    let token = crate::text::copy_range(cs, i, j);
                    Some((JsonValue::Num(crate::text::string_of(&token)), j))
                },
            }
        } else if c == '[' {
            let j = skip_ws_exec(cs, i + 1);
            if j < n && cs[j] == ']' {
                let empty: Vec<JsonValue> = Vec::new();
                proof {
                    assert(jval_seq(empty@) =~= Seq::<JsonVal>::empty());
                }
                Some((JsonValue::Arr(empty), j + 1))
            } else if j <= i {
                None
            } else {
                match parse_elems_exec(cs, j, depth - 1) {
                    None => None,
                    Some((elems, k)) => Some((JsonValue::Arr(elems), k)),
                }
            }
        } else if c == '{' {
            let j = skip_ws_exec(cs, i + 1);
            if j < n && cs[j] == '}' {
                let empty: Vec<(String, JsonValue)> = Vec::new();
                proof {
                    assert(jval_pairs(empty@) =~= Seq::<(Seq<char>, JsonVal)>::empty());
                }
                Some((JsonValue::Obj(empty), j + 1))
            } else if j <= i {
                None
            } else {
                match parse_members_exec(cs, j, depth - 1) {
                    None => None,
                    Some((members, k)) => Some((JsonValue::Obj(members), k)),
                }
            }
        } else {
            None
        }
    }
}

fn parse_elems_exec(cs: &Vec<char>, i: usize, depth: u32) -> (r: Option<(Vec<JsonValue>, usize)>)
    requires
        i <= cs@.len(),
    ensures
        r matches Some(p) ==> parse_elems(cs@, i as int, depth) == Some((jval_seq(p.0@), p.1 as int))
            && p.1 <= cs@.len(),
        r is None ==> parse_elems(cs@, i as int, depth) is None,
    decreases depth, cs@.len() - i, 1int,
{
    let n = cs.len();
    match parse_value_exec(cs, i, depth) {
        None => None,
        Some((v, j)) => {
            if j <= i {
                None
            } else {
                let k = skip_ws_exec(cs, j);
                if k < n && cs[k] == ',' {
                    let m = skip_ws_exec(cs, k + 1);
                    if m <= i {
                        None
                    } else {
                        match parse_elems_exec(cs, m, depth) {
                            None => None,
                            Some((mut rest, e)) => {
                                proof {
                                    crate::json::lemma_jval_seq_prepend(v, rest@);
                                    assert(rest@.insert(0, v) =~= seq![v] + rest@);
                                }
                                rest.insert(0, v);
                                Some((rest, e))
                            },
                        }
                    }
                } else if k < n && cs[k] == ']' {
                    let mut one: Vec<JsonValue> = Vec::new();
                    one.push(v);
                    proof {
                        assert(one@.drop_last() =~= Seq::<JsonValue>::empty());
                        assert(one@.last() == v);
                        assert(jval_seq(Seq::<JsonValue>::empty()) == Seq::<JsonVal>::empty());
                        assert(jval_seq(one@) =~= seq![v@]);
                    }
                    Some((one, k + 1))
                } else {
                    None
                }
            }
        },
    }
}

fn parse_members_exec(cs: &Vec<char>, i: usize, depth: u32) -> (r: Option<
    (Vec<(String, JsonValue)>, usize),
>)
    requires
        i <= cs@.len(),
    ensures
        r matches Some(p) ==> parse_members(cs@, i as int, depth) == Some(
            (jval_pairs(p.0@), p.1 as int),
        ) && p.1 <= cs@.len(),
        r is None ==> parse_members(cs@, i as int, depth) is None,
    decreases depth, cs@.len() - i, 1int,
{
    let n = cs.len();
    if i < n && cs[i] == '"' {
        match parse_string_body_exec(cs, i + 1) {
            None => None,
            Some((key, j)) => {
                if j <= i {
                    None
                } else {
                    let k = skip_ws_exec(cs, j);
                    if k < n && cs[k] == ':' {
                        let m = skip_ws_exec(cs, k + 1);
                        if m < i {
                            None
                        } else {
                            match parse_value_exec(cs, m, depth) {
                                None => None,
                                Some((v, e)) => {
                                    if e <= i {
                                        None
                                    } else {
                                        let p = skip_ws_exec(cs, e);
                                        if p < n && cs[p] == ',' {
                                            let q = skip_ws_exec(cs, p + 1);
                                            if q <= i {
                                                None
                                            } else {
                                                match parse_members_exec(cs, q, depth) {
                                                    None => None,
                                                    Some((mut rest, z)) => {
                                                        let ks = crate::text::string_of(&key);
                                                        proof {
                                                            crate::json::lemma_jval_pairs_prepend(
                                                                (ks, v),
                                                                rest@,
                                                            );
                                                            assert(rest@.insert(0, (ks, v))
                                                                =~= seq![(ks, v)] + rest@);
                                                        }
                                                        rest.insert(0, (ks, v));
                                                        Some((rest, z))
                                                    },
                                                }
                                            }
                                        } else if p < n && cs[p] == '}' {
                                            let ks = crate::text::string_of(&key);
                                            let mut one: Vec<(String, JsonValue)> = Vec::new();
                                            one.push((ks, v));
                                            proof {
                                                assert(one@.drop_last() =~= Seq::<
                                                    (String, JsonValue),
                                                >::empty());
                                                assert(one@.last() == (ks, v));
                                                assert(jval_pairs(
                                                    Seq::<(String, JsonValue)>::empty(),
                                                ) == Seq::<(Seq<char>, JsonVal)>::empty());
                                                assert(jval_pairs(one@) =~= seq![(key@, v@)]);
                                            }
                                            Some((one, p + 1))
                                        } else {
                                            None
                                        }
                                    }
                                },
                            }
                        }
                    } else {
                        None
                    }
                }
            },
        }
    } else {
        None
    }
}

/// Read one whole JSON text into a value, or nothing if the text is not
/// JSON.
pub fn json_parse(text: &str) -> (r: Option<JsonValue>)
    ensures
        r matches Some(v) ==> json_parse_spec(text@) == Some(v@),
        r is None ==> json_parse_spec(text@) is None,
{
    let cs = crate::text::chars_of(text);
    let i = skip_ws_exec(&cs, 0);
    match parse_value_exec(&cs, i, MAX_JSON_DEPTH) {
        None => None,
        Some((v, j)) => {
            let e = skip_ws_exec(&cs, j);
            if e == cs.len() {
                Some(v)
            } else {
                None
            }
        },
    }
}

} // verus!
