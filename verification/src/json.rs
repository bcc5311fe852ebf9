//! A small JSON model: the values the hook protocol exchanges.
//!
//! Hook payloads are written to a child process as JSON text, and a hook's
//! answer is read back as JSON text. The library keeps JSON values as data
//! of its own so that building, printing and reading them is verified code.
//! Numbers are kept as their literal token, so nothing is rounded or lost;
//! objects keep their members in insertion order.

use vstd::prelude::*;

verus! {

broadcast use vstd::seq::group_seq_axioms, vstd::std_specs::vec::group_vec_axioms;

/// A JSON value as executable data.
#[derive(Debug, PartialEq, Eq)]
pub enum JsonValue {
    Null,
    Bool(bool),
    /// A number, kept as its literal token (for example `10_000` is `"10000"`).
    Num(String),
    Str(String),
    Arr(Vec<JsonValue>),
    Obj(Vec<(String, JsonValue)>),
}

/// The mathematical shape of a JSON value, used in contracts.
pub enum JsonVal {
    Null,
    Bool(bool),
    Num(Seq<char>),
    Str(Seq<char>),
    Arr(Seq<JsonVal>),
    Obj(Seq<(Seq<char>, JsonVal)>),
}

/// The abstraction of one executable JSON value.
pub open spec fn jval(v: JsonValue) -> JsonVal
    decreases v,
    via jval_dec
{
    match v {
        JsonValue::Null => JsonVal::Null,
        JsonValue::Bool(b) => JsonVal::Bool(b),
        JsonValue::Num(t) => JsonVal::Num(t@),
        JsonValue::Str(s) => JsonVal::Str(s@),
        JsonValue::Arr(a) => JsonVal::Arr(jval_seq(a@)),
        JsonValue::Obj(m) => JsonVal::Obj(jval_pairs(m@)),
    }
}

/// The abstraction of a sequence of elements.
pub open spec fn jval_seq(s: Seq<JsonValue>) -> Seq<JsonVal>
    decreases s,
{
    if s.len() <= 0 {
        Seq::empty()
    } else {
        jval_seq(s.drop_last()).push(jval(s.last()))
    }
}

/// The abstraction of a sequence of object members.
pub open spec fn jval_pairs(s: Seq<(String, JsonValue)>) -> Seq<(Seq<char>, JsonVal)>
    decreases s,
{
    if s.len() <= 0 {
        Seq::empty()
    } else {
        jval_pairs(s.drop_last()).push((s.last().0@, jval(s.last().1)))
    }
}

#[via_fn]
proof fn jval_dec(v: JsonValue) {
    match v {
        JsonValue::Arr(a) => {
            assert(decreases_to!(v => a));
            assert(decreases_to!(a => a@));
        },
        JsonValue::Obj(m) => {
            assert(decreases_to!(v => m));
            assert(decreases_to!(m => m@));
        },
        _ => {},
    }
}

impl View for JsonValue {
    type V = JsonVal;

    open spec fn view(&self) -> JsonVal {
        jval(*self)
    }
}

/// Copy a JSON value.
pub fn clone_json(v: &JsonValue) -> (r: JsonValue)
    ensures
        r@ == v@,
    decreases v,
{
    match v {
        JsonValue::Null => JsonValue::Null,
        JsonValue::Bool(b) => JsonValue::Bool(*b),
        JsonValue::Num(t) => JsonValue::Num(t.clone()),
        JsonValue::Str(s) => JsonValue::Str(s.clone()),
        JsonValue::Arr(a) => {
            let mut out: Vec<JsonValue> = Vec::new();
            let n = a.len();
            let mut i: usize = 0;
            while i < n
                invariant
                    0 <= i <= n,
                    n == a@.len(),
                    *v == JsonValue::Arr(*a),
                    decreases_to!(*v => *a),
                    out@.len() == i,
                    jval_seq(out@) =~= jval_seq(a@.subrange(0, i as int)),
                decreases n - i,
            {
                proof {
                    assert(decreases_to!(*v => *a));
                    assert(decreases_to!(*a => a@[i as int]));
                    assert(decreases_to!(*v => a@[i as int]));
                }
                let c = clone_json(&a[i]);
                proof {
                    lemma_jval_seq_push(out@, c);
                    lemma_jval_seq_push(a@.subrange(0, i as int), a@[i as int]);
                    assert(a@.subrange(0, i as int).push(a@[i as int]) =~= a@.subrange(0, i + 1));
                }
                out.push(c);
                i = i + 1;
            }
            proof {
                assert(a@.subrange(0, a@.len() as int) =~= a@);
            }
            JsonValue::Arr(out)
        },
        JsonValue::Obj(m) => {
            let mut out: Vec<(String, JsonValue)> = Vec::new();
            let n = m.len();
            let mut i: usize = 0;
            while i < n
                invariant
                    0 <= i <= n,
                    n == m@.len(),
                    *v == JsonValue::Obj(*m),
                    decreases_to!(*v => *m),
                    out@.len() == i,
                    jval_pairs(out@) =~= jval_pairs(m@.subrange(0, i as int)),
                decreases n - i,
            {
                proof {
                    assert(decreases_to!(*v => *m));
                    assert(decreases_to!(*m => m@[i as int]));
                    assert(decreases_to!(m@[i as int] => m@[i as int].1));
                    assert(decreases_to!(*v => m@[i as int].1));
                }
                let k = m[i].0.clone();
                let c = clone_json(&m[i].1);
                proof {
                    lemma_jval_pairs_push(out@, (k, c));
                    lemma_jval_pairs_push(m@.subrange(0, i as int), m@[i as int]);
                    assert(m@.subrange(0, i as int).push(m@[i as int]) =~= m@.subrange(0, i + 1));
                }
                out.push((k, c));
                i = i + 1;
            }
            proof {
                assert(m@.subrange(0, m@.len() as int) =~= m@);
            }
            JsonValue::Obj(out)
        },
    }
}

/// The hexadecimal digit for `n`, which must be below sixteen.
pub open spec fn hex_digit(n: int) -> char {
    if n == 0 {
        '0'
    } else if n == 1 {
        '1'
    } else if n == 2 {
        '2'
    } else if n == 3 {
        '3'
    } else if n == 4 {
        '4'
    } else if n == 5 {
        '5'
    } else if n == 6 {
        '6'
    } else if n == 7 {
        '7'
    } else if n == 8 {
        '8'
    } else if n == 9 {
        '9'
    } else if n == 10 {
        'a'
    } else if n == 11 {
        'b'
    } else if n == 12 {
        'c'
    } else if n == 13 {
        'd'
    } else if n == 14 {
        'e'
    } else {
        'f'
    }
}

/// How one character is written inside a JSON string literal: quotes and
/// backslashes are escaped, control characters use their short escape or a
/// `\u00..` escape, and everything else stands as itself.
pub open spec fn escape_char(c: char) -> Seq<char> {
    if c == '"' {
        seq!['\\', '"']
    } else if c == '\\' {
        seq!['\\', '\\']
    } else if c == '\u{8}' {
        seq!['\\', 'b']
    } else if c == '\u{c}' {
        seq!['\\', 'f']
    } else if c == '\n' {
        seq!['\\', 'n']
    } else if c == '\r' {
        seq!['\\', 'r']
    } else if c == '\t' {
        seq!['\\', 't']
    } else if (c as u32) < 0x20 {
        seq!['\\', 'u', '0', '0', hex_digit((c as u32) as int / 16), hex_digit((c as u32) as int % 16)]
    } else {
        seq![c]
    }
}

/// A whole string escaped, character by character.
pub open spec fn escape_str(s: Seq<char>) -> Seq<char>
    decreases s.len(),
{
    if s.len() <= 0 {
        Seq::empty()
    } else {
        escape_str(s.drop_last()) + escape_char(s.last())
    }
}

/// The text of a JSON value, exactly as the library prints it: compact,
/// members and elements in order, strings escaped as `escape_char` says.
pub open spec fn json_text(v: JsonVal) -> Seq<char>
    decreases v,
{
    match v {
        JsonVal::Null => seq!['n', 'u', 'l', 'l'],
        JsonVal::Bool(b) => if b {
            seq!['t', 'r', 'u', 'e']
        } else {
            seq!['f', 'a', 'l', 's', 'e']
        },
        JsonVal::Num(t) => t,
        JsonVal::Str(s) => seq!['"'] + escape_str(s) + seq!['"'],
        JsonVal::Arr(a) => seq!['['] + json_text_elems(a) + seq![']'],
        JsonVal::Obj(m) => seq!['{'] + json_text_members(m) + seq!['}'],
    }
}

/// The comma-separated texts of array elements.
pub open spec fn json_text_elems(a: Seq<JsonVal>) -> Seq<char>
    decreases a,
{
    if a.len() <= 0 {
        Seq::empty()
    } else if a.len() == 1 {
        json_text(a[0])
    } else {
        json_text_elems(a.drop_last()) + seq![','] + json_text(a.last())
    }
}

/// The comma-separated texts of object members.
pub open spec fn json_text_members(m: Seq<(Seq<char>, JsonVal)>) -> Seq<char>
    decreases m,
{
    if m.len() <= 0 {
        Seq::empty()
    } else if m.len() == 1 {
        json_text_member(m[0])
    } else {
        json_text_members(m.drop_last()) + seq![','] + json_text_member(m.last())
    }
}

/// The text of one object member: quoted escaped key, colon, value.
pub open spec fn json_text_member(kv: (Seq<char>, JsonVal)) -> Seq<char>
    decreases kv,
{
    seq!['"'] + escape_str(kv.0) + seq!['"', ':'] + json_text(kv.1)
}

fn hex_digit_exec(n: u32) -> (r: char)
    requires
        n < 16,
    ensures
        r == hex_digit(n as int),
{
    if n == 0 {
        '0'
    } else if n == 1 {
        '1'
    } else if n == 2 {
        '2'
    } else if n == 3 {
        '3'
    } else if n == 4 {
        '4'
    } else if n == 5 {
        '5'
    } else if n == 6 {
        '6'
    } else if n == 7 {
        '7'
    } else if n == 8 {
        '8'
    } else if n == 9 {
        '9'
    } else if n == 10 {
        'a'
    } else if n == 11 {
        'b'
    } else if n == 12 {
        'c'
    } else if n == 13 {
        'd'
    } else if n == 14 {
        'e'
    } else {
        'f'
    }
}

/// Append the escape of one character.
fn write_escaped_char(c: char, out: &mut Vec<char>)
    ensures
        final(out)@ == old(out)@ + escape_char(c),
{
    if c == '"' {
        out.push('\\');
        out.push('"');
    } else if c == '\\' {
        out.push('\\');
        out.push('\\');
    } else if c == '\u{8}' {
        out.push('\\');
        out.push('b');
    } else if c == '\u{c}' {
        out.push('\\');
        out.push('f');
    } else if c == '\n' {
        out.push('\\');
        out.push('n');
    } else if c == '\r' {
        out.push('\\');
        out.push('r');
    } else if c == '\t' {
        out.push('\\');
        out.push('t');
    } else if (c as u32) < 0x20 {
        out.push('\\');
        out.push('u');
        out.push('0');
        out.push('0');
        out.push(hex_digit_exec((c as u32) / 16));
        out.push(hex_digit_exec((c as u32) % 16));
    } else {
        out.push(c);
    }
    proof {
        assert(final(out)@ =~= old(out)@ + escape_char(c));
    }
}

/// Append a whole string in escaped form.
fn write_escaped_str(s: &str, out: &mut Vec<char>)
    ensures
        final(out)@ == old(out)@ + escape_str(s@),
{
    let cs = crate::text::chars_of(s);
    let n = cs.len();
    let mut i: usize = 0;
    while i < n
        invariant
            0 <= i <= n,
            n == cs@.len(),
            cs@ == s@,
            out@ == old(out)@ + escape_str(cs@.subrange(0, i as int)),
        decreases n - i,
    {
        write_escaped_char(cs[i], out);
        proof {
            assert(cs@.subrange(0, i + 1).drop_last() =~= cs@.subrange(0, i as int));
            assert(cs@.subrange(0, i + 1).last() == cs@[i as int]);
            assert(out@ =~= old(out)@ + escape_str(cs@.subrange(0, i + 1)));
        }
        i = i + 1;
    }
    proof {
        assert(cs@.subrange(0, n as int) =~= cs@);
    }
}

/// Append the text of a JSON value.
fn write_json(v: &JsonValue, out: &mut Vec<char>)
    ensures
        final(out)@ == old(out)@ + json_text(v@),
    decreases v,
{
    match v {
        JsonValue::Null => {
            out.push('n');
            out.push('u');
            out.push('l');
            out.push('l');
            proof {
                assert(final(out)@ =~= old(out)@ + json_text(v@));
            }
        },
        JsonValue::Bool(b) => {
            if *b {
                out.push('t');
                out.push('r');
                out.push('u');
                out.push('e');
            } else {
                out.push('f');
                out.push('a');
                out.push('l');
                out.push('s');
                out.push('e');
            }
            proof {
                assert(final(out)@ =~= old(out)@ + json_text(v@));
            }
        },
        JsonValue::Num(t) => {
            let cs = crate::text::chars_of(t.as_str());
            let n = cs.len();
            let mut i: usize = 0;
            while i < n
                invariant
                    0 <= i <= n,
                    n == cs@.len(),
                    cs@ == t@,
                    out@ == old(out)@ + cs@.subrange(0, i as int),
                decreases n - i,
            {
                out.push(cs[i]);
                proof {
                    assert(out@ =~= old(out)@ + cs@.subrange(0, i + 1));
                }
                i = i + 1;
            }
            proof {
                assert(cs@.subrange(0, n as int) =~= cs@);
                assert(out@ =~= old(out)@ + json_text(v@));
            }
        },
        JsonValue::Str(s) => {
            out.push('"');
            write_escaped_str(s.as_str(), out);
            out.push('"');
            proof {
                assert(final(out)@ =~= old(out)@ + json_text(v@));
            }
        },
        JsonValue::Arr(a) => {
            out.push('[');
            let n = a.len();
            let mut i: usize = 0;
            while i < n
                invariant
                    0 <= i <= n,
                    n == a@.len(),
                    *v == JsonValue::Arr(*a),
                    decreases_to!(*v => *a),
                    out@ == old(out)@ + seq!['['] + json_text_elems(jval_seq(a@.subrange(0, i as int))),
                decreases n - i,
            {
                if i > 0 {
                    out.push(',');
                }
                proof {
                    assert(decreases_to!(*v => *a));
                    assert(decreases_to!(*a => a@[i as int]));
                    assert(decreases_to!(*v => a@[i as int]));
                }
                write_json(&a[i], out);
                proof {
                    lemma_jval_seq_push(a@.subrange(0, i as int), a@[i as int]);
                    assert(a@.subrange(0, i as int).push(a@[i as int]) =~= a@.subrange(0, i + 1));
                    let prev = jval_seq(a@.subrange(0, i as int));
                    let cur = jval_seq(a@.subrange(0, i + 1));
                    assert(cur == prev.push(jval(a@[i as int])));
                    assert(cur.drop_last() =~= prev);
                    assert(cur.last() == jval(a@[i as int]));
                    if i == 0 {
                        assert(cur.len() == 1);
                        assert(cur[0] == jval(a@[0]));
                        assert(json_text_elems(cur) == json_text(jval(a@[0])));
                        assert(out@ =~= old(out)@ + seq!['['] + json_text_elems(cur));
                    } else {
                        assert(json_text_elems(cur) == json_text_elems(prev) + seq![','] + json_text(
                            jval(a@[i as int]),
                        ));
                        assert(out@ =~= old(out)@ + seq!['['] + json_text_elems(cur));
                    }
                }
                i = i + 1;
            }
            out.push(']');
            proof {
                assert(a@.subrange(0, n as int) =~= a@);
                assert(final(out)@ =~= old(out)@ + json_text(v@));
            }
        },
        JsonValue::Obj(m) => {
            out.push('{');
            let n = m.len();
            let mut i: usize = 0;
            while i < n
                invariant
                    0 <= i <= n,
                    n == m@.len(),
                    *v == JsonValue::Obj(*m),
                    decreases_to!(*v => *m),
                    out@ == old(out)@ + seq!['{'] + json_text_members(
                        jval_pairs(m@.subrange(0, i as int)),
                    ),
                decreases n - i,
            {
                if i > 0 {
                    out.push(',');
                }
                out.push('"');
                write_escaped_str(m[i].0.as_str(), out);
                out.push('"');
                out.push(':');
                proof {
                    assert(decreases_to!(*v => *m));
                    assert(decreases_to!(*m => m@[i as int]));
                    assert(decreases_to!(m@[i as int] => m@[i as int].1));
                    assert(decreases_to!(*v => m@[i as int].1));
                }
                write_json(&m[i].1, out);
                proof {
                    lemma_jval_pairs_push(m@.subrange(0, i as int), m@[i as int]);
                    assert(m@.subrange(0, i as int).push(m@[i as int]) =~= m@.subrange(0, i + 1));
                    let prev = jval_pairs(m@.subrange(0, i as int));
                    let cur = jval_pairs(m@.subrange(0, i + 1));
                    assert(cur == prev.push((m@[i as int].0@, jval(m@[i as int].1))));
                    assert(cur.drop_last() =~= prev);
                    let kv = (m@[i as int].0@, jval(m@[i as int].1));
                    assert(cur.last() == kv);
                    if i == 0 {
                        assert(cur.len() == 1);
                        assert(cur[0] == kv);
                        assert(json_text_members(cur) == json_text_member(kv));
                        assert(out@ =~= old(out)@ + seq!['{'] + json_text_members(cur));
                    } else {
                        assert(json_text_members(cur) == json_text_members(prev) + seq![',']
                            + json_text_member(kv));
                        assert(out@ =~= old(out)@ + seq!['{'] + json_text_members(cur));
                    }
                }
                i = i + 1;
            }
            out.push('}');
            proof {
                assert(m@.subrange(0, n as int) =~= m@);
                assert(final(out)@ =~= old(out)@ + json_text(v@));
            }
        },
    }
}

/// The abstraction of a sequence has the same length and abstracts each
/// element in place.
pub proof fn lemma_jval_seq_props(s: Seq<JsonValue>)
    ensures
        jval_seq(s).len() == s.len(),
        forall|i: int| 0 <= i < s.len() ==> jval_seq(s)[i] == jval(s[i]),
    decreases s.len(),
{
    if s.len() > 0 {
        lemma_jval_seq_props(s.drop_last());
    }
}

/// The abstraction of a member sequence has the same length and abstracts
/// each member in place.
pub proof fn lemma_jval_pairs_props(s: Seq<(String, JsonValue)>)
    ensures
        jval_pairs(s).len() == s.len(),
        forall|i: int| 0 <= i < s.len() ==> jval_pairs(s)[i] == (s[i].0@, jval(s[i].1)),
    decreases s.len(),
{
    if s.len() > 0 {
        lemma_jval_pairs_props(s.drop_last());
    }
}

/// Abstraction distributes over putting an element in front.
pub proof fn lemma_jval_seq_prepend(x: JsonValue, s: Seq<JsonValue>)
    ensures
        jval_seq(seq![x] + s) == seq![jval(x)] + jval_seq(s),
    decreases s.len(),
{
    if s.len() == 0 {
        assert(seq![x] + s =~= seq![x]);
        assert((seq![x]).drop_last() =~= Seq::<JsonValue>::empty());
        assert((seq![x]).last() == x);
        assert(jval_seq(Seq::<JsonValue>::empty()) == Seq::<JsonVal>::empty());
        assert(jval_seq(seq![x]) == Seq::<JsonVal>::empty().push(jval(x)));
        assert(jval_seq(seq![x] + s) =~= seq![jval(x)] + jval_seq(s));
    } else {
        lemma_jval_seq_prepend(x, s.drop_last());
        assert((seq![x] + s).drop_last() =~= seq![x] + s.drop_last());
        assert((seq![x] + s).last() == s.last());
        assert(jval_seq(seq![x] + s) =~= seq![jval(x)] + jval_seq(s));
    }
}

/// Abstraction distributes over putting a member in front.
pub proof fn lemma_jval_pairs_prepend(x: (String, JsonValue), s: Seq<(String, JsonValue)>)
    ensures
        jval_pairs(seq![x] + s) == seq![(x.0@, jval(x.1))] + jval_pairs(s),
    decreases s.len(),
{
    if s.len() == 0 {
        assert(seq![x] + s =~= seq![x]);
        assert((seq![x]).drop_last() =~= Seq::<(String, JsonValue)>::empty());
        assert((seq![x]).last() == x);
        assert(jval_pairs(Seq::<(String, JsonValue)>::empty()) == Seq::<(Seq<char>, JsonVal)>::empty());
        assert(jval_pairs(seq![x]) == Seq::<(Seq<char>, JsonVal)>::empty().push((x.0@, jval(x.1))));
        assert(jval_pairs(seq![x] + s) =~= seq![(x.0@, jval(x.1))] + jval_pairs(s));
    } else {
        lemma_jval_pairs_prepend(x, s.drop_last());
        assert((seq![x] + s).drop_last() =~= seq![x] + s.drop_last());
        assert((seq![x] + s).last() == s.last());
        assert(jval_pairs(seq![x] + s) =~= seq![(x.0@, jval(x.1))] + jval_pairs(s));
    }
}

/// Abstraction distributes over appending an element.
pub proof fn lemma_jval_seq_push(s: Seq<JsonValue>, x: JsonValue)
    ensures
        jval_seq(s.push(x)) == jval_seq(s).push(jval(x)),
{
    assert(s.push(x).drop_last() =~= s);
    assert(s.push(x).last() == x);
}

/// Abstraction distributes over appending a member.
pub proof fn lemma_jval_pairs_push(s: Seq<(String, JsonValue)>, x: (String, JsonValue))
    ensures
        jval_pairs(s.push(x)) == jval_pairs(s).push((x.0@, jval(x.1))),
{
    assert(s.push(x).drop_last() =~= s);
    assert(s.push(x).last() == x);
}

/// Print a JSON value as compact text.
pub fn to_text(v: &JsonValue) -> (r: String)
    ensures
        r@ == json_text(v@),
{
    let mut out: Vec<char> = Vec::new();
    write_json(v, &mut out);
    crate::text::string_of(&out)
}

} // verus!
