//! A small verified JSON writer: string escaping, string arrays, and
//! objects of string pairs, exactly as the body-injection pass emits them.

use vstd::prelude::*;
use crate::config::PairSeq;

verus! {

/// The hexadecimal digit for `n` (0 to 15).
pub open spec fn hex_digit(n: int) -> char {
    if n == 0 {
        '0'
    } else if n == 1 {
        '1'
    } else if n == 2 {
        '2'
    } else if n == 3 {
        '3'
    } else if n == 4 {
        '4'
    } else if n == 5 {
        '5'
    } else if n == 6 {
        '6'
    } else if n == 7 {
        '7'
    } else if n == 8 {
        '8'
    } else if n == 9 {
        '9'
    } else if n == 10 {
        'a'
    } else if n == 11 {
        'b'
    } else if n == 12 {
        'c'
    } else if n == 13 {
        'd'
    } else if n == 14 {
        'e'
    } else {
        'f'
    }
}

/// How one character appears inside a JSON string literal.
pub open spec fn json_escape_char(c: char) -> Seq<char> {
    if c == '"' {
        seq!['\\', '"']
    } else if c == '\\' {
        seq!['\\', '\\']
    } else if c == '\u{8}' {
        seq!['\\', 'b']
    } else if c == '\u{c}' {
        seq!['\\', 'f']
    } else if c == '\n' {
        seq!['\\', 'n']
    } else if c == '\r' {
        seq!['\\', 'r']
    } else if c == '\t' {
        seq!['\\', 't']
    } else if (c as u32) < 32 {
        seq!['\\', 'u', '0', '0', hex_digit((c as u32) as int / 16), hex_digit((c as u32) as int % 16)]
    } else {
        seq![c]
    }
}

/// `s` with every character escaped for a JSON string literal.
pub open spec fn json_escaped(s: Seq<char>) -> Seq<char>
    decreases s.len(),
{
    if s.len() == 0 {
        Seq::<char>::empty()
    } else {
        json_escape_char(s[0]) + json_escaped(s.drop_first())
    }
}

/// Escaping one more character appends its escape.
proof fn lemma_json_escaped_snoc(s: Seq<char>, c: char)
    ensures
        json_escaped(s.push(c)) == json_escaped(s) + json_escape_char(c),
    decreases s.len(),
{
    if s.len() == 0 {
        let pushed = s.push(c);
        assert(pushed.drop_first() =~= Seq::<char>::empty());
        assert(pushed[0] == c);
        assert(json_escaped(Seq::<char>::empty()) == Seq::<char>::empty());
        assert(json_escape_char(c) + Seq::<char>::empty() =~= json_escape_char(c));
        assert(json_escaped(s) + json_escape_char(c) =~= json_escape_char(c));
    } else {
        lemma_json_escaped_snoc(s.drop_first(), c);
        assert(s.push(c).drop_first() =~= s.drop_first().push(c));
        assert(s.push(c)[0] == s[0]);
        assert(json_escape_char(s[0]) + (json_escaped(s.drop_first()) + json_escape_char(c))
            =~= (json_escape_char(s[0]) + json_escaped(s.drop_first())) + json_escape_char(c));
    }
}

/// A JSON string literal: quotes around the escaped characters.
pub open spec fn json_string_model(s: Seq<char>) -> Seq<char> {
    seq!['"'] + json_escaped(s) + seq!['"']
}

/// Appends `json_escape_char(c)` to `out`.
fn push_escaped_char(out: &mut Vec<char>, c: char)
    ensures
        final(out)@ == old(out)@ + json_escape_char(c),
{
    if c == '"' {
        out.push('\\');
        out.push('"');
    } else if c == '\\' {
        out.push('\\');
        out.push('\\');
    } else if c == '\u{8}' {
        out.push('\\');
        out.push('b');
    } else if c == '\u{c}' {
        out.push('\\');
        out.push('f');
    } else if c == '\n' {
        out.push('\\');
        out.push('n');
    } else if c == '\r' {
        out.push('\\');
        out.push('r');
    } else if c == '\t' {
        out.push('\\');
        out.push('t');
    } else if (c as u32) < 32 {
        let hi = (c as u32) / 16;
        let lo = (c as u32) % 16;
        out.push('\\');
        out.push('u');
        out.push('0');
        out.push('0');
        out.push(hex_digit_char(hi));
        out.push(hex_digit_char(lo));
    } else {
        out.push(c);
    }
    proof {
        assert(final(out)@ =~= old(out)@ + json_escape_char(c));
    }
}

/// Computes `hex_digit(n)` for `n` below 16.
fn hex_digit_char(n: u32) -> (r: char)
    requires
        n < 16,
    ensures
        r == hex_digit(n as int),
{
    if n == 0 {
        '0'
    } else if n == 1 {
        '1'
    } else if n == 2 {
        '2'
    } else if n == 3 {
        '3'
    } else if n == 4 {
        '4'
    } else if n == 5 {
        '5'
    } else if n == 6 {
        '6'
    } else if n == 7 {
        '7'
    } else if n == 8 {
        '8'
    } else if n == 9 {
        '9'
    } else if n == 10 {
        'a'
    } else if n == 11 {
        'b'
    } else if n == 12 {
        'c'
    } else if n == 13 {
        'd'
    } else if n == 14 {
        'e'
    } else {
        'f'
    }
}

/// Appends the JSON string literal for `s` to `out`.
pub fn push_json_string(out: &mut Vec<char>, s: &[char])
    ensures
        final(out)@ == old(out)@ + json_string_model(s@),
{
    out.push('"');
    let ghost base = out@;
    proof {
        assert(s@.subrange(0, 0) =~= Seq::<char>::empty());
    }
    let n = s.len();
    let mut i: usize = 0;
    while i < n
        invariant
            n == s@.len(),
            0 <= i <= n,
            out@ == base + json_escaped(s@.subrange(0, i as int)),
        decreases n - i,
    {
        proof {
            lemma_json_escaped_snoc(s@.subrange(0, i as int), s@[i as int]);
            assert(s@.subrange(0, i as int).push(s@[i as int]) =~= s@.subrange(0, i + 1));
        }
        push_escaped_char(out, s[i]);
        proof {
            assert(out@ =~= base + json_escaped(s@.subrange(0, i + 1)));
        }
        i = i + 1;
    }
    out.push('"');
    proof {
        assert(s@.subrange(0, n as int) =~= s@);
        assert(final(out)@ =~= old(out)@ + json_string_model(s@));
    }
}

/// A JSON object of string pairs, keys and values in the given order.
pub open spec fn json_obj_entries(m: PairSeq) -> Seq<char>
    decreases m.len(),
{
    if m.len() == 0 {
        Seq::<char>::empty()
    } else if m.len() == 1 {
        json_string_model(m[0].0) + seq![':'] + json_string_model(m[0].1)
    } else {
        json_string_model(m[0].0) + seq![':'] + json_string_model(m[0].1) + seq![',']
            + json_obj_entries(m.drop_first())
    }
}

/// The full JSON object text for `m`.
pub open spec fn json_obj_model(m: PairSeq) -> Seq<char> {
    seq!['{'] + json_obj_entries(m) + seq!['}']
}

/// Appending one pair appends one entry, with a comma when the object was
/// not empty.
proof fn lemma_json_obj_entries_snoc(m: PairSeq, p: (Seq<char>, Seq<char>))
    ensures
        m.len() == 0 ==> json_obj_entries(m.push(p)) == json_string_model(p.0) + seq![':']
            + json_string_model(p.1),
        m.len() > 0 ==> json_obj_entries(m.push(p)) == json_obj_entries(m) + seq![',']
            + json_string_model(p.0) + seq![':'] + json_string_model(p.1),
    decreases m.len(),
{
    let pushed = m.push(p);
    if m.len() == 0 {
        assert(pushed[0] == p);
        assert(pushed.len() == 1);
    } else {
        lemma_json_obj_entries_snoc(m.drop_first(), p);
        assert(pushed.drop_first() =~= m.drop_first().push(p));
        assert(pushed[0] == m[0]);
        let head = json_string_model(m[0].0) + seq![':'] + json_string_model(m[0].1);
        if m.len() == 1 {
            assert(json_obj_entries(pushed) =~= head + seq![','] + json_string_model(p.0)
                + seq![':'] + json_string_model(p.1));
            assert(json_obj_entries(m) + seq![','] + json_string_model(p.0) + seq![':']
                + json_string_model(p.1) =~= json_obj_entries(pushed));
        } else {
            assert(json_obj_entries(pushed) =~= json_obj_entries(m) + seq![',']
                + json_string_model(p.0) + seq![':'] + json_string_model(p.1));
        }
    }
}

/// Writes the JSON object for the given pairs.
pub fn json_obj_chars(pairs: &Vec<(Vec<char>, Vec<char>)>) -> (out: Vec<char>)
    ensures
        out@ == json_obj_model(pairs.deep_view()),
{
    let mut out: Vec<char> = Vec::new();
    out.push('{');
    let ghost m = pairs.deep_view();
    let n = pairs.len();
    let mut i: usize = 0;
    while i < n
        invariant
            n == pairs@.len(),
            m == pairs.deep_view(),
            m.len() == n,
            0 <= i <= n,
            out@ == seq!['{'] + json_obj_entries(m.subrange(0, i as int)),
        decreases n - i,
    {
        proof {
            lemma_json_obj_entries_snoc(m.subrange(0, i as int), m[i as int]);
            assert(m.subrange(0, i as int).push(m[i as int]) =~= m.subrange(0, i + 1));
            assert(m[i as int] == (pairs@[i as int].0@, pairs@[i as int].1@));
        }
        if i > 0 {
            out.push(',');
        }
        push_json_string(&mut out, pairs[i].0.as_slice());
        out.push(':');
        push_json_string(&mut out, pairs[i].1.as_slice());
        proof {
            assert(out@ =~= seq!['{'] + json_obj_entries(m.subrange(0, i + 1)));
        }
        i = i + 1;
    }
    out.push('}');
    proof {
        assert(m.subrange(0, n as int) =~= m);
        assert(out@ =~= json_obj_model(m));
    }
    out
}

/// A JSON array of string literals, in the given order.
pub open spec fn json_arr_entries(a: Seq<Seq<char>>) -> Seq<char>
    decreases a.len(),
{
    if a.len() == 0 {
        Seq::<char>::empty()
    } else if a.len() == 1 {
        json_string_model(a[0])
    } else {
        json_string_model(a[0]) + seq![','] + json_arr_entries(a.drop_first())
    }
}

/// The full JSON array text for `a`.
pub open spec fn json_arr_model(a: Seq<Seq<char>>) -> Seq<char> {
    seq!['['] + json_arr_entries(a) + seq![']']
}

/// Appending one string appends one entry, with a comma when the array
/// was not empty.
proof fn lemma_json_arr_entries_snoc(a: Seq<Seq<char>>, s: Seq<char>)
    ensures
        a.len() == 0 ==> json_arr_entries(a.push(s)) == json_string_model(s),
        a.len() > 0 ==> json_arr_entries(a.push(s)) == json_arr_entries(a) + seq![',']
            + json_string_model(s),
    decreases a.len(),
{
    let pushed = a.push(s);
    if a.len() == 0 {
        assert(pushed[0] == s);
        assert(pushed.len() == 1);
    } else {
        lemma_json_arr_entries_snoc(a.drop_first(), s);
        assert(pushed.drop_first() =~= a.drop_first().push(s));
        assert(pushed[0] == a[0]);
        if a.len() == 1 {
            assert(json_arr_entries(pushed) =~= json_arr_entries(a) + seq![',']
                + json_string_model(s));
        } else {
            assert(json_arr_entries(pushed) =~= json_arr_entries(a) + seq![',']
                + json_string_model(s));
        }
    }
}

/// Writes the JSON array for the given strings.
pub fn json_arr_chars(items: &Vec<Vec<char>>) -> (out: Vec<char>)
    ensures
        out@ == json_arr_model(items.deep_view()),
{
    let mut out: Vec<char> = Vec::new();
    out.push('[');
    let ghost a = items.deep_view();
    let n = items.len();
    let mut i: usize = 0;
    while i < n
        invariant
            n == items@.len(),
            a == items.deep_view(),
            a.len() == n,
            0 <= i <= n,
            out@ == seq!['['] + json_arr_entries(a.subrange(0, i as int)),
        decreases n - i,
    {
        proof {
            lemma_json_arr_entries_snoc(a.subrange(0, i as int), a[i as int]);
            assert(a.subrange(0, i as int).push(a[i as int]) =~= a.subrange(0, i + 1));
            assert(a[i as int] == items@[i as int]@);
        }
        if i > 0 {
            out.push(',');
        }
        push_json_string(&mut out, items[i].as_slice());
        proof {
            assert(out@ =~= seq!['['] + json_arr_entries(a.subrange(0, i + 1)));
        }
        i = i + 1;
    }
    out.push(']');
    proof {
        assert(a.subrange(0, n as int) =~= a);
        assert(out@ =~= json_arr_model(a));
    }
    out
}

} // verus!
