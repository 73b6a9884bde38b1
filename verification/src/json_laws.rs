//! The JSON string framing is lossless: reading a framed string back with the
//! JSON string grammar gives the text that was framed.

use vstd::prelude::*;
use crate::json::{escape_char, escaped, hex_lower, json_string};

verus! {

/// The value of a hexadecimal digit character, if it is one.
pub open spec fn hex_value(c: char) -> Option<u32> {
    let n = c as u32;
    if 0x30 <= n && n <= 0x39 {
        Some((n - 0x30) as u32)
    } else if 0x61 <= n && n <= 0x66 {
        Some((n - 0x57) as u32)
    } else if 0x41 <= n && n <= 0x46 {
        Some((n - 0x37) as u32)
    } else {
        None
    }
}

/// The character of a `\uXXXX` escape below U+0080 written with the four
/// digits `a b c d`, as JSON reads it.
pub open spec fn unicode_escape(a: char, b: char, c: char, d: char) -> Option<char> {
    match (hex_value(a), hex_value(b), hex_value(c), hex_value(d)) {
        (Some(w), Some(x), Some(y), Some(z)) => {
            let n = w * 4096 + x * 256 + y * 16 + z;
            if n < 0x80 {
                Some(n as char)
            } else {
                None
            }
        },
        _ => None,
    }
}

/// The text held by the contents `t` of a JSON string literal, following the
/// JSON string grammar for unescaped characters, two-letter escapes and
/// `\u` escapes of ASCII characters; `None` when `t` is not such contents.
pub open spec fn unescape(t: Seq<char>) -> Option<Seq<char>>
    decreases t.len(),
{
    if t.len() == 0 {
        Some(Seq::<char>::empty())
    } else if t[0] == '\\' {
        if t.len() < 2 {
            None
        } else {
            let e = t[1];
            let simple: Option<char> = if e == '"' {
                Some('"')
            } else if e == '\\' {
                Some('\\')
            } else if e == '/' {
                Some('/')
            } else if e == 'b' {
                Some(0x08u8 as char)
            } else if e == 'f' {
                Some(0x0cu8 as char)
            } else if e == 'n' {
                Some('\n')
            } else if e == 'r' {
                Some('\r')
            } else if e == 't' {
                Some('\t')
            } else {
                None
            };
            match simple {
                Some(c) => match unescape(t.subrange(2, t.len() as int)) {
                    Some(r) => Some(seq![c] + r),
                    None => None,
                },
                None => if e == 'u' && t.len() >= 6 {
                    match unicode_escape(t[2], t[3], t[4], t[5]) {
                        Some(c) => match unescape(t.subrange(6, t.len() as int)) {
                            Some(r) => Some(seq![c] + r),
                            None => None,
                        },
                        None => None,
                    }
                } else {
                    None
                },
            }
        }
    } else if t[0] == '"' || (t[0] as u32) < 0x20 {
        None
    } else {
        match unescape(t.drop_first()) {
            Some(r) => Some(seq![t[0]] + r),
            None => None,
        }
    }
}

/// The contents of a JSON string literal `lit`, when it is one.
pub open spec fn read_json_string(lit: Seq<char>) -> Option<Seq<char>> {
    if lit.len() >= 2 && lit[0] == '"' && lit.last() == '"' {
        unescape(lit.subrange(1, lit.len() - 1))
    } else {
        None
    }
}

proof fn lemma_escaped_cons(s: Seq<char>)
    requires
        s.len() > 0,
    ensures
        escaped(s) == escape_char(s[0]) + escaped(s.drop_first()),
    decreases s.len(),
{
    if s.len() == 1 {
        assert(s.drop_first().len() == 0);
        assert(s.drop_last().len() == 0);
        assert(escaped(s.drop_last()) =~= Seq::<char>::empty());
        assert(escaped(s) =~= escape_char(s[0]));
        assert(escape_char(s[0]) + escaped(s.drop_first()) =~= escape_char(s[0]));
    } else {
        lemma_escaped_cons(s.drop_last());
        assert(s.drop_last()[0] == s[0]);
        assert(s.drop_last().drop_first() =~= s.drop_first().drop_last());
        assert(s.drop_first().last() == s.last());
        assert(escaped(s.drop_first()) == escaped(s.drop_first().drop_last()) + escape_char(s.drop_first().last()));
        assert(escaped(s) =~= escape_char(s[0]) + escaped(s.drop_first()));
    }
}

proof fn lemma_hex_round_trip(n: u32)
    requires
        n < 16,
    ensures
        hex_value(hex_lower(n)) == Some(n),
{
}

proof fn lemma_unescape_char(c: char, rest: Seq<char>)
    ensures
        unescape(escape_char(c) + rest) == match unescape(rest) {
            Some(r) => Some(seq![c] + r),
            None => None::<Seq<char>>,
        },
{
    let t = escape_char(c) + rest;
    let n = c as u32;
    if c == '"' || c == '\\' || n == 0x08 || n == 0x0c || n == 0x0a || n == 0x0d || n == 0x09 {
        assert(t.subrange(2, t.len() as int) =~= rest);
        if n == 0x08 {
            assert(c == (0x08u8 as char));
        }
        if n == 0x0c {
            assert(c == (0x0cu8 as char));
        }
        if n == 0x0a {
            assert(c == '\n');
        }
        if n == 0x0d {
            assert(c == '\r');
        }
        if n == 0x09 {
            assert(c == '\t');
        }
    } else if n < 0x20 {
        assert(t.subrange(6, t.len() as int) =~= rest);
        lemma_hex_round_trip(n / 16);
        lemma_hex_round_trip(n % 16);
        assert(t[2] == '0' && t[3] == '0');
        assert(hex_value('0') == Some(0u32));
        assert(0u32 * 4096 + 0u32 * 256 + (n / 16) * 16 + n % 16 == n);
        assert((n as char) == c);
    } else {
        assert(t.drop_first() =~= rest);
    }
}

/// Reading the contents of a framed string gives back the framed text.
pub proof fn lemma_unescape_escaped(s: Seq<char>)
    ensures
        unescape(escaped(s)) == Some(s),
    decreases s.len(),
{
    if s.len() == 0 {
    } else {
        lemma_escaped_cons(s);
        lemma_unescape_escaped(s.drop_first());
        lemma_unescape_char(s[0], escaped(s.drop_first()));
        assert(seq![s[0]] + s.drop_first() =~= s);
    }
}

/// A text written as a JSON string literal reads back as the same text.
pub proof fn lemma_json_string_round_trip(s: Seq<char>)
    ensures
        read_json_string(json_string(s)) == Some(s),
{
    let lit = json_string(s);
    assert(lit.subrange(1, lit.len() - 1) =~= escaped(s));
    lemma_unescape_escaped(s);
}

proof fn lemma_escape_len(c: char)
    ensures
        escape_char(c).len() > 0,
        escape_char(c)[0] != '"',
        escape_char(c)[0] != '\\' ==> escape_char(c).len() == 1,
        escape_char(c)[0] == '\\' ==> escape_char(c).len() >= 2 && (escape_char(c).len() == if escape_char(c)[1] == 'u' {
            6int
        } else {
            2int
        }),
{
}

/// A framed character followed by anything determines the character and what
/// follows it: the escapes form a prefix-free code.
pub proof fn lemma_escape_char_cancel(a: char, b: char, x: Seq<char>, y: Seq<char>)
    requires
        escape_char(a) + x == escape_char(b) + y,
    ensures
        a == b,
        x == y,
{
    lemma_escape_len(a);
    lemma_escape_len(b);
    let t = escape_char(a) + x;
    assert(t[0] == escape_char(a)[0] && t[0] == escape_char(b)[0]);
    if escape_char(a)[0] == '\\' {
        assert(t[1] == escape_char(a)[1] && t[1] == escape_char(b)[1]);
    }
    let n = escape_char(a).len();
    assert(escape_char(b).len() == n);
    assert(t.subrange(0, n as int) =~= escape_char(a));
    assert((escape_char(b) + y).subrange(0, n as int) =~= escape_char(b));
    assert(t.subrange(n as int, t.len() as int) =~= x);
    assert((escape_char(b) + y).subrange(n as int, t.len() as int) =~= y);
    lemma_unescape_char(a, Seq::<char>::empty());
    lemma_unescape_char(b, Seq::<char>::empty());
    assert(escape_char(a) + Seq::<char>::empty() =~= escape_char(a));
    assert(escape_char(b) + Seq::<char>::empty() =~= escape_char(b));
    assert(seq![a] + Seq::<char>::empty() =~= seq![a]);
    assert(seq![b] + Seq::<char>::empty() =~= seq![b]);
    assert(seq![a][0] == a && seq![b][0] == b);
}

proof fn lemma_escaped_cancel(s1: Seq<char>, r1: Seq<char>, s2: Seq<char>, r2: Seq<char>)
    requires
        escaped(s1) + (seq!['"'] + r1) == escaped(s2) + (seq!['"'] + r2),
    ensures
        s1 == s2,
        r1 == r2,
    decreases s1.len() + s2.len(),
{
    if s1.len() == 0 && s2.len() == 0 {
        assert(escaped(s1) =~= Seq::<char>::empty());
        assert(escaped(s2) =~= Seq::<char>::empty());
        assert(Seq::<char>::empty() + (seq!['"'] + r1) =~= seq!['"'] + r1);
        assert(Seq::<char>::empty() + (seq!['"'] + r2) =~= seq!['"'] + r2);
        assert((seq!['"'] + r1).drop_first() =~= r1);
        assert((seq!['"'] + r2).drop_first() =~= r2);
        assert(s1 =~= s2);
    } else if s1.len() == 0 {
        lemma_escaped_cons(s2);
        lemma_escape_len(s2[0]);
        assert(escaped(s1) =~= Seq::<char>::empty());
        let l = escaped(s1) + (seq!['"'] + r1);
        let r = escaped(s2) + (seq!['"'] + r2);
        assert(l[0] == '"');
        assert(r[0] == escape_char(s2[0])[0]);
    } else if s2.len() == 0 {
        lemma_escaped_cons(s1);
        lemma_escape_len(s1[0]);
        assert(escaped(s2) =~= Seq::<char>::empty());
        let l = escaped(s1) + (seq!['"'] + r1);
        let r = escaped(s2) + (seq!['"'] + r2);
        assert(r[0] == '"');
        assert(l[0] == escape_char(s1[0])[0]);
    } else {
        lemma_escaped_cons(s1);
        lemma_escaped_cons(s2);
        let x = escaped(s1.drop_first()) + (seq!['"'] + r1);
        let y = escaped(s2.drop_first()) + (seq!['"'] + r2);
        assert(escaped(s1) + (seq!['"'] + r1) =~= escape_char(s1[0]) + x);
        assert(escaped(s2) + (seq!['"'] + r2) =~= escape_char(s2[0]) + y);
        lemma_escape_char_cancel(s1[0], s2[0], x, y);
        lemma_escaped_cancel(s1.drop_first(), r1, s2.drop_first(), r2);
        assert(s1 =~= seq![s1[0]] + s1.drop_first());
        assert(s2 =~= seq![s2[0]] + s2.drop_first());
    }
}

/// A JSON string literal followed by anything determines its text and what
/// follows it.
pub proof fn lemma_json_string_cancel(s1: Seq<char>, r1: Seq<char>, s2: Seq<char>, r2: Seq<char>)
    requires
        json_string(s1) + r1 == json_string(s2) + r2,
    ensures
        s1 == s2,
        r1 == r2,
{
    let a = json_string(s1) + r1;
    let b = json_string(s2) + r2;
    assert(a.drop_first() =~= escaped(s1) + (seq!['"'] + r1));
    assert(b.drop_first() =~= escaped(s2) + (seq!['"'] + r2));
    lemma_escaped_cancel(s1, r1, s2, r2);
}

} // verus!
