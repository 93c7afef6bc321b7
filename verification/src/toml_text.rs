//! TOML basic strings for the settings file: a text value is written between
//! double quotes with `\`, `"` and control characters escaped, and read back
//! by undoing those escapes (and TOML's short escapes `\b \t \n \f \r`).

use vstd::prelude::*;
use crate::text::no_newline;

verus! {

/// The upper-case hex digit of `d` (`0 <= d < 16`).
pub open spec fn hex_digit(d: int) -> char {
    if d < 10 {
        (d + 48) as char
    } else {
        (d + 55) as char
    }
}

/// The value of a hex digit, either case.
pub open spec fn hex_value(c: char) -> Option<int> {
    if '0' <= c && c <= '9' {
        Some(c as int - 48)
    } else if 'A' <= c && c <= 'F' {
        Some(c as int - 55)
    } else if 'a' <= c && c <= 'f' {
        Some(c as int - 87)
    } else {
        None
    }
}

/// A character TOML does not allow unescaped in a basic string.
pub open spec fn is_control(c: char) -> bool {
    (c as u32) < 0x20 || c as u32 == 0x7f
}

/// How one character is written inside the quotes.
pub open spec fn escape_char(c: char) -> Seq<char> {
    if c == '\\' {
        seq!['\\', '\\']
    } else if c == '"' {
        seq!['\\', '"']
    } else if is_control(c) {
        seq!['\\', 'u', '0', '0', hex_digit(((c as u32) / 16) as int), hex_digit(((c as u32) % 16) as int)]
    } else {
        seq![c]
    }
}

/// The escaped text, character by character.
pub open spec fn escape(s: Seq<char>) -> Seq<char>
    decreases s.len(),
{
    if s.len() == 0 {
        Seq::empty()
    } else {
        escape_char(s[0]) + escape(s.skip(1))
    }
}

/// The TOML basic string for `s`.
pub open spec fn quote(s: Seq<char>) -> Seq<char> {
    seq!['"'] + escape(s) + seq!['"']
}

/// The text an escape sequence `\e` stands for, when `e` is one of the
/// one-letter escapes.
pub open spec fn short_escape(e: char) -> Option<char> {
    if e == '\\' || e == '"' {
        Some(e)
    } else if e == 'n' {
        Some('\n')
    } else if e == 't' {
        Some('\t')
    } else if e == 'r' {
        Some('\r')
    } else if e == 'b' {
        Some(8u8 as char)
    } else if e == 'f' {
        Some(12u8 as char)
    } else {
        None
    }
}

/// `\u00HH` at the start of `s`.
pub open spec fn is_byte_escape(s: Seq<char>) -> bool {
    &&& s.len() >= 6
    &&& s[0] == '\\'
    &&& s[1] == 'u'
    &&& s[2] == '0'
    &&& s[3] == '0'
    &&& hex_value(s[4]) is Some
    &&& hex_value(s[5]) is Some
}

/// The text inside a basic string with its escapes undone; a backslash that
/// starts no known escape stands for itself.
pub open spec fn unescape(s: Seq<char>) -> Seq<char>
    decreases s.len(),
{
    if s.len() == 0 {
        Seq::empty()
    } else if s[0] == '\\' && s.len() >= 2 && short_escape(s[1]) is Some {
        seq![short_escape(s[1])->0] + unescape(s.skip(2))
    } else if is_byte_escape(s) {
        seq![((hex_value(s[4])->0 * 16 + hex_value(s[5])->0) as u32) as char] + unescape(s.skip(6))
    } else {
        seq![s[0]] + unescape(s.skip(1))
    }
}

/// A value read from the file: a quoted basic string gives its text, any
/// other value is taken as it stands.
pub open spec fn unquote(v: Seq<char>) -> Seq<char> {
    if v.len() >= 2 && v[0] == '"' && v.last() == '"' {
        unescape(v.subrange(1, v.len() - 1))
    } else {
        v
    }
}

proof fn lemma_hex(d: int)
    requires
        0 <= d < 16,
    ensures
        hex_value(hex_digit(d)) == Some(d),
        hex_digit(d) as int == if d < 10 { d + 48 } else { d + 55 },
{
    if d < 10 {
        assert(((d + 48) as char) as int == d + 48);
    } else {
        assert(((d + 55) as char) as int == d + 55);
    }
}

proof fn lemma_unescape_char(c: char, rest: Seq<char>)
    ensures
        unescape(escape_char(c) + rest) == seq![c] + unescape(rest),
{
    let e = escape_char(c) + rest;
    if c == '\\' || c == '"' {
        assert(e.skip(2) =~= rest);
    } else if is_control(c) {
        let v = c as u32;
        lemma_hex((v / 16) as int);
        lemma_hex((v % 16) as int);
        assert(e[0] == '\\' && e[1] == 'u');
        assert(short_escape('u') is None);
        assert(is_byte_escape(e));
        assert(e.skip(6) =~= rest);
        assert((v / 16) * 16 + v % 16 == v);
        assert(((((v / 16) * 16 + v % 16) as u32) as char) == c) by {
            vstd::utf8::char_u32_cast(c, v);
        }
    } else {
        assert(e.skip(1) =~= rest);
    }
}

proof fn lemma_escape_append(a: Seq<char>, b: Seq<char>)
    ensures
        escape(a + b) == escape(a) + escape(b),
    decreases a.len(),
{
    if a.len() == 0 {
        assert(a + b =~= b);
    } else {
        lemma_escape_append(a.skip(1), b);
        assert((a + b).skip(1) =~= a.skip(1) + b);
        assert((a + b)[0] == a[0]);
    }
}

proof fn lemma_unescape_escape(s: Seq<char>)
    ensures
        unescape(escape(s)) == s,
    decreases s.len(),
{
    if s.len() > 0 {
        lemma_unescape_escape(s.skip(1));
        lemma_unescape_char(s[0], escape(s.skip(1)));
        assert(seq![s[0]] + s.skip(1) =~= s);
    }
}

proof fn lemma_escape_no_newline(s: Seq<char>)
    ensures
        no_newline(escape(s)),
    decreases s.len(),
{
    if s.len() > 0 {
        lemma_escape_no_newline(s.skip(1));
        let c = s[0];
        let h = escape_char(c);
        let t = escape(s.skip(1));
        if is_control(c) {
            let v = c as u32;
            lemma_hex((v / 16) as int);
            lemma_hex((v % 16) as int);
        }
        assert forall|i: int| 0 <= i < (h + t).len() implies (h + t)[i] != '\n' by {
            if i >= h.len() {
                assert((h + t)[i] == t[i - h.len()]);
            }
        }
    }
}

/// Reading a written string gives the text back, and the written string is
/// one line between quotes.
pub proof fn law_quote_roundtrip(s: Seq<char>)
    ensures
        unquote(quote(s)) == s,
        quote(s).len() >= 2,
        quote(s)[0] == '"',
        quote(s).last() == '"',
        no_newline(quote(s)),
{
    let q = quote(s);
    assert(q.subrange(1, q.len() - 1) =~= escape(s));
    lemma_unescape_escape(s);
    lemma_escape_no_newline(s);
    assert forall|i: int| 0 <= i < q.len() implies q[i] != '\n' by {
        if 0 < i < q.len() - 1 {
            assert(q[i] == escape(s)[i - 1]);
        }
    }
}

fn hex_digit_exec(d: u32) -> (c: char)
    requires
        d < 16,
    ensures
        c == hex_digit(d as int),
{
    if d < 10 {
        ((d + 48) as u8) as char
    } else {
        ((d + 55) as u8) as char
    }
}

fn hex_value_exec(c: char) -> (r: Option<u32>)
    ensures
        match hex_value(c) {
            Some(v) => r == Some(v as u32),
            None => r is None,
        },
{
    if '0' <= c && c <= '9' {
        Some(c as u32 - 48)
    } else if 'A' <= c && c <= 'F' {
        Some(c as u32 - 55)
    } else if 'a' <= c && c <= 'f' {
        Some(c as u32 - 87)
    } else {
        None
    }
}

/// Writes `s` as a TOML basic string.
pub fn quote_chars(s: &[char]) -> (r: Vec<char>)
    ensures
        r@ == quote(s@),
{
    let mut out: Vec<char> = Vec::new();
    out.push('"');
    let mut i: usize = 0;
    while i < s.len()
        invariant
            i <= s.len(),
            out@ == seq!['"'] + escape(s@.take(i as int)),
        decreases s.len() - i,
    {
        let c = s[i];
        let ghost before = out@;
        let v = c as u32;
        if c == '\\' {
            out.push('\\');
            out.push('\\');
        } else if c == '"' {
            out.push('\\');
            out.push('"');
        } else if v < 0x20 || v == 0x7f {
            out.push('\\');
            out.push('u');
            out.push('0');
            out.push('0');
            out.push(hex_digit_exec(v / 16));
            out.push(hex_digit_exec(v % 16));
        } else {
            out.push(c);
        }
        proof {
            assert(out@ =~= before + escape_char(c));
            lemma_escape_append(s@.take(i as int), seq![c]);
            assert(escape(seq![c]) =~= escape_char(c)) by {
                assert(seq![c].skip(1) =~= Seq::<char>::empty());
                assert(escape(seq![c]) == escape_char(c) + escape(seq![c].skip(1)));
                assert(escape(Seq::<char>::empty()) == Seq::<char>::empty());
            }
            assert(s@.take(i + 1) =~= s@.take(i as int) + seq![c]);
        }
        i = i + 1;
    }
    out.push('"');
    assert(s@.take(s.len() as int) =~= s@);
    out
}

/// Undoes the escapes of the text inside a basic string.
pub fn unescape_chars(s: &[char]) -> (r: Vec<char>)
    ensures
        r@ == unescape(s@),
{
    let mut out: Vec<char> = Vec::new();
    let mut i: usize = 0;
    assert(s@.skip(0) =~= s@);
    assert(out@ + unescape(s@) =~= unescape(s@));
    while i < s.len()
        invariant
            i <= s.len(),
            out@ + unescape(s@.skip(i as int)) == unescape(s@),
        decreases s.len() - i,
    {
        let ghost t = s@.skip(i as int);
        let c = s[i];
        let mut done = false;
        if c == '\\' && i + 1 < s.len() {
            let e = s[i + 1];
            let short: Option<char> = if e == '\\' || e == '"' {
                Some(e)
            } else if e == 'n' {
                Some('\n')
            } else if e == 't' {
                Some('\t')
            } else if e == 'r' {
                Some('\r')
            } else if e == 'b' {
                Some(8u8 as char)
            } else if e == 'f' {
                Some(12u8 as char)
            } else {
                None
            };
            assert(short == short_escape(t[1]));
            match short {
                Some(x) => {
                    out.push(x);
                    proof {
                        assert(t.skip(2) =~= s@.skip(i + 2));
                        assert(unescape(t) == seq![x] + unescape(t.skip(2)));
                    }
                    i = i + 2;
                    done = true;
                },
                None => {
                    if e == 'u' && s.len() - i > 5 && s[i + 2] == '0' && s[i + 3] == '0' {
                        match (hex_value_exec(s[i + 4]), hex_value_exec(s[i + 5])) {
                            (Some(hi), Some(lo)) => {
                                let x = (hi * 16 + lo) as u8 as char;
                                out.push(x);
                                proof {
                                    assert(is_byte_escape(t));
                                    assert(t.skip(6) =~= s@.skip(i + 6));
                                    assert(unescape(t) == seq![x] + unescape(t.skip(6)));
                                }
                                i = i + 6;
                                done = true;
                            },
                            _ => {},
                        }
                    }
                },
            }
        }
        if !done {
            out.push(c);
            proof {
                assert(!is_byte_escape(t));
                assert(t.skip(1) =~= s@.skip(i + 1));
                assert(unescape(t) == seq![c] + unescape(t.skip(1)));
            }
            i = i + 1;
        }
    }
    assert(s@.skip(s.len() as int) =~= Seq::<char>::empty());
    out
}

/// Reads a value: the text of a quoted basic string, any other value as it
/// stands.
pub fn unquote_chars(v: &[char]) -> (r: Vec<char>)
    ensures
        r@ == unquote(v@),
{
    let n = v.len();
    if n >= 2 && v[0] == '"' && v[n - 1] == '"' {
        let mut inner: Vec<char> = Vec::new();
        let mut i: usize = 1;
        while i < n - 1
            invariant
                1 <= i <= n - 1,
                n == v@.len(),
                n >= 2,
                inner@ == v@.subrange(1, i as int),
            decreases n - 1 - i,
        {
            inner.push(v[i]);
            i = i + 1;
            assert(inner@ =~= v@.subrange(1, i as int));
        }
        unescape_chars(inner.as_slice())
    } else {
        let mut out: Vec<char> = Vec::new();
        let mut i: usize = 0;
        while i < n
            invariant
                i <= n,
                n == v@.len(),
                out@ == v@.take(i as int),
            decreases n - i,
        {
            out.push(v[i]);
            i = i + 1;
            assert(out@ =~= v@.take(i as int));
        }
        assert(v@.take(n as int) =~= v@);
        out
    }
}

} // verus!
