use vstd::prelude::*;
use crate::text::{push_char, str_to_chars};

verus! {

/// A hexadecimal digit, in lower case.
pub open spec fn hex_digit(d: int) -> char {
    if d < 10 {
        (d + 0x30) as char
    } else {
        (d - 10 + 0x61) as char
    }
}

/// Whether `c` is a hexadecimal digit.
pub open spec fn is_hex(c: char) -> bool {
    let u = c as u32;
    (0x30 <= u <= 0x39) || (0x61 <= u <= 0x66) || (0x41 <= u <= 0x46)
}

/// The value of a hexadecimal digit.
pub open spec fn hex_val(c: char) -> int {
    let u = c as u32;
    if 0x30 <= u <= 0x39 {
        u - 0x30
    } else if 0x61 <= u <= 0x66 {
        u - 0x61 + 10
    } else if 0x41 <= u <= 0x46 {
        u - 0x41 + 10
    } else {
        0
    }
}

/// How one character is written inside a JSON string: backslash and quote
/// escaped, newline, return and tab by their short escapes, every other
/// control character (below U+0020) as `\u00` and two hexadecimal digits.
pub open spec fn json_escape_char(c: char) -> Seq<char> {
    if c == '\\' {
        seq!['\\', '\\']
    } else if c == '"' {
        seq!['\\', '"']
    } else if c == '\n' {
        seq!['\\', 'n']
    } else if c == '\r' {
        seq!['\\', 'r']
    } else if c == '\t' {
        seq!['\\', 't']
    } else if (c as u32) < 0x20 {
        seq!['\\', 'u', '0', '0', hex_digit((c as u32 / 16) as int), hex_digit((c as u32 % 16) as int)]
    } else {
        seq![c]
    }
}

/// `s` written as the contents of a JSON string.
pub open spec fn json_escape(s: Seq<char>) -> Seq<char>
    decreases s.len(),
{
    if s.len() == 0 {
        Seq::empty()
    } else {
        json_escape(s.drop_last()) + json_escape_char(s.last())
    }
}

/// How one character is written inside a CSV field.
pub open spec fn csv_escape_char(c: char) -> Seq<char> {
    if c == '\\' {
        seq!['\\', '\\']
    } else if c == ';' {
        seq!['\\', ';']
    } else {
        seq![c]
    }
}

/// `s` written as a `;`-separated field.
pub open spec fn csv_escape(s: Seq<char>) -> Seq<char>
    decreases s.len(),
{
    if s.len() == 0 {
        Seq::empty()
    } else {
        csv_escape(s.drop_last()) + csv_escape_char(s.last())
    }
}

/// Reads the contents of a JSON string back, for the escapes that
/// `json_escape` writes.
pub open spec fn json_unescape(r: Seq<char>) -> Seq<char>
    decreases r.len(),
{
    if r.len() == 0 {
        Seq::empty()
    } else if r[0] == '\\' && r.len() >= 6 && r[1] == 'u' {
        let v = 4096 * hex_val(r[2]) + 256 * hex_val(r[3]) + 16 * hex_val(r[4]) + hex_val(r[5]);
        seq![v as char] + json_unescape(r.skip(6))
    } else if r[0] == '\\' && r.len() >= 2 {
        let e = r[1];
        let c = if e == 'n' {
            '\n'
        } else if e == 'r' {
            '\r'
        } else if e == 't' {
            '\t'
        } else {
            e
        };
        seq![c] + json_unescape(r.skip(2))
    } else {
        seq![r[0]] + json_unescape(r.skip(1))
    }
}

/// Reads a `;`-separated field back, for the escapes that `csv_escape`
/// writes.
pub open spec fn csv_unescape(r: Seq<char>) -> Seq<char>
    decreases r.len(),
{
    if r.len() == 0 {
        Seq::empty()
    } else if r[0] == '\\' && r.len() >= 2 {
        seq![r[1]] + csv_unescape(r.skip(2))
    } else {
        seq![r[0]] + csv_unescape(r.skip(1))
    }
}

proof fn lemma_json_unescape_prefix(s: Seq<char>, t: Seq<char>)
    ensures
        json_unescape(json_escape(s) + t) == s + json_unescape(t),
    decreases s.len(),
{
    if s.len() == 0 {
        assert(json_escape(s) + t =~= t);
        assert(s + json_unescape(t) =~= json_unescape(t));
    } else {
        let c = s.last();
        let k = json_escape_char(c);
        assert(json_escape(s) + t =~= json_escape(s.drop_last()) + (k + t));
        lemma_json_unescape_prefix(s.drop_last(), k + t);
        if k.len() == 6 {
            let u = c as u32;
            lemma_hex_digit((u / 16) as int);
            lemma_hex_digit((u % 16) as int);
            assert((k + t).skip(6) =~= t);
            assert((k + t)[2] == '0' && (k + t)[3] == '0');
            assert(hex_val('0') == 0);
            assert(4096 * hex_val((k + t)[2]) + 256 * hex_val((k + t)[3]) + 16 * hex_val((k + t)[4])
                + hex_val((k + t)[5]) == u);
            vstd::utf8::char_u32_cast(c, u);
            assert((u as char) == c);
            assert(((u as int) as char) == c);
        } else if k.len() == 2 {
            assert((k + t).skip(2) =~= t);
        } else {
            assert((k + t).skip(1) =~= t);
        }
        assert(json_unescape(k + t) =~= seq![c] + json_unescape(t));
        assert(s.drop_last() + (seq![c] + json_unescape(t)) =~= s + json_unescape(t));
    }
}

/// Escaping for JSON loses nothing: reading the escaped text back as the
/// contents of a JSON string gives back the text that was escaped.
pub proof fn lemma_json_escape_roundtrip(s: Seq<char>)
    ensures
        json_unescape(json_escape(s)) == s,
{
    lemma_json_unescape_prefix(s, Seq::empty());
    assert(json_escape(s) + Seq::<char>::empty() =~= json_escape(s));
    assert(s + json_unescape(Seq::<char>::empty()) =~= s);
}

proof fn lemma_csv_unescape_prefix(s: Seq<char>, t: Seq<char>)
    ensures
        csv_unescape(csv_escape(s) + t) == s + csv_unescape(t),
    decreases s.len(),
{
    if s.len() == 0 {
        assert(csv_escape(s) + t =~= t);
        assert(s + csv_unescape(t) =~= csv_unescape(t));
    } else {
        let c = s.last();
        let k = csv_escape_char(c);
        assert(csv_escape(s) + t =~= csv_escape(s.drop_last()) + (k + t));
        lemma_csv_unescape_prefix(s.drop_last(), k + t);
        if k.len() == 2 {
            assert((k + t).skip(2) =~= t);
        } else {
            assert((k + t).skip(1) =~= t);
        }
        assert(csv_unescape(k + t) =~= seq![c] + csv_unescape(t));
        assert(s.drop_last() + (seq![c] + csv_unescape(t)) =~= s + csv_unescape(t));
    }
}

/// Escaping for CSV loses nothing: reading the escaped field back gives the
/// text that was escaped.
pub proof fn lemma_csv_escape_roundtrip(s: Seq<char>)
    ensures
        csv_unescape(csv_escape(s)) == s,
{
    lemma_csv_unescape_prefix(s, Seq::empty());
    assert(csv_escape(s) + Seq::<char>::empty() =~= csv_escape(s));
    assert(s + csv_unescape(Seq::<char>::empty()) =~= s);
}

/// Whether `r`, read from the left with a backslash taking the character
/// after it as an escape pair, holds no `;` outside a pair and no lone
/// backslash at its end: a field that no separator ends early.
pub open spec fn csv_field_body(r: Seq<char>) -> bool
    decreases r.len(),
{
    if r.len() == 0 {
        true
    } else if r[0] == '\\' {
        r.len() >= 2 && csv_field_body(r.skip(2))
    } else {
        r[0] != ';' && csv_field_body(r.skip(1))
    }
}

proof fn lemma_csv_field_body_prefix(s: Seq<char>, t: Seq<char>)
    ensures
        csv_field_body(csv_escape(s) + t) == csv_field_body(t),
    decreases s.len(),
{
    if s.len() == 0 {
        assert(csv_escape(s) + t =~= t);
    } else {
        let k = csv_escape_char(s.last());
        assert(csv_escape(s) + t =~= csv_escape(s.drop_last()) + (k + t));
        lemma_csv_field_body_prefix(s.drop_last(), k + t);
        if k.len() == 2 {
            assert((k + t).skip(2) =~= t);
        } else {
            assert((k + t).skip(1) =~= t);
        }
    }
}

/// An escaped CSV field holds no bare separator: read from the left in
/// escape pairs, every `;` stands inside a pair.
pub proof fn lemma_csv_escape_no_bare_separator(s: Seq<char>)
    ensures
        csv_field_body(csv_escape(s)),
{
    lemma_csv_field_body_prefix(s, Seq::empty());
    assert(csv_escape(s) + Seq::<char>::empty() =~= csv_escape(s));
}

proof fn lemma_hex_digit(d: int)
    requires
        0 <= d < 16,
    ensures
        is_hex(hex_digit(d)),
        hex_val(hex_digit(d)) == d,
        (hex_digit(d) as u32) >= 0x30,
{
    if d < 10 {
        assert((d + 0x30) as char as u32 == d + 0x30);
    } else {
        assert((d - 10 + 0x61) as char as u32 == d - 10 + 0x61);
    }
}

/// Whether `r` can stand between the quotes of a JSON string: it holds no
/// raw quote, backslash or control character, and every backslash begins
/// a valid escape.
pub open spec fn json_string_body(r: Seq<char>) -> bool
    decreases r.len(),
{
    if r.len() == 0 {
        true
    } else if r[0] == '\\' {
        if r.len() >= 2 && (r[1] == '"' || r[1] == '\\' || r[1] == '/' || r[1] == 'b' || r[1]
            == 'f' || r[1] == 'n' || r[1] == 'r' || r[1] == 't') {
            json_string_body(r.skip(2))
        } else if r.len() >= 6 && r[1] == 'u' && is_hex(r[2]) && is_hex(r[3]) && is_hex(r[4])
            && is_hex(r[5]) {
            json_string_body(r.skip(6))
        } else {
            false
        }
    } else if r[0] == '"' || (r[0] as u32) < 0x20 {
        false
    } else {
        json_string_body(r.skip(1))
    }
}

proof fn lemma_json_escape_body_prefix(s: Seq<char>, t: Seq<char>)
    requires
        json_string_body(t),
    ensures
        json_string_body(json_escape(s) + t),
    decreases s.len(),
{
    if s.len() == 0 {
        assert(json_escape(s) + t =~= t);
    } else {
        let c = s.last();
        let k = json_escape_char(c);
        assert(json_escape(s) + t =~= json_escape(s.drop_last()) + (k + t));
        if k.len() == 6 {
            let u = c as u32;
            lemma_hex_digit((u / 16) as int);
            lemma_hex_digit((u % 16) as int);
            assert((k + t).skip(6) =~= t);
            assert(is_hex('0'));
        } else if k.len() == 2 {
            assert((k + t).skip(2) =~= t);
        } else {
            assert((k + t).skip(1) =~= t);
        }
        assert(json_string_body(k + t));
        lemma_json_escape_body_prefix(s.drop_last(), k + t);
    }
}

/// Escaped text can always stand between the quotes of a JSON string, so
/// quoting it gives a valid JSON string literal.
pub proof fn lemma_json_escape_valid(s: Seq<char>)
    ensures
        json_string_body(json_escape(s)),
{
    lemma_json_escape_body_prefix(s, Seq::empty());
    assert(json_escape(s) + Seq::<char>::empty() =~= json_escape(s));
}

/// An escaped JSON text holds no control character (nothing below U+0020),
/// so a JSON object written with it stays on one line.
pub proof fn lemma_json_escape_no_control(s: Seq<char>)
    ensures
        forall|i: int| 0 <= i < json_escape(s).len() ==> (#[trigger] json_escape(s)[i] as u32) >= 0x20,
    decreases s.len(),
{
    if s.len() > 0 {
        lemma_json_escape_no_control(s.drop_last());
        let a = json_escape(s.drop_last());
        let c = s.last();
        let k = json_escape_char(c);
        assert(json_escape(s) =~= a + k);
        if (c as u32) < 0x20 {
            lemma_hex_digit(((c as u32) / 16) as int);
            lemma_hex_digit(((c as u32) % 16) as int);
        }
        assert forall|i: int| 0 <= i < json_escape(s).len() implies (#[trigger] json_escape(s)[i]
            as u32) >= 0x20 by {
            if i < a.len() {
                assert(json_escape(s)[i] == a[i]);
            } else {
                assert(json_escape(s)[i] == k[i - a.len()]);
            }
        }
    }
}

fn hex_char(d: u32) -> (c: char)
    requires
        d < 16,
    ensures
        c == hex_digit(d as int),
{
    if d < 10 {
        ((d + 0x30) as u8) as char
    } else {
        ((d - 10 + 0x61) as u8) as char
    }
}

/// Escapes backslashes, double quotes and control characters (newline,
/// return and tab by their short escapes, the others as `\u00XX`) so that
/// the text can stand inside a JSON string.
pub fn escape_json_str(s: &str) -> (r: String)
    ensures
        r@ == json_escape(s@),
{
    let v: Vec<char> = str_to_chars(s);
    let n: usize = v.len();
    let mut r = String::new();
    let mut i: usize = 0;
    while i < n
        invariant
            n == v@.len(),
            v@ == s@,
            i <= n,
            r@ == json_escape(v@.take(i as int)),
        decreases n - i,
    {
        let c: char = v[i];
        proof {
            assert(v@.take(i + 1).drop_last() =~= v@.take(i as int));
        }
        if c == '\\' {
            push_char(&mut r, '\\');
            push_char(&mut r, '\\');
        } else if c == '"' {
            push_char(&mut r, '\\');
            push_char(&mut r, '"');
        } else if c == '\n' {
            push_char(&mut r, '\\');
            push_char(&mut r, 'n');
        } else if c == '\r' {
            push_char(&mut r, '\\');
            push_char(&mut r, 'r');
        } else if c == '\t' {
            push_char(&mut r, '\\');
            push_char(&mut r, 't');
        } else if (c as u32) < 0x20 {
            let u: u32 = c as u32;
            push_char(&mut r, '\\');
            push_char(&mut r, 'u');
            push_char(&mut r, '0');
            push_char(&mut r, '0');
            push_char(&mut r, hex_char(u / 16));
            push_char(&mut r, hex_char(u % 16));
        } else {
            push_char(&mut r, c);
        }
        proof {
            assert(r@ =~= json_escape(v@.take(i as int)) + json_escape_char(c));
        }
        i += 1;
    }
    proof {
        assert(v@.take(n as int) =~= v@);
    }
    r
}

/// Escapes backslashes and semicolons so that the text can stand in a
/// `;`-separated field.
pub fn escape_csv_str(s: &str) -> (r: String)
    ensures
        r@ == csv_escape(s@),
{
    let v: Vec<char> = str_to_chars(s);
    let n: usize = v.len();
    let mut r = String::new();
    let mut i: usize = 0;
    while i < n
        invariant
            n == v@.len(),
            v@ == s@,
            i <= n,
            r@ == csv_escape(v@.take(i as int)),
        decreases n - i,
    {
        let c: char = v[i];
        proof {
            assert(v@.take(i + 1).drop_last() =~= v@.take(i as int));
        }
        if c == '\\' {
            push_char(&mut r, '\\');
            push_char(&mut r, '\\');
        } else if c == ';' {
            push_char(&mut r, '\\');
            push_char(&mut r, ';');
        } else {
            push_char(&mut r, c);
        }
        proof {
            assert(r@ =~= csv_escape(v@.take(i as int)) + csv_escape_char(c));
        }
        i += 1;
    }
    proof {
        assert(v@.take(n as int) =~= v@);
    }
    r
}

} // verus!
