use vstd::prelude::*;

verus! {

/// Lower-case hexadecimal digit of a value below 16.
pub open spec fn hex_digit(v: u32) -> char {
    if v < 10 {
        (('0' as u32) + v) as char
    } else {
        (('a' as u32) + (v - 10)) as char
    }
}

/// How a JSON string writes one character: `"` and `\` get a backslash;
/// backspace, form feed, line feed, carriage return and tab get their short
/// escapes; other characters below U+0020 get `\u00` and two lower-case hex
/// digits; every other character stands for itself.
pub open spec fn json_escaped_char(c: char) -> Seq<char> {
    let u = c as u32;
    if c == '"' {
        seq!['\\', '"']
    } else if c == '\\' {
        seq!['\\', '\\']
    } else if u == 0x08 {
        seq!['\\', 'b']
    } else if u == 0x0C {
        seq!['\\', 'f']
    } else if u == 0x0A {
        seq!['\\', 'n']
    } else if u == 0x0D {
        seq!['\\', 'r']
    } else if u == 0x09 {
        seq!['\\', 't']
    } else if u < 0x20 {
        seq!['\\', 'u', '0', '0', hex_digit(u / 16), hex_digit(u % 16)]
    } else {
        seq![c]
    }
}

/// The escaped characters of `s`, in order.
pub open spec fn json_escaped(s: Seq<char>) -> Seq<char>
    decreases s.len(),
{
    if s.len() == 0 {
        seq![]
    } else {
        json_escaped_char(s[0]) + json_escaped(s.drop_first())
    }
}

/// `s` written as a JSON string literal.
pub open spec fn json_string(s: Seq<char>) -> Seq<char> {
    seq!['"'] + json_escaped(s) + seq!['"']
}

/// Value of a hexadecimal digit of either case.
pub open spec fn hex_value(c: char) -> Option<u32> {
    let u = c as u32;
    if 0x30 <= u <= 0x39 {
        Some((u - 0x30) as u32)
    } else if 0x61 <= u <= 0x66 {
        Some((u - 0x61 + 10) as u32)
    } else if 0x41 <= u <= 0x46 {
        Some((u - 0x41 + 10) as u32)
    } else {
        None
    }
}

/// The character of an escape `\uXXXX` from its four digits `d`; none when a
/// digit is not hexadecimal or the code is half of a UTF-16 surrogate pair.
pub open spec fn unicode_escape(d: Seq<char>) -> Option<char> {
    match (hex_value(d[0]), hex_value(d[1]), hex_value(d[2]), hex_value(d[3])) {
        (Some(a), Some(b), Some(c), Some(e)) => {
            let v = 4096 * a + 256 * b + 16 * c + e;
            if 0xD800 <= v <= 0xDFFF {
                None
            } else {
                Some(v as char)
            }
        },
        _ => None,
    }
}

/// The character that a two-character escape `\e` stands for.
pub open spec fn short_escape(e: char) -> Option<char> {
    if e == '"' {
        Some('"')
    } else if e == '\\' {
        Some('\\')
    } else if e == '/' {
        Some('/')
    } else if e == 'b' {
        Some(0x08u32 as char)
    } else if e == 'f' {
        Some(0x0Cu32 as char)
    } else if e == 'n' {
        Some(0x0Au32 as char)
    } else if e == 'r' {
        Some(0x0Du32 as char)
    } else if e == 't' {
        Some(0x09u32 as char)
    } else {
        None
    }
}

/// `c` put in front of the text of a reading.
pub open spec fn read_prepend(c: char, r: Option<(Seq<char>, Seq<char>)>) -> Option<
    (Seq<char>, Seq<char>),
> {
    match r {
        Some((text, rest)) => Some((seq![c] + text, rest)),
        None => None,
    }
}

/// Reads a JSON string literal from just after its opening quote: the text
/// it stands for and what follows its closing quote; none when the literal
/// is cut short, holds a raw control character or an unknown escape, or
/// escapes half of a surrogate pair.
pub open spec fn read_string_body(s: Seq<char>) -> Option<(Seq<char>, Seq<char>)>
    decreases s.len(),
{
    if s.len() == 0 {
        None
    } else if s[0] == '"' {
        Some((seq![], s.drop_first()))
    } else if s[0] == '\\' {
        if s.len() < 2 {
            None
        } else if s[1] == 'u' {
            if s.len() < 6 {
                None
            } else {
                match unicode_escape(s.subrange(2, 6)) {
                    Some(c) => read_prepend(c, read_string_body(s.skip(6))),
                    None => None,
                }
            }
        } else {
            match short_escape(s[1]) {
                Some(c) => read_prepend(c, read_string_body(s.skip(2))),
                None => None,
            }
        }
    } else if (s[0] as u32) < 0x20 {
        None
    } else {
        read_prepend(s[0], read_string_body(s.drop_first()))
    }
}

/// Reads a JSON string literal at the start of `s`: the text it stands for
/// and what follows it.
pub open spec fn read_string(s: Seq<char>) -> Option<(Seq<char>, Seq<char>)> {
    if s.len() > 0 && s[0] == '"' {
        read_string_body(s.drop_first())
    } else {
        None
    }
}

proof fn lemma_hex_digit_value(v: u32)
    requires
        v < 16,
    ensures
        hex_value(hex_digit(v)) == Some(v),
{
}

/// Reading back one escaped character and then the rest.
proof fn lemma_read_escaped_char(c: char, x: Seq<char>)
    ensures
        read_string_body(json_escaped_char(c) + x) == read_prepend(c, read_string_body(x)),
{
    let u = c as u32;
    let w = json_escaped_char(c) + x;
    if c == '"' || c == '\\' || u == 0x08 || u == 0x0C || u == 0x0A || u == 0x0D || u == 0x09 {
        assert(w.skip(2) =~= x);
    } else if u < 0x20 {
        lemma_hex_digit_value(u / 16);
        lemma_hex_digit_value(u % 16);
        assert(w.skip(6) =~= x);
        assert(w.subrange(2, 6) =~= seq!['0', '0', hex_digit(u / 16), hex_digit(u % 16)]);
        assert(4096 * 0 + 256 * 0 + 16 * (u / 16) + (u % 16) == u);
    } else {
        assert(w.drop_first() =~= x);
    }
}

/// What `json_escaped` writes, followed by a closing quote, reads back as the
/// text it was written from.
pub proof fn lemma_read_escaped(s: Seq<char>, rest: Seq<char>)
    ensures
        read_string_body(json_escaped(s) + seq!['"'] + rest) == Some((s, rest)),
    decreases s.len(),
{
    if s.len() == 0 {
        let w = json_escaped(s) + seq!['"'] + rest;
        assert(w =~= seq!['"'] + rest);
        assert(w.drop_first() =~= rest);
    } else {
        let t = s.drop_first();
        lemma_read_escaped(t, rest);
        let x = json_escaped(t) + seq!['"'] + rest;
        lemma_read_escaped_char(s[0], x);
        assert(json_escaped(s) + seq!['"'] + rest =~= json_escaped_char(s[0]) + x);
        assert(seq![s[0]] + t =~= s);
    }
}

/// A JSON string written by `json_string`, whatever follows it, reads back as
/// the text it was written from, with what follows left over.
pub proof fn law_json_string_reads_back(s: Seq<char>, rest: Seq<char>)
    ensures
        read_string(json_string(s) + rest) == Some((s, rest)),
{
    let w = json_string(s) + rest;
    lemma_read_escaped(s, rest);
    assert(w.drop_first() =~= json_escaped(s) + seq!['"'] + rest);
}

/// A text with no double quote, no backslash and no control character below
/// U+0020 is written between quotes as it is.
pub proof fn law_plain_text_is_quoted_as_is(s: Seq<char>)
    requires
        forall|i: int|
            0 <= i < s.len() ==> #[trigger] s[i] != '"' && s[i] != '\\' && (s[i] as u32) >= 0x20,
    ensures
        json_string(s) == seq!['"'] + s + seq!['"'],
{
    lemma_plain_escaped(s);
}

proof fn lemma_plain_escaped(s: Seq<char>)
    requires
        forall|i: int|
            0 <= i < s.len() ==> #[trigger] s[i] != '"' && s[i] != '\\' && (s[i] as u32) >= 0x20,
    ensures
        json_escaped(s) == s,
    decreases s.len(),
{
    if s.len() > 0 {
        let t = s.drop_first();
        assert forall|i: int| 0 <= i < t.len() implies #[trigger] t[i] != '"' && t[i] != '\\' && (
        t[i] as u32) >= 0x20 by {
            assert(t[i] == s[i + 1]);
        }
        lemma_plain_escaped(t);
        assert(s[0] != '"' && s[0] != '\\' && (s[0] as u32) >= 0x20);
        assert(json_escaped_char(s[0]) == seq![s[0]]);
        assert(seq![s[0]] + t =~= s);
    }
}

/// Calls `serde_json::to_string` on a string slice.
///
/// The contract claims the text that serde_json's compact serializer writes
/// for a string: a double quote, each character escaped by its `ESCAPE`
/// table (see `json_escaped_char`), and a closing double quote. For a string
/// the serializer writes into a `Vec<u8>`, which cannot fail, so the error
/// arm is never taken.
#[verifier::external_body]
pub(crate) fn to_json_string(s: &str) -> (r: String)
    ensures
        r@ == json_string(s@),
{
    match serde_json::to_string(s) {
        Ok(text) => text,
        Err(_) => String::new(),
    }
}

} // verus!
