//! String literals in JSON notation.
//!
//! The writer escapes what JSON requires to be escaped and nothing else. The
//! reader accepts every escape that JSON defines except `\u` escapes of
//! surrogate halves.

use crate::text::{chars_of, has_at, lemma_has_at_char, lemma_has_at_split};
use vstd::prelude::*;

verus! {

/// `char::from_u32` gives the character with the given code point, and
/// nothing for a surrogate half or a number beyond the last code point.
pub assume_specification[ char::from_u32 ](code: u32) -> (r: Option<char>)
    ensures
        r == if code < 0xD800 || (0xE000 <= code && code <= 0x10FFFF) {
            Some(code as char)
        } else {
            None::<char>
        },
;

/// Whether `c` is a control character, which JSON forbids inside a string
/// literal unless escaped.
pub open spec fn is_control(c: char) -> bool {
    (c as u32) < 0x20
}

/// The lower-case hexadecimal digit for `d`, for `d` below sixteen.
pub open spec fn hex_char(d: nat) -> char {
    if d < 10 {
        (d + '0' as nat) as char
    } else {
        (d - 10 + 'a' as nat) as char
    }
}

/// The number that the hexadecimal digit `c` stands for, in either case.
pub open spec fn hex_value(c: char) -> Option<nat> {
    if '0' <= c && c <= '9' {
        Some((c as int - '0' as int) as nat)
    } else if 'a' <= c && c <= 'f' {
        Some((c as int - 'a' as int + 10) as nat)
    } else if 'A' <= c && c <= 'F' {
        Some((c as int - 'A' as int + 10) as nat)
    } else {
        None
    }
}

/// What stands for the character `c` inside a string literal.
pub open spec fn escape_char(c: char) -> Seq<char> {
    if c == '"' {
        seq!['\\', '"']
    } else if c == '\\' {
        seq!['\\', '\\']
    } else if c == '\u{8}' {
        seq!['\\', 'b']
    } else if c == '\u{c}' {
        seq!['\\', 'f']
    } else if c == '\n' {
        seq!['\\', 'n']
    } else if c == '\r' {
        seq!['\\', 'r']
    } else if c == '\t' {
        seq!['\\', 't']
    } else if is_control(c) {
        seq!['\\', 'u', '0', '0', hex_char((c as nat) / 16), hex_char((c as nat) % 16)]
    } else {
        seq![c]
    }
}

/// What stands for the text `s` inside a string literal.
pub open spec fn escaped(s: Seq<char>) -> Seq<char>
    decreases s.len(),
{
    if s.len() == 0 {
        Seq::<char>::empty()
    } else {
        escape_char(s[0]) + escaped(s.drop_first())
    }
}

/// The string literal for the text `s`: its escaped form between quotes.
pub open spec fn quoted(s: Seq<char>) -> Seq<char> {
    seq!['"'] + escaped(s) + seq!['"']
}

/// The character that the two-character escape `\e` stands for.
pub open spec fn short_escape(e: char) -> Option<char> {
    if e == '"' {
        Some('"')
    } else if e == '\\' {
        Some('\\')
    } else if e == '/' {
        Some('/')
    } else if e == 'b' {
        Some('\u{8}')
    } else if e == 'f' {
        Some('\u{c}')
    } else if e == 'n' {
        Some('\n')
    } else if e == 'r' {
        Some('\r')
    } else if e == 't' {
        Some('\t')
    } else {
        None
    }
}

/// The code point that four hexadecimal digits at position `i` stand for.
pub open spec fn parse_hex4(s: Seq<char>, i: int) -> Option<nat> {
    if 0 <= i && i + 4 <= s.len() {
        match (hex_value(s[i]), hex_value(s[i + 1]), hex_value(s[i + 2]), hex_value(s[i + 3])) {
            (Some(a), Some(b), Some(c), Some(d)) => Some(((a * 16 + b) * 16 + c) * 16 + d),
            _ => None,
        }
    } else {
        None
    }
}

/// Reads one character of a string literal's body at position `i`: the
/// character, and the position after what stood for it. A quote or an
/// unescaped control character is no character of the body.
pub open spec fn parse_char(s: Seq<char>, i: int) -> Option<(char, int)> {
    if !(0 <= i < s.len()) {
        None
    } else if s[i] == '\\' {
        if i + 1 >= s.len() {
            None
        } else if s[i + 1] == 'u' {
            match parse_hex4(s, i + 2) {
                Some(code) => if code < 0xD800 || 0xE000 <= code {
                    Some((code as char, i + 6))
                } else {
                    None
                },
                None => None,
            }
        } else {
            match short_escape(s[i + 1]) {
                Some(c) => Some((c, i + 2)),
                None => None,
            }
        }
    } else if s[i] == '"' || is_control(s[i]) {
        None
    } else {
        Some((s[i], i + 1))
    }
}

/// Reads the body of a string literal from position `i` up to its closing
/// quote: the text it stands for, and the position after the quote.
pub open spec fn parse_body(s: Seq<char>, i: int) -> Option<(Seq<char>, int)>
    decreases s.len() - i,
{
    if !(0 <= i < s.len()) {
        None
    } else if s[i] == '"' {
        Some((Seq::<char>::empty(), i + 1))
    } else {
        match parse_char(s, i) {
            Some((c, next)) => if i < next {
                match parse_body(s, next) {
                    Some((rest, end)) => Some((seq![c] + rest, end)),
                    None => None,
                }
            } else {
                None
            },
            None => None,
        }
    }
}

/// Reads a string literal at position `i`: the text it stands for, and the
/// position after its closing quote.
pub open spec fn parse_string(s: Seq<char>, i: int) -> Option<(Seq<char>, int)> {
    if 0 <= i < s.len() && s[i] == '"' {
        parse_body(s, i + 1)
    } else {
        None
    }
}

fn hex_digit(d: u32) -> (c: char)
    requires
        d < 16,
    ensures
        c == hex_char(d as nat),
        hex_value(c) == Some(d as nat),
{
    if d < 10 {
        (d as u8 + 48u8) as char
    } else {
        (d as u8 + 87u8) as char
    }
}

fn push_escaped_char(out: &mut String, c: char)
    ensures
        final(out)@ == old(out)@ + escape_char(c),
{
    let ghost before = out@;
    if c == '"' {
        out.push('\\');
        out.push('"');
    } else if c == '\\' {
        out.push('\\');
        out.push('\\');
    } else if c == '\u{8}' {
        out.push('\\');
        out.push('b');
    } else if c == '\u{c}' {
        out.push('\\');
        out.push('f');
    } else if c == '\n' {
        out.push('\\');
        out.push('n');
    } else if c == '\r' {
        out.push('\\');
        out.push('r');
    } else if c == '\t' {
        out.push('\\');
        out.push('t');
    } else if (c as u32) < 0x20 {
        let code: u32 = c as u32;
        out.push('\\');
        out.push('u');
        out.push('0');
        out.push('0');
        out.push(hex_digit(code / 16));
        out.push(hex_digit(code % 16));
    } else {
        out.push(c);
    }
    assert(out@ =~= before + escape_char(c));
}

/// Appends the string literal for `s` to `out`.
pub fn push_quoted(out: &mut String, s: &str)
    ensures
        final(out)@ == old(out)@ + quoted(s@),
{
    let v = chars_of(s);
    let ghost before = out@;
    out.push('"');
    let mut i: usize = 0;
    assert(v@.skip(0) =~= v@);
    while i < v.len()
        invariant
            i <= v.len(),
            out@ + escaped(v@.skip(i as int)) == before + seq!['"'] + escaped(v@),
        decreases v.len() - i,
    {
        let ghost so_far = out@;
        let ghost rest = v@.skip(i as int);
        assert(rest.drop_first() =~= v@.skip(i as int + 1));
        push_escaped_char(out, v[i]);
        assert(out@ + escaped(v@.skip(i as int + 1)) =~= so_far + escaped(rest));
        i += 1;
    }
    assert(escaped(v@.skip(i as int)) =~= Seq::<char>::empty());
    assert(out@ =~= before + seq!['"'] + escaped(v@));
    out.push('"');
    assert(out@ =~= before + quoted(s@));
}

fn hex_digit_value(c: char) -> (r: Option<u32>)
    ensures
        match r {
            Some(v) => hex_value(c) == Some(v as nat) && v < 16,
            None => hex_value(c) is None,
        },
{
    if '0' <= c && c <= '9' {
        Some(c as u32 - 48)
    } else if 'a' <= c && c <= 'f' {
        Some(c as u32 - 87)
    } else if 'A' <= c && c <= 'F' {
        Some(c as u32 - 55)
    } else {
        None
    }
}

fn read_hex4(s: &Vec<char>, i: usize) -> (r: Option<u32>)
    requires
        i <= s.len(),
    ensures
        match r {
            Some(code) => parse_hex4(s@, i as int) == Some(code as nat) && code < 0x10000,
            None => parse_hex4(s@, i as int) is None,
        },
{
    if s.len() - i < 4 {
        return None;
    }
    match (
        hex_digit_value(s[i]),
        hex_digit_value(s[i + 1]),
        hex_digit_value(s[i + 2]),
        hex_digit_value(s[i + 3]),
    ) {
        (Some(a), Some(b), Some(c), Some(d)) => Some(((a * 16 + b) * 16 + c) * 16 + d),
        _ => None,
    }
}

fn read_char(s: &Vec<char>, i: usize) -> (r: Option<(char, usize)>)
    requires
        i < s.len(),
    ensures
        match r {
            Some((c, next)) => parse_char(s@, i as int) == Some((c, next as int)) && i < next
                <= s.len(),
            None => parse_char(s@, i as int) is None,
        },
{
    let c: char = s[i];
    if c == '\\' {
        if s.len() - i < 2 {
            return None;
        }
        let e: char = s[i + 1];
        if e == 'u' {
            match read_hex4(s, i + 2) {
                Some(code) => match char::from_u32(code) {
                    Some(decoded) => Some((decoded, i + 6)),
                    None => None,
                },
                None => None,
            }
        } else if e == '"' {
            Some(('"', i + 2))
        } else if e == '\\' {
            Some(('\\', i + 2))
        } else if e == '/' {
            Some(('/', i + 2))
        } else if e == 'b' {
            Some(('\u{8}', i + 2))
        } else if e == 'f' {
            Some(('\u{c}', i + 2))
        } else if e == 'n' {
            Some(('\n', i + 2))
        } else if e == 'r' {
            Some(('\r', i + 2))
        } else if e == 't' {
            Some(('\t', i + 2))
        } else {
            None
        }
    } else if c == '"' || (c as u32) < 0x20 {
        None
    } else {
        Some((c, i + 1))
    }
}

/// Puts `prefix` before the text of a reading result.
pub open spec fn with_prefix(prefix: Seq<char>, r: Option<(Seq<char>, int)>) -> Option<
    (Seq<char>, int),
> {
    match r {
        Some((rest, end)) => Some((prefix + rest, end)),
        None => None,
    }
}

/// Reads a string literal at position `i` of `s`.
pub fn read_string(s: &Vec<char>, i: usize) -> (r: Option<(String, usize)>)
    requires
        i <= s.len(),
    ensures
        match r {
            Some((t, end)) => parse_string(s@, i as int) == Some((t@, end as int)) && i < end
                <= s.len(),
            None => parse_string(s@, i as int) is None,
        },
{
    if i >= s.len() || s[i] != '"' {
        return None;
    }
    let mut out = String::new();
    let mut j: usize = i + 1;
    assert(with_prefix(out@, parse_body(s@, j as int)) =~= parse_body(s@, j as int)) by {
        match parse_body(s@, j as int) {
            Some((rest, end)) => {
                assert(out@ + rest =~= rest);
            },
            None => {},
        }
    }
    while j < s.len() && s[j] != '"'
        invariant
            i < j <= s.len(),
            parse_string(s@, i as int) == with_prefix(out@, parse_body(s@, j as int)),
        decreases s.len() - j,
    {
        match read_char(s, j) {
            Some((c, next)) => {
                proof {
                    match parse_body(s@, next as int) {
                        Some((rest, end)) => {
                            assert(out@ + (seq![c] + rest) =~= out@.push(c) + rest);
                        },
                        None => {},
                    }
                }
                out.push(c);
                j = next;
            },
            None => {
                return None;
            },
        }
    }
    if j >= s.len() {
        return None;
    }
    assert(out@ + Seq::<char>::empty() =~= out@);
    Some((out, j + 1))
}

/// What stands for a character is read back as that character, and does not
/// start with a quote.
proof fn lemma_parse_escape_char(s: Seq<char>, i: int, c: char)
    requires
        has_at(s, i, escape_char(c)),
    ensures
        parse_char(s, i) == Some((c, i + escape_char(c).len())),
        s[i] != '"',
        escape_char(c).len() >= 1,
{
    let e = escape_char(c);
    assert forall|k: int| 0 <= k < e.len() implies s[i + k] == e[k] by {
        lemma_has_at_char(s, i, e, k);
    }
    assert(s[i] == e[0]);
    if c != '"' && c != '\\' && is_control(c) && c != '\u{8}' && c != '\u{c}' && c != '\n' && c
        != '\r' && c != '\t' {
        let hi = (c as nat) / 16;
        let lo = (c as nat) % 16;
        assert(s[i + 1] == 'u');
        assert(s[i + 2] == '0' && s[i + 3] == '0');
        assert(s[i + 4] == hex_char(hi) && s[i + 5] == hex_char(lo));
        assert(hex_value(hex_char(hi)) == Some(hi));
        assert(hex_value(hex_char(lo)) == Some(lo));
        assert(parse_hex4(s, i + 2) == Some(c as nat));
        assert((c as nat) as char == c);
    } else if e.len() == 2 {
        assert(s[i + 1] == e[1]);
    }
}

/// What `escaped` wrote, followed by a quote, is read back as the text.
pub proof fn lemma_parse_escaped(s: Seq<char>, i: int, content: Seq<char>)
    requires
        has_at(s, i, escaped(content) + seq!['"']),
    ensures
        parse_body(s, i) == Some((content, i + escaped(content).len() + 1)),
    decreases content.len(),
{
    if content.len() == 0 {
        lemma_has_at_char(s, i, escaped(content) + seq!['"'], 0);
    } else {
        let head = escape_char(content[0]);
        let tail = escaped(content.drop_first()) + seq!['"'];
        assert(escaped(content) + seq!['"'] =~= head + tail);
        lemma_has_at_split(s, i, head, tail);
        lemma_parse_escape_char(s, i, content[0]);
        lemma_parse_escaped(s, i + head.len(), content.drop_first());
        assert(seq![content[0]] + content.drop_first() =~= content);
    }
}

/// What `quoted` wrote is read back as the text.
pub proof fn lemma_parse_quoted(s: Seq<char>, i: int, content: Seq<char>)
    requires
        has_at(s, i, quoted(content)),
    ensures
        parse_string(s, i) == Some((content, i + quoted(content).len())),
{
    let body = escaped(content) + seq!['"'];
    assert(quoted(content) =~= seq!['"'] + body);
    lemma_has_at_split(s, i, seq!['"'], body);
    lemma_has_at_char(s, i, seq!['"'], 0);
    lemma_parse_escaped(s, i + 1, content);
}

} // verus!
