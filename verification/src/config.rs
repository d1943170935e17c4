//! Codec for the persisted workspace configuration.
//!
//! The configuration is a single-field record, written pretty-formatted as
//! `{\n  "path": "<value>"\n}` with the value escaped as a JSON string.  The
//! parser is the codec's inverse and deliberately lenient: any content it
//! cannot make sense of yields `None`, which the store answers with the
//! default workspace rather than an error.

use vstd::prelude::*;

verus! {

/// JSON whitespace.
pub open spec fn is_ws(c: char) -> bool {
    c == ' ' || c == '\t' || c == '\n' || c == '\r'
}

/// The lowercase hexadecimal digit character for a value below sixteen.
pub open spec fn hex_char(d: int) -> char {
    if d == 0 {
        '0'
    } else if d == 1 {
        '1'
    } else if d == 2 {
        '2'
    } else if d == 3 {
        '3'
    } else if d == 4 {
        '4'
    } else if d == 5 {
        '5'
    } else if d == 6 {
        '6'
    } else if d == 7 {
        '7'
    } else if d == 8 {
        '8'
    } else if d == 9 {
        '9'
    } else if d == 10 {
        'a'
    } else if d == 11 {
        'b'
    } else if d == 12 {
        'c'
    } else if d == 13 {
        'd'
    } else if d == 14 {
        'e'
    } else {
        'f'
    }
}

/// The value of a hexadecimal digit character, either case; -1 for any other
/// character.
pub open spec fn hex_value(c: char) -> int {
    if c == '0' {
        0
    } else if c == '1' {
        1
    } else if c == '2' {
        2
    } else if c == '3' {
        3
    } else if c == '4' {
        4
    } else if c == '5' {
        5
    } else if c == '6' {
        6
    } else if c == '7' {
        7
    } else if c == '8' {
        8
    } else if c == '9' {
        9
    } else if c == 'a' || c == 'A' {
        10
    } else if c == 'b' || c == 'B' {
        11
    } else if c == 'c' || c == 'C' {
        12
    } else if c == 'd' || c == 'D' {
        13
    } else if c == 'e' || c == 'E' {
        14
    } else if c == 'f' || c == 'F' {
        15
    } else {
        -1
    }
}

/// The character with the given code below 256.
pub open spec fn code_char(code: int) -> char {
    (code as u8) as char
}

/// The escaped form of one character inside a JSON string: quote, backslash
/// and the five named control characters get their two-character escapes,
/// any other control character a `\u00xx` escape, and everything else stands
/// for itself.
pub open spec fn escape_char(c: char) -> Seq<char> {
    if c == '"' {
        seq!['\\', '"']
    } else if c == '\\' {
        seq!['\\', '\\']
    } else if c == '\u{8}' {
        seq!['\\', 'b']
    } else if c == '\t' {
        seq!['\\', 't']
    } else if c == '\n' {
        seq!['\\', 'n']
    } else if c == '\u{c}' {
        seq!['\\', 'f']
    } else if c == '\r' {
        seq!['\\', 'r']
    } else if (c as int) < 0x20 {
        seq!['\\', 'u', '0', '0', hex_char(c as int / 16), hex_char(c as int % 16)]
    } else {
        seq![c]
    }
}

/// The escaped form of a whole string.
pub open spec fn escape_string(s: Seq<char>) -> Seq<char>
    decreases s.len(),
{
    if s.len() == 0 {
        Seq::empty()
    } else {
        escape_char(s[0]) + escape_string(s.drop_first())
    }
}

/// The pretty-formatted configuration record holding the given path.
pub open spec fn encode_config_spec(path: Seq<char>) -> Seq<char> {
    "{\n  \"path\": \""@ + escape_string(path) + "\"\n}"@
}

/// The first index at or after `i` holding a non-whitespace character, or
/// the length of the input.
pub open spec fn skip_ws_spec(s: Seq<char>, i: int) -> int
    decreases s.len() - i,
{
    if 0 <= i < s.len() && is_ws(s[i]) {
        skip_ws_spec(s, i + 1)
    } else {
        i
    }
}

/// The character decoded by a two-character JSON escape.
pub open spec fn unescape_simple(e: char) -> char {
    if e == 'b' {
        '\u{8}'
    } else if e == 'f' {
        '\u{c}'
    } else if e == 'n' {
        '\n'
    } else if e == 'r' {
        '\r'
    } else if e == 't' {
        '\t'
    } else {
        e
    }
}

/// Parsing the body of a JSON string from index `i` up to its closing quote:
/// the decoded characters and the index just past the quote.  Unterminated
/// input, a raw control character, or an escape outside the forms the
/// encoder can produce (the two-character escapes, `\/`, and `\u00xx`)
/// yields `None`.
pub open spec fn parse_jstring_body(s: Seq<char>, i: int) -> Option<(Seq<char>, int)>
    decreases s.len() - i,
{
    if i < 0 || i >= s.len() {
        None
    } else if s[i] == '"' {
        Some((Seq::empty(), i + 1))
    } else if s[i] == '\\' {
        if i + 2 <= s.len() {
            let e = s[i + 1];
            if e == '"' || e == '\\' || e == '/' || e == 'b' || e == 'f' || e == 'n' || e == 'r'
                || e == 't' {
                match parse_jstring_body(s, i + 2) {
                    None => None,
                    Some(p) => Some((seq![unescape_simple(e)] + p.0, p.1)),
                }
            } else if e == 'u' {
                if i + 6 <= s.len() && s[i + 2] == '0' && s[i + 3] == '0' && hex_value(s[i + 4])
                    >= 0 && hex_value(s[i + 5]) >= 0 {
                    match parse_jstring_body(s, i + 6) {
                        None => None,
                        Some(p) => Some(
                            (
                                seq![code_char(16 * hex_value(s[i + 4]) + hex_value(s[i + 5]))]
                                    + p.0,
                                p.1,
                            ),
                        ),
                    }
                } else {
                    None
                }
            } else {
                None
            }
        } else {
            None
        }
    } else if (s[i] as int) < 0x20 {
        None
    } else {
        match parse_jstring_body(s, i + 1) {
            None => None,
            Some(p) => Some((seq![s[i]] + p.0, p.1)),
        }
    }
}

/// Whether the quoted key `"path"` stands at index `i`.
pub open spec fn has_key_at(s: Seq<char>, i: int) -> bool {
    &&& 0 <= i
    &&& i + 6 <= s.len()
    &&& s[i] == '"'
    &&& s[i + 1] == 'p'
    &&& s[i + 2] == 'a'
    &&& s[i + 3] == 't'
    &&& s[i + 4] == 'h'
    &&& s[i + 5] == '"'
}

/// Parsing a whole configuration record: one object with the single key
/// `path` and a string value, with whitespace allowed between the tokens and
/// around the object.  Anything else yields `None`.
pub open spec fn parse_config_spec(s: Seq<char>) -> Option<Seq<char>> {
    let i0 = skip_ws_spec(s, 0);
    if !(i0 < s.len() && s[i0] == '{') {
        None
    } else {
        let i1 = skip_ws_spec(s, i0 + 1);
        if !has_key_at(s, i1) {
            None
        } else {
            let i2 = skip_ws_spec(s, i1 + 6);
            if !(i2 < s.len() && s[i2] == ':') {
                None
            } else {
                let i3 = skip_ws_spec(s, i2 + 1);
                if !(i3 < s.len() && s[i3] == '"') {
                    None
                } else {
                    match parse_jstring_body(s, i3 + 1) {
                        None => None,
                        Some(p) => {
                            let k = skip_ws_spec(s, p.1);
                            if !(k < s.len() && s[k] == '}') {
                                None
                            } else if skip_ws_spec(s, k + 1) == s.len() {
                                Some(p.0)
                            } else {
                                None
                            }
                        },
                    }
                }
            }
        }
    }
}

/// Relies on `String::push`: appends exactly the given character.
#[verifier::external_body]
fn push_char(s: &mut String, c: char)
    ensures
        final(s)@ == old(s)@ + seq![c],
{
    s.push(c);
}

/// The one-character string for a lowercase hexadecimal digit.
fn hex_str(d: u32) -> (s: &'static str)
    requires
        d < 16,
    ensures
        s@ == seq![hex_char(d as int)],
{
    proof {
        reveal_strlit("0");
        reveal_strlit("1");
        reveal_strlit("2");
        reveal_strlit("3");
        reveal_strlit("4");
        reveal_strlit("5");
        reveal_strlit("6");
        reveal_strlit("7");
        reveal_strlit("8");
        reveal_strlit("9");
        reveal_strlit("a");
        reveal_strlit("b");
        reveal_strlit("c");
        reveal_strlit("d");
        reveal_strlit("e");
        reveal_strlit("f");
    }
    match d {
        0 => "0",
        1 => "1",
        2 => "2",
        3 => "3",
        4 => "4",
        5 => "5",
        6 => "6",
        7 => "7",
        8 => "8",
        9 => "9",
        10 => "a",
        11 => "b",
        12 => "c",
        13 => "d",
        14 => "e",
        _ => "f",
    }
}

/// The value of a hexadecimal digit character, either case.
fn hex_val(c: char) -> (r: Option<u8>)
    ensures
        match r {
            Some(v) => hex_value(c) == v as int && v < 16,
            None => hex_value(c) < 0,
        },
{
    match c {
        '0' => Some(0),
        '1' => Some(1),
        '2' => Some(2),
        '3' => Some(3),
        '4' => Some(4),
        '5' => Some(5),
        '6' => Some(6),
        '7' => Some(7),
        '8' => Some(8),
        '9' => Some(9),
        'a' | 'A' => Some(10),
        'b' | 'B' => Some(11),
        'c' | 'C' => Some(12),
        'd' | 'D' => Some(13),
        'e' | 'E' => Some(14),
        'f' | 'F' => Some(15),
        _ => None,
    }
}

/// Escaping a string splits over concatenation.
proof fn lemma_escape_append(a: Seq<char>, b: Seq<char>)
    ensures
        escape_string(a + b) == escape_string(a) + escape_string(b),
    decreases a.len(),
{
    if a.len() == 0 {
        assert(a + b =~= b);
        assert(escape_string(a) + escape_string(b) =~= escape_string(b));
    } else {
        assert((a + b)[0] == a[0]);
        assert((a + b).drop_first() =~= a.drop_first() + b);
        lemma_escape_append(a.drop_first(), b);
        assert(escape_char(a[0]) + (escape_string(a.drop_first()) + escape_string(b)) =~= (
        escape_char(a[0]) + escape_string(a.drop_first())) + escape_string(b));
    }
}

/// The escaped form of a one-character string.
proof fn lemma_escape_single(c: char)
    ensures
        escape_string(seq![c]) == escape_char(c),
{
    assert(seq![c].len() == 1);
    assert(seq![c][0] == c);
    assert(seq![c].drop_first() =~= Seq::<char>::empty());
    assert(escape_string(Seq::<char>::empty()) == Seq::<char>::empty());
    assert(escape_char(c) + Seq::<char>::empty() =~= escape_char(c));
}

/// The escaped form of a string with one character appended.
proof fn lemma_escape_snoc(s: Seq<char>, i: int)
    requires
        0 <= i < s.len(),
    ensures
        escape_string(s.take(i + 1)) == escape_string(s.take(i)) + escape_char(s[i]),
{
    assert(s.take(i + 1) =~= s.take(i) + seq![s[i]]);
    lemma_escape_append(s.take(i), seq![s[i]]);
    lemma_escape_single(s[i]);
}

/// The JSON-escaped form of a string.
pub fn escape_json(s: &str) -> (r: String)
    ensures
        r@ == escape_string(s@),
{
    let len = s.unicode_len();
    let mut r = String::new();
    let mut i: usize = 0;
    proof {
        assert(s@.take(0) =~= Seq::<char>::empty());
    }
    while i < len
        invariant
            i <= len,
            len == s@.len(),
            r@ == escape_string(s@.take(i as int)),
        decreases len - i,
    {
        let c = s.get_char(i);
        proof {
            lemma_escape_snoc(s@, i as int);
            reveal_strlit("\\\"");
            reveal_strlit("\\\\");
            reveal_strlit("\\b");
            reveal_strlit("\\t");
            reveal_strlit("\\n");
            reveal_strlit("\\f");
            reveal_strlit("\\r");
            reveal_strlit("\\u00");
        }
        if c == '"' {
            r.append("\\\"");
        } else if c == '\\' {
            r.append("\\\\");
        } else if c == '\u{8}' {
            r.append("\\b");
        } else if c == '\t' {
            r.append("\\t");
        } else if c == '\n' {
            r.append("\\n");
        } else if c == '\u{c}' {
            r.append("\\f");
        } else if c == '\r' {
            r.append("\\r");
        } else if (c as u32) < 0x20 {
            let code = c as u32;
            r.append("\\u00");
            r.append(hex_str(code / 16));
            r.append(hex_str(code % 16));
            assert(r@ =~= escape_string(s@.take(i as int)) + escape_char(c));
        } else {
            push_char(&mut r, c);
            assert(r@ =~= escape_string(s@.take(i as int)) + escape_char(c));
        }
        assert(r@ =~= escape_string(s@.take(i as int)) + escape_char(c));
        i = i + 1;
    }
    proof {
        assert(s@.take(len as int) =~= s@);
    }
    r
}

/// The pretty-formatted configuration record holding the given path.
pub fn encode_config(path: &str) -> (r: String)
    ensures
        r@ == encode_config_spec(path@),
{
    let mut r = String::from_str("{\n  \"path\": \"");
    let esc = escape_json(path);
    r.append(esc.as_str());
    r.append("\"\n}");
    r
}

/// The first index at or after `i` holding a non-whitespace character.
fn skip_ws(s: &str, i: usize) -> (r: usize)
    requires
        i <= s@.len(),
    ensures
        r as int == skip_ws_spec(s@, i as int),
        i <= r <= s@.len(),
{
    let len = s.unicode_len();
    let mut j: usize = i;
    while j < len && (s.get_char(j) == ' ' || s.get_char(j) == '\t' || s.get_char(j) == '\n'
        || s.get_char(j) == '\r')
        invariant
            i <= j <= len,
            len == s@.len(),
            skip_ws_spec(s@, i as int) == skip_ws_spec(s@, j as int),
        decreases len - j,
    {
        j = j + 1;
    }
    j
}

/// Glueing already-decoded characters onto the outcome of parsing the rest
/// of a JSON string body.
spec fn glue(prefix: Seq<char>, r: Option<(Seq<char>, int)>) -> Option<(Seq<char>, int)> {
    match r {
        None => None,
        Some(p) => Some((prefix + p.0, p.1)),
    }
}

proof fn lemma_glue_step(prefix: Seq<char>, d: char, r: Option<(Seq<char>, int)>)
    ensures
        glue(prefix, glue(seq![d], r)) == glue(prefix + seq![d], r),
{
    match r {
        None => {
        },
        Some(p) => {
            assert(prefix + (seq![d] + p.0) =~= (prefix + seq![d]) + p.0);
        },
    }
}

/// Parsing the body of a JSON string from `start` up to its closing quote.
fn parse_string_body(s: &str, start: usize) -> (r: Option<(String, usize)>)
    requires
        start <= s@.len(),
    ensures
        match r {
            Some(p) => parse_jstring_body(s@, start as int) == Some((p.0@, p.1 as int)) && p.1
                <= s@.len(),
            None => parse_jstring_body(s@, start as int) is None,
        },
{
    let len = s.unicode_len();
    let mut built = String::new();
    let mut i: usize = start;
    loop
        invariant
            start <= i <= len,
            len == s@.len(),
            parse_jstring_body(s@, start as int) == glue(
                built@,
                parse_jstring_body(s@, i as int),
            ),
        decreases len - i,
    {
        if i >= len {
            return None;
        }
        let c = s.get_char(i);
        if c == '"' {
            proof {
                assert(built@ + Seq::<char>::empty() =~= built@);
            }
            return Some((built, i + 1));
        }
        if c == '\\' {
            if len - i < 2 {
                return None;
            }
            let e = s.get_char(i + 1);
            let decoded: char;
            let consumed: usize;
            if e == '"' || e == '\\' || e == '/' {
                decoded = e;
                consumed = 2;
            } else if e == 'b' {
                decoded = '\u{8}';
                consumed = 2;
            } else if e == 'f' {
                decoded = '\u{c}';
                consumed = 2;
            } else if e == 'n' {
                decoded = '\n';
                consumed = 2;
            } else if e == 'r' {
                decoded = '\r';
                consumed = 2;
            } else if e == 't' {
                decoded = '\t';
                consumed = 2;
            } else if e == 'u' {
                if len - i < 6 {
                    return None;
                }
                if s.get_char(i + 2) != '0' || s.get_char(i + 3) != '0' {
                    return None;
                }
                let h1 = hex_val(s.get_char(i + 4));
                let h2 = hex_val(s.get_char(i + 5));
                match (h1, h2) {
                    (Some(a), Some(b)) => {
                        let code: u8 = a * 16 + b;
                        decoded = code as char;
                        consumed = 6;
                    },
                    _ => {
                        return None;
                    },
                }
            } else {
                return None;
            }
            proof {
                lemma_glue_step(built@, decoded, parse_jstring_body(s@, i as int + consumed as int));
            }
            push_char(&mut built, decoded);
            i = i + consumed;
        } else if (c as u32) < 0x20 {
            return None;
        } else {
            proof {
                lemma_glue_step(built@, c, parse_jstring_body(s@, i as int + 1));
            }
            push_char(&mut built, c);
            i = i + 1;
        }
    }
}

/// Parsing a whole configuration record; `None` for anything the codec could
/// not have produced.
pub fn parse_config(s: &str) -> (r: Option<String>)
    ensures
        match r {
            Some(p) => parse_config_spec(s@) == Some(p@),
            None => parse_config_spec(s@) is None,
        },
{
    let len = s.unicode_len();
    let i0 = skip_ws(s, 0);
    if i0 >= len || s.get_char(i0) != '{' {
        return None;
    }
    let i1 = skip_ws(s, i0 + 1);
    if len < 6 || i1 > len - 6 {
        return None;
    }
    if s.get_char(i1) != '"' || s.get_char(i1 + 1) != 'p' || s.get_char(i1 + 2) != 'a'
        || s.get_char(i1 + 3) != 't' || s.get_char(i1 + 4) != 'h' || s.get_char(i1 + 5) != '"' {
        return None;
    }
    let i2 = skip_ws(s, i1 + 6);
    if i2 >= len || s.get_char(i2) != ':' {
        return None;
    }
    let i3 = skip_ws(s, i2 + 1);
    if i3 >= len || s.get_char(i3) != '"' {
        return None;
    }
    match parse_string_body(s, i3 + 1) {
        None => None,
        Some((path, j)) => {
            let k = skip_ws(s, j);
            if k >= len || s.get_char(k) != '}' {
                return None;
            }
            let m = skip_ws(s, k + 1);
            if m < len {
                return None;
            }
            Some(path)
        },
    }
}

/// A digit below sixteen comes back out of its hexadecimal character.
proof fn lemma_hex_value_char(d: int)
    requires
        0 <= d < 16,
    ensures
        hex_value(hex_char(d)) == d,
{
}

/// Parsing undoes escaping: wherever the input holds the escaped form of
/// `p` followed by a closing quote, the string body parser decodes exactly
/// `p` and stops just past that quote.
proof fn lemma_parse_escaped(s: Seq<char>, i: int, p: Seq<char>)
    requires
        0 <= i,
        i + escape_string(p).len() + 1 <= s.len(),
        s.subrange(i, i + escape_string(p).len() + 1) == escape_string(p) + seq!['"'],
    ensures
        parse_jstring_body(s, i) == Some((p, i + escape_string(p).len() + 1)),
    decreases p.len(),
{
    let e = escape_string(p);
    let k = e.len() as int;
    let t = e + seq!['"'];
    if p.len() == 0 {
        assert(s[i] == t[0]) by {
            assert(s.subrange(i, i + k + 1)[0] == s[i + 0]);
        }
        assert(s[i] == '"');
        assert(p =~= Seq::<char>::empty());
    } else {
        let c = p[0];
        let rest = p.drop_first();
        let ec = escape_char(c);
        let er = escape_string(rest);
        assert(e == ec + er);
        let n = ec.len() as int;
        let i2 = i + n;
        assert(s.subrange(i2, i2 + er.len() + 1) =~= er + seq!['"']) by {
            assert forall|j: int| 0 <= j < er.len() + 1 implies s.subrange(
                i2,
                i2 + er.len() + 1,
            )[j] == (er + seq!['"'])[j] by {
                assert(s.subrange(i2, i2 + er.len() + 1)[j] == s[i2 + j]);
                assert(s.subrange(i, i + k + 1)[n + j] == s[i + (n + j)]);
                if j < er.len() {
                    assert(t[n + j] == e[n + j]);
                    assert(e[n + j] == er[j]);
                } else {
                    assert(t[n + j] == '"');
                }
            }
        }
        lemma_parse_escaped(s, i2, rest);
        assert(parse_jstring_body(s, i2) == Some((rest, i + k + 1)));
        assert(seq![c] + rest =~= p);
        assert(s[i] == t[0]) by {
            assert(s.subrange(i, i + k + 1)[0] == s[i + 0]);
        }
        assert(s[i + 1] == t[1]) by {
            assert(s.subrange(i, i + k + 1)[1] == s[i + 1]);
        }
        assert(t[0] == ec[0]);
        if c == '"' || c == '\\' || c == '\u{8}' || c == '\t' || c == '\n' || c == '\u{c}' || c
            == '\r' {
            assert(s[i] == '\\');
            assert(t[1] == ec[1]);
            assert(s[i + 1] == ec[1]);
            assert(unescape_simple(ec[1]) == c);
        } else if (c as int) < 0x20 {
            vstd::utf8::char_is_scalar(c);
            vstd::utf8::char_u32_cast(c, c as u32);
            assert(0 <= (c as int) && (c as int) < 0x20);
            let d1 = c as int / 16;
            let d2 = c as int % 16;
            assert(0 <= d1 < 16);
            assert(0 <= d2 < 16);
            assert(s[i + 2] == t[2]) by {
                assert(s.subrange(i, i + k + 1)[2] == s[i + 2]);
            }
            assert(s[i + 3] == t[3]) by {
                assert(s.subrange(i, i + k + 1)[3] == s[i + 3]);
            }
            assert(s[i + 4] == t[4]) by {
                assert(s.subrange(i, i + k + 1)[4] == s[i + 4]);
            }
            assert(s[i + 5] == t[5]) by {
                assert(s.subrange(i, i + k + 1)[5] == s[i + 5]);
            }
            assert(s[i] == '\\');
            assert(s[i + 1] == 'u');
            assert(s[i + 2] == '0');
            assert(s[i + 3] == '0');
            assert(s[i + 4] == hex_char(d1));
            assert(s[i + 5] == hex_char(d2));
            lemma_hex_value_char(d1);
            lemma_hex_value_char(d2);
            assert(16 * d1 + d2 == c as int);
            assert(code_char(c as int) == c);
        } else {
            assert(s[i] == c);
        }
    }
}

/// Round trip of the codec: parsing what the encoder wrote for any path
/// yields exactly that path back.
pub proof fn lemma_config_round_trip(p: Seq<char>)
    ensures
        parse_config_spec(encode_config_spec(p)) == Some(p),
{
    reveal_strlit("{\n  \"path\": \"");
    reveal_strlit("\"\n}");
    let l1 = "{\n  \"path\": \""@;
    let l2 = "\"\n}"@;
    let e = escape_string(p);
    let k = e.len() as int;
    let s = encode_config_spec(p);
    assert(s == l1 + e + l2);
    assert(s.len() == 16 + k);
    assert forall|j: int| 0 <= j < 13 implies s[j] == l1[j] by {
        assert(s[j] == (l1 + e)[j]);
    }
    assert(skip_ws_spec(s, 0) == 0);
    assert(s[0] == '{');
    assert(skip_ws_spec(s, 1) == skip_ws_spec(s, 2));
    assert(skip_ws_spec(s, 2) == skip_ws_spec(s, 3));
    assert(skip_ws_spec(s, 3) == skip_ws_spec(s, 4));
    assert(skip_ws_spec(s, 4) == 4);
    assert(has_key_at(s, 4));
    assert(skip_ws_spec(s, 10) == 10);
    assert(s[10] == ':');
    assert(skip_ws_spec(s, 11) == skip_ws_spec(s, 12));
    assert(skip_ws_spec(s, 12) == 12);
    assert(s[12] == '"');
    assert forall|j: int| 0 <= j < k implies s[13 + j] == e[j] by {
        assert(s[13 + j] == (l1 + e)[13 + j]);
    }
    assert(s[13 + k] == l2[0]);
    assert(s[14 + k] == l2[1]);
    assert(s[15 + k] == l2[2]);
    assert(s.subrange(13, 13 + k + 1) =~= e + seq!['"']) by {
        assert forall|j: int| 0 <= j < k + 1 implies s.subrange(13, 13 + k + 1)[j] == (e
            + seq!['"'])[j] by {
            assert(s.subrange(13, 13 + k + 1)[j] == s[13 + j]);
        }
    }
    lemma_parse_escaped(s, 13, p);
    assert(parse_jstring_body(s, 13) == Some((p, 14 + k)));
    assert(skip_ws_spec(s, 14 + k) == skip_ws_spec(s, 15 + k));
    assert(skip_ws_spec(s, 15 + k) == 15 + k);
    assert(s[15 + k] == '}');
    assert(skip_ws_spec(s, 16 + k) == 16 + k);
}

} // verus!
