//! Decoding of read-operation response bodies. The service answers read
//! operations with a JSON envelope whose object holds a `"data"` array
//! of member objects, each carrying a string `"id"`; other fields of
//! the envelope and of the member objects are skipped, as a tolerant
//! JSON reader does. The body is UTF-8 text; identifier strings follow
//! JSON string semantics (the escapes `\" \\ \/ \b \f \n \r \t \uXXXX`
//! with surrogate pairs, and unescaped characters from U+0020 up). The
//! decoder is a recursive-descent parser over the decoded characters,
//! each step proved equal to a spec-level mirror, so the whole decode
//! is pinned: it succeeds exactly on well-formed envelopes and yields
//! the identifiers in array order, unchanged.

use vstd::prelude::*;
use vstd::string::StrSliceExecFns;
use vstd::string::StringExecFns;
use vstd::utf8::decode_utf8;
use vstd::utf8::encode_utf8;
use vstd::utf8::encode_utf8_decode_utf8;
use vstd::utf8::valid_utf8;

use crate::errors::DecodeError;

verus! {

// ---------------------------------------------------------------------
// Whitespace

/// A JSON whitespace character: space, tab, line feed or carriage return.
pub open spec fn is_ws_char(c: char) -> bool {
    c == ' ' || c == '\t' || c == '\n' || c == '\r'
}

/// The first position at or after `i` that does not hold whitespace.
pub open spec fn spec_skip_ws(s: Seq<char>, i: int) -> int
    decreases s.len() - i,
{
    if 0 <= i < s.len() && is_ws_char(s[i]) {
        spec_skip_ws(s, i + 1)
    } else {
        i
    }
}

/// Exec mirror of `is_ws_char`.
fn ws_char(c: char) -> (r: bool)
    ensures
        r == is_ws_char(c),
{
    c == ' ' || c == '\t' || c == '\n' || c == '\r'
}

/// Advances past whitespace.
fn skip_ws(s: &[char], i: usize) -> (r: usize)
    requires
        i <= s@.len(),
    ensures
        r == spec_skip_ws(s@, i as int),
        i <= r <= s@.len(),
    decreases s@.len() - i,
{
    if i < s.len() && ws_char(s[i]) {
        skip_ws(s, i + 1)
    } else {
        i
    }
}

// ---------------------------------------------------------------------
// Strings, with JSON escape semantics

/// A character that may stand unescaped in a JSON string: anything at
/// or above U+0020 except the quote and the backslash.
pub open spec fn is_plain_str_char(c: char) -> bool {
    c != '"' && c != '\\' && (c as u32) >= 0x20
}

/// A hexadecimal digit.
pub open spec fn is_hex_char(c: char) -> bool {
    ('0' <= c && c <= '9') || ('a' <= c && c <= 'f') || ('A' <= c && c <= 'F')
}

/// The value of a hexadecimal digit.
pub open spec fn hex_char_val(c: char) -> int
    recommends
        is_hex_char(c),
{
    if '0' <= c && c <= '9' {
        c as u32 - 48
    } else if 'a' <= c && c <= 'f' {
        c as u32 - 87
    } else {
        c as u32 - 55
    }
}

/// The character a single-character escape `\x` denotes.
pub open spec fn simple_escape(e: char) -> Option<char> {
    if e == '"' {
        Some('"')
    } else if e == '\\' {
        Some('\\')
    } else if e == '/' {
        Some('/')
    } else if e == 'b' {
        Some('\u{0008}')
    } else if e == 'f' {
        Some('\u{000C}')
    } else if e == 'n' {
        Some('\n')
    } else if e == 'r' {
        Some('\r')
    } else if e == 't' {
        Some('\t')
    } else {
        None
    }
}

/// Four hexadecimal digits starting at `i`, as one code unit value.
pub open spec fn spec_hex4(s: Seq<char>, i: int) -> Option<int> {
    if 0 <= i && i + 4 <= s.len() && is_hex_char(s[i]) && is_hex_char(s[i + 1]) && is_hex_char(
        s[i + 2],
    ) && is_hex_char(s[i + 3]) {
        Some(
            4096 * hex_char_val(s[i]) + 256 * hex_char_val(s[i + 1]) + 16 * hex_char_val(s[i + 2])
                + hex_char_val(s[i + 3]),
        )
    } else {
        None
    }
}

/// A `\u` escape, starting right after the `\u` at `i`: one code unit
/// outside the surrogate range, or a high and a low surrogate pair
/// denoting one supplementary character. Yields the position after the
/// digits and the character.
pub open spec fn spec_unicode_escape(s: Seq<char>, i: int) -> Option<(int, char)> {
    match spec_hex4(s, i) {
        Some(v) => {
            if v < 0xD800 || v > 0xDFFF {
                Some((i + 4, ((v as u32) as char)))
            } else if v <= 0xDBFF {
                if i + 6 <= s.len() && s[i + 4] == '\\' && s[i + 5] == 'u' {
                    match spec_hex4(s, i + 6) {
                        Some(w) => {
                            if 0xDC00 <= w && w <= 0xDFFF {
                                Some(
                                    (
                                        i + 10,
                                        (((0x10000 + (v - 0xD800) * 0x400 + (w
                                            - 0xDC00)) as u32) as char),
                                    ),
                                )
                            } else {
                                None
                            }
                        },
                        None => None,
                    }
                } else {
                    None
                }
            } else {
                None
            }
        },
        None => None,
    }
}

/// Parses the remainder of a JSON string, already inside the quotes at
/// `i`: plain characters and escapes up to the closing quote. Yields
/// the position just past the closing quote and the decoded content.
pub open spec fn spec_string_body(s: Seq<char>, i: int) -> Option<(int, Seq<char>)>
    decreases s.len() - i,
{
    if 0 <= i < s.len() {
        let c = s[i];
        if c == '"' {
            Some((i + 1, Seq::empty()))
        } else if c == '\\' {
            if i + 2 <= s.len() {
                let e = s[i + 1];
                if e == 'u' {
                    match spec_unicode_escape(s, i + 2) {
                        Some(p) => {
                            if i < p.0 <= s.len() {
                                match spec_string_body(s, p.0) {
                                    Some(q) => Some((q.0, seq![p.1] + q.1)),
                                    None => None,
                                }
                            } else {
                                None
                            }
                        },
                        None => None,
                    }
                } else {
                    match simple_escape(e) {
                        Some(d) => match spec_string_body(s, i + 2) {
                            Some(q) => Some((q.0, seq![d] + q.1)),
                            None => None,
                        },
                        None => None,
                    }
                }
            } else {
                None
            }
        } else if is_plain_str_char(c) {
            match spec_string_body(s, i + 1) {
                Some(q) => Some((q.0, seq![c] + q.1)),
                None => None,
            }
        } else {
            None
        }
    } else {
        None
    }
}

/// Parses a quoted JSON string starting at `i`.
pub open spec fn spec_string(s: Seq<char>, i: int) -> Option<(int, Seq<char>)> {
    if 0 <= i < s.len() && s[i] == '"' {
        spec_string_body(s, i + 1)
    } else {
        None
    }
}

/// Exec mirror of `is_plain_str_char`.
fn plain_str_char(c: char) -> (r: bool)
    ensures
        r == is_plain_str_char(c),
{
    c != '"' && c != '\\' && (c as u32) >= 0x20
}

/// Exec mirror of `is_hex_char`.
fn hex_char(c: char) -> (r: bool)
    ensures
        r == is_hex_char(c),
{
    ('0' <= c && c <= '9') || ('a' <= c && c <= 'f') || ('A' <= c && c <= 'F')
}

/// The value of a hexadecimal digit.
fn hex_val(c: char) -> (r: u32)
    requires
        is_hex_char(c),
    ensures
        r == hex_char_val(c),
        r < 16,
{
    let u = c as u32;
    if u >= 97 {
        u - 87
    } else if u >= 65 {
        u - 55
    } else {
        u - 48
    }
}

/// Exec mirror of `simple_escape`.
fn simple_escape_exec(e: char) -> (r: Option<char>)
    ensures
        r == simple_escape(e),
{
    if e == '"' {
        Some('"')
    } else if e == '\\' {
        Some('\\')
    } else if e == '/' {
        Some('/')
    } else if e == 'b' {
        Some('\u{0008}')
    } else if e == 'f' {
        Some('\u{000C}')
    } else if e == 'n' {
        Some('\n')
    } else if e == 'r' {
        Some('\r')
    } else if e == 't' {
        Some('\t')
    } else {
        None
    }
}

/// Relies on char::from_u32: a non-surrogate scalar value at most
/// 0x10FFFF converts to exactly the character with that code point.
#[verifier::external_body]
fn char_from_scalar(v: u32) -> (r: char)
    requires
        v < 0xD800 || (0xE000 <= v && v <= 0x10FFFF),
    ensures
        r == ((v as u32) as char),
{
    char::from_u32(v).unwrap()
}

/// Reads four hexadecimal digits.
fn hex4(s: &[char], i: usize) -> (r: Option<u32>)
    requires
        i <= s@.len(),
    ensures
        r is Some <==> spec_hex4(s@, i as int) is Some,
        r is Some ==> r->0 == spec_hex4(s@, i as int)->0 && r->0 < 0x10000,
        r is Some ==> i + 4 <= s@.len(),
{
    if s.len() - i >= 4 {
        let c0 = s[i];
        let c1 = s[i + 1];
        let c2 = s[i + 2];
        let c3 = s[i + 3];
        if hex_char(c0) && hex_char(c1) && hex_char(c2) && hex_char(c3) {
            Some(4096 * hex_val(c0) + 256 * hex_val(c1) + 16 * hex_val(c2) + hex_val(c3))
        } else {
            None
        }
    } else {
        None
    }
}

/// Reads a `\u` escape, starting right after the `\u`.
fn unicode_escape(s: &[char], i: usize) -> (r: Option<(usize, char)>)
    requires
        i <= s@.len(),
    ensures
        r is Some <==> spec_unicode_escape(s@, i as int) is Some,
        r is Some ==> {
            &&& (r->0).0 == (spec_unicode_escape(s@, i as int)->0).0
            &&& (r->0).1 == (spec_unicode_escape(s@, i as int)->0).1
            &&& i < (r->0).0 <= s@.len()
        },
{
    let n = s.len();
    match hex4(s, i) {
        Some(v) => {
            if v < 0xD800 || v > 0xDFFF {
                Some((i + 4, char_from_scalar(v)))
            } else if v <= 0xDBFF {
                if n - i >= 6 && s[i + 4] == '\\' && s[i + 5] == 'u' {
                    match hex4(s, i + 6) {
                        Some(w) => {
                            if 0xDC00 <= w && w <= 0xDFFF {
                                let scalar = 0x10000 + (v - 0xD800) * 0x400 + (w - 0xDC00);
                                Some((i + 10, char_from_scalar(scalar)))
                            } else {
                                None
                            }
                        },
                        None => None,
                    }
                } else {
                    None
                }
            } else {
                None
            }
        },
        None => None,
    }
}

/// Parses the remainder of a JSON string, already inside the quotes.
fn string_body(s: &[char], i: usize) -> (r: Option<(usize, Vec<char>)>)
    requires
        i <= s@.len(),
    ensures
        r is Some <==> spec_string_body(s@, i as int) is Some,
        r is Some ==> {
            &&& (r->0).0 == (spec_string_body(s@, i as int)->0).0
            &&& (r->0).1@ == (spec_string_body(s@, i as int)->0).1
            &&& i < (r->0).0 <= s@.len()
        },
    decreases s@.len() - i,
{
    if i < s.len() {
        let c = s[i];
        if c == '"' {
            Some((i + 1, Vec::new()))
        } else if c == '\\' {
            if s.len() - i >= 2 {
                let e = s[i + 1];
                if e == 'u' {
                    match unicode_escape(s, i + 2) {
                        Some((p, d)) => {
                            match string_body(s, p) {
                                Some((j, mut rest)) => {
                                    let ghost prev = rest@;
                                    rest.insert(0, d);
                                    proof {
                                        assert(rest@ =~= seq![d] + prev);
                                    }
                                    Some((j, rest))
                                },
                                None => None,
                            }
                        },
                        None => None,
                    }
                } else {
                    match simple_escape_exec(e) {
                        Some(d) => match string_body(s, i + 2) {
                            Some((j, mut rest)) => {
                                let ghost prev = rest@;
                                rest.insert(0, d);
                                proof {
                                    assert(rest@ =~= seq![d] + prev);
                                }
                                Some((j, rest))
                            },
                            None => None,
                        },
                        None => None,
                    }
                }
            } else {
                None
            }
        } else if plain_str_char(c) {
            match string_body(s, i + 1) {
                Some((j, mut rest)) => {
                    let ghost prev = rest@;
                    rest.insert(0, c);
                    proof {
                        assert(rest@ =~= seq![c] + prev);
                    }
                    Some((j, rest))
                },
                None => None,
            }
        } else {
            None
        }
    } else {
        None
    }
}

/// Parses a quoted JSON string starting at `i`.
fn parse_string(s: &[char], i: usize) -> (r: Option<(usize, Vec<char>)>)
    requires
        i <= s@.len(),
    ensures
        r is Some <==> spec_string(s@, i as int) is Some,
        r is Some ==> {
            &&& (r->0).0 == (spec_string(s@, i as int)->0).0
            &&& (r->0).1@ == (spec_string(s@, i as int)->0).1
            &&& i < (r->0).0 <= s@.len()
        },
{
    if i < s.len() && s[i] == '"' {
        string_body(s, i + 1)
    } else {
        None
    }
}

// ---------------------------------------------------------------------
// Numbers (skipped, never kept)

/// An ASCII decimal digit.
pub open spec fn is_digit_char(c: char) -> bool {
    '0' <= c && c <= '9'
}

/// The first position at or after `i` that does not hold a digit.
pub open spec fn spec_skip_digits(s: Seq<char>, i: int) -> int
    decreases s.len() - i,
{
    if 0 <= i < s.len() && is_digit_char(s[i]) {
        spec_skip_digits(s, i + 1)
    } else {
        i
    }
}

/// A JSON number starting at `i`: optional minus, an integer part
/// without leading zeros, then optional fraction and exponent, each
/// with at least one digit. Yields the position after it.
pub open spec fn spec_skip_number(s: Seq<char>, i: int) -> Option<int> {
    let j = if 0 <= i < s.len() && s[i] == '-' {
        i + 1
    } else {
        i
    };
    if 0 <= j < s.len() && is_digit_char(s[j]) {
        let k = if s[j] == '0' {
            j + 1
        } else {
            spec_skip_digits(s, j)
        };
        match spec_skip_frac(s, k) {
            Some(m) => spec_skip_exp(s, m),
            None => None,
        }
    } else {
        None
    }
}

/// The optional fraction part at `k`: nothing, or a dot followed by at
/// least one digit.
pub open spec fn spec_skip_frac(s: Seq<char>, k: int) -> Option<int> {
    if 0 <= k < s.len() && s[k] == '.' {
        let d = spec_skip_digits(s, k + 1);
        if d > k + 1 {
            Some(d)
        } else {
            None
        }
    } else {
        Some(k)
    }
}

/// The optional exponent part at `m`: nothing, or `e`/`E`, an optional
/// sign, and at least one digit.
pub open spec fn spec_skip_exp(s: Seq<char>, m: int) -> Option<int> {
    if 0 <= m < s.len() && (s[m] == 'e' || s[m] == 'E') {
        let p = if m + 1 < s.len() && (s[m + 1] == '+' || s[m + 1] == '-') {
            m + 2
        } else {
            m + 1
        };
        let d = spec_skip_digits(s, p);
        if d > p {
            Some(d)
        } else {
            None
        }
    } else {
        Some(m)
    }
}

/// Exec mirror of `is_digit_char`.
fn digit_char(c: char) -> (r: bool)
    ensures
        r == is_digit_char(c),
{
    '0' <= c && c <= '9'
}

/// Advances past digits.
fn skip_digits(s: &[char], i: usize) -> (r: usize)
    requires
        i <= s@.len(),
    ensures
        r == spec_skip_digits(s@, i as int),
        i <= r <= s@.len(),
        i < s@.len() && is_digit_char(s@[i as int]) ==> r > i,
    decreases s@.len() - i,
{
    if i < s.len() && digit_char(s[i]) {
        skip_digits(s, i + 1)
    } else {
        i
    }
}

/// Skips a JSON number.
fn skip_number(s: &[char], i: usize) -> (r: Option<usize>)
    requires
        i <= s@.len(),
    ensures
        r is Some <==> spec_skip_number(s@, i as int) is Some,
        r is Some ==> r->0 == spec_skip_number(s@, i as int)->0 && i < r->0 <= s@.len(),
{
    let j = if i < s.len() && s[i] == '-' {
        i + 1
    } else {
        i
    };
    if j < s.len() && digit_char(s[j]) {
        let k = if s[j] == '0' {
            j + 1
        } else {
            skip_digits(s, j)
        };
        let m = if k < s.len() && s[k] == '.' {
            let d = skip_digits(s, k + 1);
            if d > k + 1 {
                d
            } else {
                return None;
            }
        } else {
            k
        };
        if m < s.len() && (s[m] == 'e' || s[m] == 'E') {
            let p = if m + 1 < s.len() && (s[m + 1] == '+' || s[m + 1] == '-') {
                m + 2
            } else {
                m + 1
            };
            let d = skip_digits(s, p);
            if d > p {
                Some(d)
            } else {
                None
            }
        } else {
            Some(m)
        }
    } else {
        None
    }
}

// ---------------------------------------------------------------------
// Skipping an unknown field's value, of any JSON kind

/// Skips one JSON value starting at `i`: an object, array, string,
/// number, `true`, `false` or `null`. Yields the position after it.
/// The explicit bound checks before each recursive step always hold;
/// they keep the recursion well-founded.
pub open spec fn spec_skip_value(s: Seq<char>, i: int) -> Option<int>
    decreases s.len() - i, 1int,
{
    if 0 <= i < s.len() {
        let c = s[i];
        if c == '"' {
            match spec_string_body(s, i + 1) {
                Some(p) => Some(p.0),
                None => None,
            }
        } else if c == '{' {
            spec_skip_fields(s, i + 1)
        } else if c == '[' {
            spec_skip_elems(s, i + 1)
        } else if c == 't' {
            if i + 4 <= s.len() && s[i + 1] == 'r' && s[i + 2] == 'u' && s[i + 3] == 'e' {
                Some(i + 4)
            } else {
                None
            }
        } else if c == 'f' {
            if i + 5 <= s.len() && s[i + 1] == 'a' && s[i + 2] == 'l' && s[i + 3] == 's' && s[i + 4]
                == 'e' {
                Some(i + 5)
            } else {
                None
            }
        } else if c == 'n' {
            if i + 4 <= s.len() && s[i + 1] == 'u' && s[i + 2] == 'l' && s[i + 3] == 'l' {
                Some(i + 4)
            } else {
                None
            }
        } else if c == '-' || is_digit_char(c) {
            spec_skip_number(s, i)
        } else {
            None
        }
    } else {
        None
    }
}

/// Skips one `"key": value` pair of a skipped object, starting at the
/// key's opening quote.
pub open spec fn spec_skip_pair(s: Seq<char>, i: int) -> Option<int>
    decreases s.len() - i, 0int,
{
    match spec_string(s, i) {
        Some(p) => {
            if i < p.0 <= s.len() {
                let m = spec_skip_ws(s, p.0);
                if m < s.len() && s[m] == ':' {
                    let v = spec_skip_ws(s, m + 1);
                    if i < v <= s.len() {
                        spec_skip_value(s, v)
                    } else {
                        None
                    }
                } else {
                    None
                }
            } else {
                None
            }
        },
        None => None,
    }
}

/// Skips the fields of a skipped object, right after its `{`.
pub open spec fn spec_skip_fields(s: Seq<char>, i: int) -> Option<int>
    decreases s.len() - i, 2int,
{
    let j = spec_skip_ws(s, i);
    if i <= j <= s.len() {
        if j < s.len() && s[j] == '}' {
            Some(j + 1)
        } else {
            match spec_skip_pair(s, j) {
                Some(e) => {
                    if i < e <= s.len() {
                        spec_skip_fields_more(s, e)
                    } else {
                        None
                    }
                },
                None => None,
            }
        }
    } else {
        None
    }
}

/// Skips the fields of a skipped object after one pair: a comma and
/// another pair, or the closing brace.
pub open spec fn spec_skip_fields_more(s: Seq<char>, i: int) -> Option<int>
    decreases s.len() - i, 2int,
{
    let w = spec_skip_ws(s, i);
    if i <= w <= s.len() {
        if w < s.len() && s[w] == ',' {
            let k = spec_skip_ws(s, w + 1);
            if w < k <= s.len() {
                match spec_skip_pair(s, k) {
                    Some(e) => {
                        if k < e <= s.len() {
                            spec_skip_fields_more(s, e)
                        } else {
                            None
                        }
                    },
                    None => None,
                }
            } else {
                None
            }
        } else if w < s.len() && s[w] == '}' {
            Some(w + 1)
        } else {
            None
        }
    } else {
        None
    }
}

/// Skips the elements of a skipped array, right after its `[`.
pub open spec fn spec_skip_elems(s: Seq<char>, i: int) -> Option<int>
    decreases s.len() - i, 2int,
{
    let j = spec_skip_ws(s, i);
    if i <= j <= s.len() {
        if j < s.len() && s[j] == ']' {
            Some(j + 1)
        } else {
            match spec_skip_value(s, j) {
                Some(e) => {
                    if i < e <= s.len() {
                        spec_skip_elems_more(s, e)
                    } else {
                        None
                    }
                },
                None => None,
            }
        }
    } else {
        None
    }
}

/// Skips the elements of a skipped array after one element: a comma
/// and another element, or the closing bracket.
pub open spec fn spec_skip_elems_more(s: Seq<char>, i: int) -> Option<int>
    decreases s.len() - i, 2int,
{
    let w = spec_skip_ws(s, i);
    if i <= w <= s.len() {
        if w < s.len() && s[w] == ',' {
            let k = spec_skip_ws(s, w + 1);
            if w < k <= s.len() {
                match spec_skip_value(s, k) {
                    Some(e) => {
                        if k < e <= s.len() {
                            spec_skip_elems_more(s, e)
                        } else {
                            None
                        }
                    },
                    None => None,
                }
            } else {
                None
            }
        } else if w < s.len() && s[w] == ']' {
            Some(w + 1)
        } else {
            None
        }
    } else {
        None
    }
}

/// Skips one JSON value.
fn skip_value(s: &[char], i: usize) -> (r: Option<usize>)
    requires
        i <= s@.len(),
    ensures
        r is Some <==> spec_skip_value(s@, i as int) is Some,
        r is Some ==> r->0 == spec_skip_value(s@, i as int)->0 && i < r->0 <= s@.len(),
    decreases s@.len() - i, 1int,
{
    if i < s.len() {
        let c = s[i];
        if c == '"' {
            match string_body(s, i + 1) {
                Some((p, _content)) => Some(p),
                None => None,
            }
        } else if c == '{' {
            skip_fields(s, i + 1)
        } else if c == '[' {
            skip_elems(s, i + 1)
        } else if c == 't' {
            if s.len() - i >= 4 && s[i + 1] == 'r' && s[i + 2] == 'u' && s[i + 3] == 'e' {
                Some(i + 4)
            } else {
                None
            }
        } else if c == 'f' {
            if s.len() - i >= 5 && s[i + 1] == 'a' && s[i + 2] == 'l' && s[i + 3] == 's' && s[i + 4]
                == 'e' {
                Some(i + 5)
            } else {
                None
            }
        } else if c == 'n' {
            if s.len() - i >= 4 && s[i + 1] == 'u' && s[i + 2] == 'l' && s[i + 3] == 'l' {
                Some(i + 4)
            } else {
                None
            }
        } else if c == '-' || digit_char(c) {
            skip_number(s, i)
        } else {
            None
        }
    } else {
        None
    }
}

/// Skips one `"key": value` pair of a skipped object.
fn skip_pair(s: &[char], i: usize) -> (r: Option<usize>)
    requires
        i <= s@.len(),
    ensures
        r is Some <==> spec_skip_pair(s@, i as int) is Some,
        r is Some ==> r->0 == spec_skip_pair(s@, i as int)->0 && i < r->0 <= s@.len(),
    decreases s@.len() - i, 0int,
{
    match parse_string(s, i) {
        Some((p, _key)) => {
            let m = skip_ws(s, p);
            if m < s.len() && s[m] == ':' {
                let v = skip_ws(s, m + 1);
                skip_value(s, v)
            } else {
                None
            }
        },
        None => None,
    }
}

/// Skips the fields of a skipped object, right after its `{`.
fn skip_fields(s: &[char], i: usize) -> (r: Option<usize>)
    requires
        i <= s@.len(),
    ensures
        r is Some <==> spec_skip_fields(s@, i as int) is Some,
        r is Some ==> r->0 == spec_skip_fields(s@, i as int)->0 && i < r->0 <= s@.len(),
    decreases s@.len() - i, 2int,
{
    let j = skip_ws(s, i);
    if j < s.len() && s[j] == '}' {
        Some(j + 1)
    } else {
        match skip_pair(s, j) {
            Some(e) => skip_fields_more(s, e),
            None => None,
        }
    }
}

/// Skips the fields of a skipped object after one pair.
fn skip_fields_more(s: &[char], i: usize) -> (r: Option<usize>)
    requires
        i <= s@.len(),
    ensures
        r is Some <==> spec_skip_fields_more(s@, i as int) is Some,
        r is Some ==> r->0 == spec_skip_fields_more(s@, i as int)->0 && i < r->0 <= s@.len(),
    decreases s@.len() - i, 2int,
{
    let w = skip_ws(s, i);
    if w < s.len() && s[w] == ',' {
        let k = skip_ws(s, w + 1);
        match skip_pair(s, k) {
            Some(e) => skip_fields_more(s, e),
            None => None,
        }
    } else if w < s.len() && s[w] == '}' {
        Some(w + 1)
    } else {
        None
    }
}

/// Skips the elements of a skipped array, right after its `[`.
fn skip_elems(s: &[char], i: usize) -> (r: Option<usize>)
    requires
        i <= s@.len(),
    ensures
        r is Some <==> spec_skip_elems(s@, i as int) is Some,
        r is Some ==> r->0 == spec_skip_elems(s@, i as int)->0 && i < r->0 <= s@.len(),
    decreases s@.len() - i, 2int,
{
    let j = skip_ws(s, i);
    if j < s.len() && s[j] == ']' {
        Some(j + 1)
    } else {
        match skip_value(s, j) {
            Some(e) => skip_elems_more(s, e),
            None => None,
        }
    }
}

/// Skips the elements of a skipped array after one element.
fn skip_elems_more(s: &[char], i: usize) -> (r: Option<usize>)
    requires
        i <= s@.len(),
    ensures
        r is Some <==> spec_skip_elems_more(s@, i as int) is Some,
        r is Some ==> r->0 == spec_skip_elems_more(s@, i as int)->0 && i < r->0 <= s@.len(),
    decreases s@.len() - i, 2int,
{
    let w = skip_ws(s, i);
    if w < s.len() && s[w] == ',' {
        let k = skip_ws(s, w + 1);
        match skip_value(s, k) {
            Some(e) => skip_elems_more(s, e),
            None => None,
        }
    } else if w < s.len() && s[w] == ']' {
        Some(w + 1)
    } else {
        None
    }
}

// ---------------------------------------------------------------------
// Member objects: { ... "id": "<identifier>" ... }

/// Parses the fields of a member object, at `i` right after its `{`
/// (with `first` set) or right after a comma (with `first` clear, so a
/// closing brace would be a trailing comma and fails). `found` carries
/// the identifier once its field has been read; the `id` field must
/// appear exactly once and hold a string, and every other field is
/// skipped. Yields the position after the object and the identifier.
pub open spec fn spec_member_fields(
    s: Seq<char>,
    i: int,
    found: Option<Seq<char>>,
    first: bool,
) -> Option<(int, Seq<char>)>
    decreases s.len() - i, 0int,
{
    let j = spec_skip_ws(s, i);
    if i <= j <= s.len() {
        if j < s.len() && s[j] == '}' {
            if first {
                match found {
                    Some(id) => Some((j + 1, id)),
                    None => None,
                }
            } else {
                None
            }
        } else {
            match spec_string(s, j) {
                Some(p) => {
                    if j < p.0 <= s.len() {
                        let m = spec_skip_ws(s, p.0);
                        if m < s.len() && s[m] == ':' {
                            let v = spec_skip_ws(s, m + 1);
                            if i < v <= s.len() {
                                if p.1 == seq!['i', 'd'] {
                                    if found is Some {
                                        None
                                    } else {
                                        match spec_string(s, v) {
                                            Some(q) => {
                                                if v < q.0 <= s.len() {
                                                    spec_member_more(s, q.0, Some(q.1))
                                                } else {
                                                    None
                                                }
                                            },
                                            None => None,
                                        }
                                    }
                                } else {
                                    match spec_skip_value(s, v) {
                                        Some(e) => {
                                            if v < e <= s.len() {
                                                spec_member_more(s, e, found)
                                            } else {
                                                None
                                            }
                                        },
                                        None => None,
                                    }
                                }
                            } else {
                                None
                            }
                        } else {
                            None
                        }
                    } else {
                        None
                    }
                },
                None => None,
            }
        }
    } else {
        None
    }
}

/// After one field of a member object: a comma and another field, or
/// the closing brace (which requires the identifier to have appeared).
pub open spec fn spec_member_more(s: Seq<char>, i: int, found: Option<Seq<char>>) -> Option<
    (int, Seq<char>),
>
    decreases s.len() - i, 1int,
{
    let w = spec_skip_ws(s, i);
    if i <= w <= s.len() {
        if w < s.len() && s[w] == ',' {
            spec_member_fields(s, w + 1, found, false)
        } else if w < s.len() && s[w] == '}' {
            match found {
                Some(id) => Some((w + 1, id)),
                None => None,
            }
        } else {
            None
        }
    } else {
        None
    }
}

/// Parses one member object starting at `i`.
pub open spec fn spec_member(s: Seq<char>, i: int) -> Option<(int, Seq<char>)> {
    if 0 <= i < s.len() && s[i] == '{' {
        spec_member_fields(s, i + 1, None, true)
    } else {
        None
    }
}

/// The spec view of an optional identifier held during field parsing.
spec fn opt_id_view(o: Option<Vec<char>>) -> Option<Seq<char>> {
    match o {
        Some(v) => Some(v@),
        None => None,
    }
}

/// Parses the fields of a member object.
fn member_fields(s: &[char], i: usize, found: Option<Vec<char>>, first: bool) -> (r: Option<
    (usize, Vec<char>),
>)
    requires
        i <= s@.len(),
    ensures
        r is Some <==> spec_member_fields(s@, i as int, opt_id_view(found), first) is Some,
        r is Some ==> {
            &&& (r->0).0 == (spec_member_fields(s@, i as int, opt_id_view(found), first)->0).0
            &&& (r->0).1@ == (spec_member_fields(s@, i as int, opt_id_view(found), first)->0).1
            &&& i <= (r->0).0 <= s@.len()
        },
    decreases s@.len() - i, 0int,
{
    let j = skip_ws(s, i);
    if j < s.len() && s[j] == '}' {
        if first {
            match found {
                Some(id) => Some((j + 1, id)),
                None => None,
            }
        } else {
            None
        }
    } else {
        match parse_string(s, j) {
            Some((pk, key)) => {
                let m = skip_ws(s, pk);
                if m < s.len() && s[m] == ':' {
                    let v = skip_ws(s, m + 1);
                    let is_id = key.len() == 2 && key[0] == 'i' && key[1] == 'd';
                    proof {
                        if is_id {
                            assert(key@ =~= seq!['i', 'd']);
                        } else {
                            if key@ == seq!['i', 'd'] {
                                assert(key@.len() == 2);
                                assert(key@[0] == 'i' && key@[1] == 'd');
                                assert(false);
                            }
                        }
                    }
                    if is_id {
                        match found {
                            Some(_) => None,
                            None => {
                                match parse_string(s, v) {
                                    Some((pv, id)) => member_more(s, pv, Some(id)),
                                    None => None,
                                }
                            },
                        }
                    } else {
                        match skip_value(s, v) {
                            Some(e) => member_more(s, e, found),
                            None => None,
                        }
                    }
                } else {
                    None
                }
            },
            None => None,
        }
    }
}

/// After one field of a member object.
fn member_more(s: &[char], i: usize, found: Option<Vec<char>>) -> (r: Option<(usize, Vec<char>)>)
    requires
        i <= s@.len(),
    ensures
        r is Some <==> spec_member_more(s@, i as int, opt_id_view(found)) is Some,
        r is Some ==> {
            &&& (r->0).0 == (spec_member_more(s@, i as int, opt_id_view(found))->0).0
            &&& (r->0).1@ == (spec_member_more(s@, i as int, opt_id_view(found))->0).1
            &&& i <= (r->0).0 <= s@.len()
        },
    decreases s@.len() - i, 1int,
{
    let w = skip_ws(s, i);
    if w < s.len() && s[w] == ',' {
        member_fields(s, w + 1, found, false)
    } else if w < s.len() && s[w] == '}' {
        match found {
            Some(id) => Some((w + 1, id)),
            None => None,
        }
    } else {
        None
    }
}

/// Parses one member object starting at `i`.
fn parse_member(s: &[char], i: usize) -> (r: Option<(usize, Vec<char>)>)
    requires
        i <= s@.len(),
    ensures
        r is Some <==> spec_member(s@, i as int) is Some,
        r is Some ==> {
            &&& (r->0).0 == (spec_member(s@, i as int)->0).0
            &&& (r->0).1@ == (spec_member(s@, i as int)->0).1
            &&& i < (r->0).0 <= s@.len()
        },
{
    if i < s.len() && s[i] == '{' {
        member_fields(s, i + 1, None, true)
    } else {
        None
    }
}

// ---------------------------------------------------------------------
// The "data" array of member objects

/// Parses the members after the first one: `(ws ',' ws member)* ws ']'`.
pub open spec fn spec_members_rest(s: Seq<char>, i: int) -> Option<(int, Seq<Seq<char>>)>
    decreases s.len() - i,
{
    let j = spec_skip_ws(s, i);
    if i <= j <= s.len() {
        if j < s.len() && s[j] == ',' {
            let k = spec_skip_ws(s, j + 1);
            if j < k <= s.len() {
                match spec_member(s, k) {
                    Some(p) => {
                        if i < p.0 <= s.len() {
                            match spec_members_rest(s, p.0) {
                                Some(q) => Some((q.0, seq![p.1] + q.1)),
                                None => None,
                            }
                        } else {
                            None
                        }
                    },
                    None => None,
                }
            } else {
                None
            }
        } else if j < s.len() && s[j] == ']' {
            Some((j + 1, Seq::empty()))
        } else {
            None
        }
    } else {
        None
    }
}

/// Parses the member array `'[' ws ']'` or `'[' ws member rest`.
pub open spec fn spec_array(s: Seq<char>, i: int) -> Option<(int, Seq<Seq<char>>)> {
    if 0 <= i < s.len() && s[i] == '[' {
        let j = spec_skip_ws(s, i + 1);
        if i < j <= s.len() {
            if j < s.len() && s[j] == ']' {
                Some((j + 1, Seq::empty()))
            } else {
                match spec_member(s, j) {
                    Some(p) => match spec_members_rest(s, p.0) {
                        Some(q) => Some((q.0, seq![p.1] + q.1)),
                        None => None,
                    },
                    None => None,
                }
            }
        } else {
            None
        }
    } else {
        None
    }
}

/// Parses the members after the first one.
fn parse_members_rest(s: &[char], i: usize) -> (r: Option<(usize, Vec<Vec<char>>)>)
    requires
        i <= s@.len(),
    ensures
        r is Some <==> spec_members_rest(s@, i as int) is Some,
        r is Some ==> {
            &&& (r->0).0 == (spec_members_rest(s@, i as int)->0).0
            &&& (r->0).1@.map_values(|v: Vec<char>| v@) == (spec_members_rest(s@, i as int)->0).1
            &&& i <= (r->0).0 <= s@.len()
        },
    decreases s@.len() - i,
{
    let j = skip_ws(s, i);
    if j < s.len() && s[j] == ',' {
        let k = skip_ws(s, j + 1);
        match parse_member(s, k) {
            Some((m, id)) => {
                match parse_members_rest(s, m) {
                    Some((e, mut ids)) => {
                        let ghost prev = ids@;
                        ids.insert(0, id);
                        proof {
                            assert(ids@.map_values(|v: Vec<char>| v@) =~= seq![id@]
                                + prev.map_values(|v: Vec<char>| v@));
                        }
                        Some((e, ids))
                    },
                    None => None,
                }
            },
            None => None,
        }
    } else if j < s.len() && s[j] == ']' {
        Some((j + 1, Vec::new()))
    } else {
        None
    }
}

/// Parses the member array starting at `i`.
fn parse_array(s: &[char], i: usize) -> (r: Option<(usize, Vec<Vec<char>>)>)
    requires
        i <= s@.len(),
    ensures
        r is Some <==> spec_array(s@, i as int) is Some,
        r is Some ==> {
            &&& (r->0).0 == (spec_array(s@, i as int)->0).0
            &&& (r->0).1@.map_values(|v: Vec<char>| v@) == (spec_array(s@, i as int)->0).1
            &&& i < (r->0).0 <= s@.len()
        },
{
    if i < s.len() && s[i] == '[' {
        let j = skip_ws(s, i + 1);
        if j < s.len() && s[j] == ']' {
            let ids: Vec<Vec<char>> = Vec::new();
            proof {
                assert(ids@.map_values(|v: Vec<char>| v@) =~= Seq::<Seq<char>>::empty());
            }
            Some((j + 1, ids))
        } else {
            match parse_member(s, j) {
                Some((m, id)) => match parse_members_rest(s, m) {
                    Some((e, mut ids)) => {
                        let ghost prev = ids@;
                        ids.insert(0, id);
                        proof {
                            assert(ids@.map_values(|v: Vec<char>| v@) =~= seq![id@]
                                + prev.map_values(|v: Vec<char>| v@));
                        }
                        Some((e, ids))
                    },
                    None => None,
                },
                None => None,
            }
        }
    } else {
        None
    }
}

// ---------------------------------------------------------------------
// The envelope object: { ... "data": [ ... ] ... }

/// Parses the fields of the envelope object, like the member object's
/// fields: the `data` field must appear exactly once and hold the
/// member array, every other field is skipped.
pub open spec fn spec_env_fields(
    s: Seq<char>,
    i: int,
    found: Option<Seq<Seq<char>>>,
    first: bool,
) -> Option<(int, Seq<Seq<char>>)>
    decreases s.len() - i, 0int,
{
    let j = spec_skip_ws(s, i);
    if i <= j <= s.len() {
        if j < s.len() && s[j] == '}' {
            if first {
                match found {
                    Some(ids) => Some((j + 1, ids)),
                    None => None,
                }
            } else {
                None
            }
        } else {
            match spec_string(s, j) {
                Some(p) => {
                    if j < p.0 <= s.len() {
                        let m = spec_skip_ws(s, p.0);
                        if m < s.len() && s[m] == ':' {
                            let v = spec_skip_ws(s, m + 1);
                            if i < v <= s.len() {
                                if p.1 == seq!['d', 'a', 't', 'a'] {
                                    if found is Some {
                                        None
                                    } else {
                                        match spec_array(s, v) {
                                            Some(q) => {
                                                if v < q.0 <= s.len() {
                                                    spec_env_more(s, q.0, Some(q.1))
                                                } else {
                                                    None
                                                }
                                            },
                                            None => None,
                                        }
                                    }
                                } else {
                                    match spec_skip_value(s, v) {
                                        Some(e) => {
                                            if v < e <= s.len() {
                                                spec_env_more(s, e, found)
                                            } else {
                                                None
                                            }
                                        },
                                        None => None,
                                    }
                                }
                            } else {
                                None
                            }
                        } else {
                            None
                        }
                    } else {
                        None
                    }
                },
                None => None,
            }
        }
    } else {
        None
    }
}

/// After one field of the envelope object.
pub open spec fn spec_env_more(s: Seq<char>, i: int, found: Option<Seq<Seq<char>>>) -> Option<
    (int, Seq<Seq<char>>),
>
    decreases s.len() - i, 1int,
{
    let w = spec_skip_ws(s, i);
    if i <= w <= s.len() {
        if w < s.len() && s[w] == ',' {
            spec_env_fields(s, w + 1, found, false)
        } else if w < s.len() && s[w] == '}' {
            match found {
                Some(ids) => Some((w + 1, ids)),
                None => None,
            }
        } else {
            None
        }
    } else {
        None
    }
}

/// The identifiers a text denotes when it is the envelope and nothing
/// else; `None` otherwise.
pub open spec fn spec_envelope(s: Seq<char>) -> Option<Seq<Seq<char>>> {
    let i = spec_skip_ws(s, 0);
    if 0 <= i < s.len() && s[i] == '{' {
        match spec_env_fields(s, i + 1, None, true) {
            Some(p) => {
                if spec_skip_ws(s, p.0) == s.len() {
                    Some(p.1)
                } else {
                    None
                }
            },
            None => None,
        }
    } else {
        None
    }
}

/// The spec view of the optional member list held during field parsing.
spec fn opt_list_view(o: Option<Vec<Vec<char>>>) -> Option<Seq<Seq<char>>> {
    match o {
        Some(v) => Some(v@.map_values(|x: Vec<char>| x@)),
        None => None,
    }
}

/// Parses the fields of the envelope object.
fn env_fields(s: &[char], i: usize, found: Option<Vec<Vec<char>>>, first: bool) -> (r: Option<
    (usize, Vec<Vec<char>>),
>)
    requires
        i <= s@.len(),
    ensures
        r is Some <==> spec_env_fields(s@, i as int, opt_list_view(found), first) is Some,
        r is Some ==> {
            &&& (r->0).0 == (spec_env_fields(s@, i as int, opt_list_view(found), first)->0).0
            &&& (r->0).1@.map_values(|v: Vec<char>| v@) == (spec_env_fields(
                s@,
                i as int,
                opt_list_view(found),
                first,
            )->0).1
            &&& i <= (r->0).0 <= s@.len()
        },
    decreases s@.len() - i, 0int,
{
    let j = skip_ws(s, i);
    if j < s.len() && s[j] == '}' {
        if first {
            match found {
                Some(ids) => Some((j + 1, ids)),
                None => None,
            }
        } else {
            None
        }
    } else {
        match parse_string(s, j) {
            Some((pk, key)) => {
                let m = skip_ws(s, pk);
                if m < s.len() && s[m] == ':' {
                    let v = skip_ws(s, m + 1);
                    let is_data = key.len() == 4 && key[0] == 'd' && key[1] == 'a' && key[2] == 't'
                        && key[3] == 'a';
                    proof {
                        if is_data {
                            assert(key@ =~= seq!['d', 'a', 't', 'a']);
                        } else {
                            if key@ == seq!['d', 'a', 't', 'a'] {
                                assert(key@.len() == 4);
                                assert(key@[0] == 'd' && key@[1] == 'a' && key@[2] == 't'
                                    && key@[3] == 'a');
                                assert(false);
                            }
                        }
                    }
                    if is_data {
                        match found {
                            Some(_) => None,
                            None => {
                                match parse_array(s, v) {
                                    Some((pv, ids)) => env_more(s, pv, Some(ids)),
                                    None => None,
                                }
                            },
                        }
                    } else {
                        match skip_value(s, v) {
                            Some(e) => env_more(s, e, found),
                            None => None,
                        }
                    }
                } else {
                    None
                }
            },
            None => None,
        }
    }
}

/// After one field of the envelope object.
fn env_more(s: &[char], i: usize, found: Option<Vec<Vec<char>>>) -> (r: Option<
    (usize, Vec<Vec<char>>),
>)
    requires
        i <= s@.len(),
    ensures
        r is Some <==> spec_env_more(s@, i as int, opt_list_view(found)) is Some,
        r is Some ==> {
            &&& (r->0).0 == (spec_env_more(s@, i as int, opt_list_view(found))->0).0
            &&& (r->0).1@.map_values(|v: Vec<char>| v@) == (spec_env_more(
                s@,
                i as int,
                opt_list_view(found),
            )->0).1
            &&& i <= (r->0).0 <= s@.len()
        },
    decreases s@.len() - i, 1int,
{
    let w = skip_ws(s, i);
    if w < s.len() && s[w] == ',' {
        env_fields(s, w + 1, found, false)
    } else if w < s.len() && s[w] == '}' {
        match found {
            Some(ids) => Some((w + 1, ids)),
            None => None,
        }
    } else {
        None
    }
}

/// Parses a whole text as the membership envelope.
fn parse_envelope(s: &[char]) -> (r: Option<Vec<Vec<char>>>)
    ensures
        r is Some <==> spec_envelope(s@) is Some,
        r is Some ==> (r->0)@.map_values(|v: Vec<char>| v@) == spec_envelope(s@)->0,
{
    let i = skip_ws(s, 0);
    if i < s.len() && s[i] == '{' {
        match env_fields(s, i + 1, None, true) {
            Some((p, ids)) => {
                if skip_ws(s, p) == s.len() {
                    Some(ids)
                } else {
                    None
                }
            },
            None => None,
        }
    } else {
        None
    }
}

// ---------------------------------------------------------------------
// From body bytes to the membership list

/// Relies on str::from_utf8: succeeds exactly on valid UTF-8, and the
/// resulting string slice is over exactly those bytes.
#[verifier::external_body]
fn bytes_to_str(v: &[u8]) -> (r: Option<&str>)
    ensures
        r is Some <==> valid_utf8(v@),
        r is Some ==> encode_utf8(r->0@) == v@,
{
    std::str::from_utf8(v).ok()
}

/// Relies on String::push: appends exactly the one character.
#[verifier::external_body]
pub(crate) fn push_char(s: &mut String, c: char)
    ensures
        final(s)@ == old(s)@ + seq![c],
{
    s.push(c);
}

/// Collects a string slice's characters.
fn chars_vec(s: &str) -> (r: Vec<char>)
    ensures
        r@ == s@,
{
    let n = s.unicode_len();
    let mut out: Vec<char> = Vec::new();
    let mut i: usize = 0;
    while i < n
        invariant
            i <= n,
            n == s@.len(),
            out@ == s@.take(i as int),
        decreases n - i,
    {
        let c = s.get_char(i);
        out.push(c);
        proof {
            assert(out@ =~= s@.take(i as int + 1));
        }
        i += 1;
    }
    proof {
        assert(s@.take(n as int) =~= s@);
    }
    out
}

/// Builds the string holding exactly the given characters.
fn chars_string(b: &Vec<char>) -> (r: String)
    ensures
        r@ == b@,
{
    let mut out = String::new();
    let mut i: usize = 0;
    while i < b.len()
        invariant
            i <= b@.len(),
            out@ == b@.take(i as int),
        decreases b@.len() - i,
    {
        push_char(&mut out, b[i]);
        proof {
            assert(out@ =~= b@.take(i as int + 1));
        }
        i += 1;
    }
    proof {
        assert(b@.take(b@.len() as int) =~= b@);
    }
    out
}

/// An ordered list of identifiers decoded from a read response: group
/// IDs when listing a member's groups, NetIDs when listing a group's
/// members. Order follows the server's response; no dedup, no sort.
pub struct MembershipList {
    pub ids: Vec<String>,
}

impl View for MembershipList {
    type V = Seq<Seq<char>>;

    open spec fn view(&self) -> Seq<Seq<char>> {
        self.ids@.map_values(|s: String| s@)
    }
}

/// The printed form of an identifier list: each identifier on a line of
/// its own, in order.
pub open spec fn spec_lines(ids: Seq<Seq<char>>) -> Seq<char>
    decreases ids.len(),
{
    if ids.len() == 0 {
        Seq::empty()
    } else {
        spec_lines(ids.drop_last()) + ids.last() + seq!['\n']
    }
}

impl MembershipList {
    /// Renders the list as it is printed: one identifier per line.
    pub fn lines(&self) -> (r: String)
        ensures
            r@ == spec_lines(self@),
    {
        let mut out = String::new();
        proof {
            assert(out@ =~= spec_lines(self@.take(0)));
        }
        let mut i: usize = 0;
        while i < self.ids.len()
            invariant
                i <= self.ids@.len(),
                out@ == spec_lines(self@.take(i as int)),
            decreases self.ids@.len() - i,
        {
            out.append(self.ids[i].as_str());
            push_char(&mut out, '\n');
            proof {
                assert(self@.take(i as int + 1).drop_last() =~= self@.take(i as int));
                assert(out@ =~= spec_lines(self@.take(i as int + 1)));
            }
            i += 1;
        }
        proof {
            assert(self@.take(self@.len() as int) =~= self@);
        }
        out
    }
}

/// The identifier list a response body denotes: the body decoded as
/// UTF-8 text, then read as the envelope.
pub open spec fn spec_decode(body: Seq<u8>) -> Option<Seq<Seq<char>>> {
    if valid_utf8(body) {
        spec_envelope(decode_utf8(body))
    } else {
        None
    }
}

/// Decodes a read-operation response body. Succeeds exactly when the
/// body is UTF-8 text holding the JSON membership envelope, and then
/// yields the identifiers in array order, unchanged; any other body is
/// a `DecodeError`.
pub fn decode_membership(body: &[u8]) -> (r: Result<MembershipList, DecodeError>)
    ensures
        r is Ok <==> spec_decode(body@) is Some,
        r is Ok ==> r->Ok_0@ == spec_decode(body@)->0,
{
    match bytes_to_str(body) {
        Some(text) => {
            proof {
                encode_utf8_decode_utf8(text@);
            }
            let chars = chars_vec(text);
            match parse_envelope(chars.as_slice()) {
                Some(raw) => {
                    let mut ids: Vec<String> = Vec::new();
                    proof {
                        assert(ids@.map_values(|s: String| s@) =~= raw@.take(0).map_values(
                            |v: Vec<char>| v@,
                        ));
                    }
                    let mut i: usize = 0;
                    while i < raw.len()
                        invariant
                            i <= raw@.len(),
                            ids@.map_values(|s: String| s@) == raw@.take(i as int).map_values(
                                |v: Vec<char>| v@,
                            ),
                        decreases raw@.len() - i,
                    {
                        let next = chars_string(&raw[i]);
                        let ghost prev = ids@;
                        ids.push(next);
                        proof {
                            prev.lemma_push_map_commute(|s: String| s@, next);
                            raw@.lemma_map_take_succ(|v: Vec<char>| v@, i as int);
                            assert(ids@.map_values(|s: String| s@) =~= raw@.take(
                                i as int + 1,
                            ).map_values(|v: Vec<char>| v@));
                        }
                        i += 1;
                    }
                    proof {
                        assert(raw@.take(raw@.len() as int) =~= raw@);
                    }
                    Ok(MembershipList { ids })
                },
                None => Err(DecodeError),
            }
        },
        None => Err(DecodeError),
    }
}

} // verus!
