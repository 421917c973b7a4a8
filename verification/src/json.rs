//! A small JSON reader, enough to follow the `data` path of an API
//! response: it finds object members, decodes strings with the standard
//! escapes, and skips over any other value. Every reading function has a
//! specification-level twin, so callers can state what a body means.

use vstd::prelude::*;
use crate::text::chars_of;

verus! {

/// The nesting depth the reader follows before giving up.
pub open spec fn spec_max_depth() -> nat {
    64
}

pub open spec fn is_json_ws(c: char) -> bool {
    c == ' ' || c == '\t' || c == '\n' || c == '\r'
}

/// First position at or after `pos` that holds no whitespace, or the length.
pub open spec fn sp_ws(s: Seq<char>, pos: int) -> int
    decreases s.len() - pos,
{
    if pos < 0 || pos >= s.len() {
        s.len() as int
    } else if is_json_ws(s[pos]) {
        sp_ws(s, pos + 1)
    } else {
        pos
    }
}

pub open spec fn is_hex_digit(c: char) -> bool {
    ||| 48 <= c as int && c as int <= 57
    ||| 97 <= c as int && c as int <= 102
    ||| 65 <= c as int && c as int <= 70
}

/// Value of a hexadecimal digit character.
pub open spec fn hex_digit_val(c: char) -> nat {
    if 48 <= c as int && c as int <= 57 {
        (c as int - 48) as nat
    } else if 97 <= c as int && c as int <= 122 {
        (c as int - 87) as nat
    } else {
        (c as int - 55) as nat
    }
}

/// The value of four hexadecimal digits at `pos`.
pub open spec fn sp_hex4(s: Seq<char>, pos: int) -> Option<u32> {
    if 0 <= pos && pos + 4 <= s.len() && is_hex_digit(s[pos]) && is_hex_digit(s[pos + 1])
        && is_hex_digit(s[pos + 2]) && is_hex_digit(s[pos + 3]) {
        Some(
            (hex_digit_val(s[pos]) * 4096 + hex_digit_val(s[pos + 1]) * 256 + hex_digit_val(
                s[pos + 2],
            ) * 16 + hex_digit_val(s[pos + 3])) as u32,
        )
    } else {
        None
    }
}

/// The character an escape sequence at `pos` (which holds the backslash)
/// denotes, and the position after it. A `\u` escape carries four hex
/// digits; a high surrogate must be followed by a `\u` low surrogate, and
/// the pair denotes one supplementary character.
pub open spec fn sp_escape(s: Seq<char>, pos: int) -> Option<(char, int)> {
    if pos < 0 || pos + 1 >= s.len() {
        None
    } else {
        let e = s[pos + 1];
        if e == '"' {
            Some(('"', pos + 2))
        } else if e == '\\' {
            Some(('\\', pos + 2))
        } else if e == '/' {
            Some(('/', pos + 2))
        } else if e == 'n' {
            Some(('\n', pos + 2))
        } else if e == 't' {
            Some(('\t', pos + 2))
        } else if e == 'r' {
            Some(('\r', pos + 2))
        } else if e == 'b' {
            Some(('\u{8}', pos + 2))
        } else if e == 'f' {
            Some(('\u{c}', pos + 2))
        } else if e == 'u' {
            match sp_hex4(s, pos + 2) {
                None => None,
                Some(hi) => if 0xD800 <= hi && hi <= 0xDBFF {
                    if pos + 7 < s.len() && s[pos + 6] == '\\' && s[pos + 7] == 'u' {
                        match sp_hex4(s, pos + 8) {
                            None => None,
                            Some(lo) => if 0xDC00 <= lo && lo <= 0xDFFF {
                                Some(
                                    (
                                        (0x10000 + (hi - 0xD800) * 0x400 + (lo
                                            - 0xDC00)) as char,
                                        pos + 12,
                                    ),
                                )
                            } else {
                                None
                            },
                        }
                    } else {
                        None
                    }
                } else if 0xDC00 <= hi && hi <= 0xDFFF {
                    None
                } else {
                    Some((hi as char, pos + 6))
                },
            }
        } else {
            None
        }
    }
}

/// The decoded content of a string from a position inside its quotes, and
/// the position after the closing quote.
pub open spec fn sp_string_body(s: Seq<char>, pos: int) -> Option<(Seq<char>, int)>
    decreases s.len() - pos,
{
    if pos < 0 || pos >= s.len() {
        None
    } else if s[pos] == '"' {
        Some((Seq::empty(), pos + 1))
    } else if s[pos] == '\\' {
        match sp_escape(s, pos) {
            None => None,
            Some((c, p)) => if p <= pos {
                None
            } else {
                match sp_string_body(s, p) {
                    None => None,
                    Some((rest, e)) => Some((seq![c] + rest, e)),
                }
            },
        }
    } else {
        match sp_string_body(s, pos + 1) {
            None => None,
            Some((rest, e)) => Some((seq![s[pos]] + rest, e)),
        }
    }
}

pub open spec fn is_number_char(c: char) -> bool {
    ||| 48 <= c as int && c as int <= 57
    ||| c == '-'
    ||| c == '+'
    ||| c == '.'
    ||| c == 'e'
    ||| c == 'E'
}

/// First position at or after `pos` that holds no number character.
pub open spec fn sp_number_end(s: Seq<char>, pos: int) -> int
    decreases s.len() - pos,
{
    if pos < 0 || pos >= s.len() {
        s.len() as int
    } else if is_number_char(s[pos]) {
        sp_number_end(s, pos + 1)
    } else {
        pos
    }
}

/// The position after a complete value starting at `pos`, or nothing when
/// the text is not a value the reader follows.
pub open spec fn sp_value_end(s: Seq<char>, pos: int, depth: nat) -> Option<int>
    decreases s.len() - pos, depth, 0nat,
{
    if pos < 0 || pos >= s.len() {
        None
    } else if s[pos] == 'n' {
        if pos + 4 <= s.len() && s[pos + 1] == 'u' && s[pos + 2] == 'l' && s[pos + 3] == 'l' {
            Some(pos + 4)
        } else {
            None
        }
    } else if s[pos] == 't' {
        if pos + 4 <= s.len() && s[pos + 1] == 'r' && s[pos + 2] == 'u' && s[pos + 3] == 'e' {
            Some(pos + 4)
        } else {
            None
        }
    } else if s[pos] == 'f' {
        if pos + 5 <= s.len() && s[pos + 1] == 'a' && s[pos + 2] == 'l' && s[pos + 3] == 's' && s[
            pos + 4] == 'e' {
            Some(pos + 5)
        } else {
            None
        }
    } else if s[pos] == '"' {
        match sp_string_body(s, pos + 1) {
            None => None,
            Some((_, e)) => Some(e),
        }
    } else if s[pos] == '[' {
        if depth == 0 {
            None
        } else {
            let q = sp_ws(s, pos + 1);
            if q <= pos || q > s.len() {
                None
            } else {
                sp_arr_tail(s, q, (depth - 1) as nat)
            }
        }
    } else if s[pos] == '{' {
        if depth == 0 {
            None
        } else {
            let q = sp_ws(s, pos + 1);
            if q <= pos || q > s.len() {
                None
            } else {
                sp_obj_tail(s, q, (depth - 1) as nat)
            }
        }
    } else if is_number_char(s[pos]) {
        Some(sp_number_end(s, pos))
    } else {
        None
    }
}

/// The position after the remaining elements of an array, `pos` standing
/// at the first element or at the closing bracket.
pub open spec fn sp_arr_tail(s: Seq<char>, pos: int, depth: nat) -> Option<int>
    decreases s.len() - pos, depth, 1nat,
{
    if pos < 0 || pos >= s.len() {
        None
    } else if s[pos] == ']' {
        Some(pos + 1)
    } else {
        match sp_value_end(s, pos, depth) {
            None => None,
            Some(p) => {
                let q = sp_ws(s, p);
                if q <= pos || q >= s.len() {
                    None
                } else if s[q] == ']' {
                    Some(q + 1)
                } else if s[q] == ',' {
                    let r = sp_ws(s, q + 1);
                    if r <= pos || r > s.len() {
                        None
                    } else {
                        sp_arr_tail(s, r, depth)
                    }
                } else {
                    None
                }
            },
        }
    }
}

/// The position after the remaining members of an object, `pos` standing
/// at the first key or at the closing brace.
pub open spec fn sp_obj_tail(s: Seq<char>, pos: int, depth: nat) -> Option<int>
    decreases s.len() - pos, depth, 1nat,
{
    if pos < 0 || pos >= s.len() {
        None
    } else if s[pos] == '}' {
        Some(pos + 1)
    } else if s[pos] != '"' {
        None
    } else {
        match sp_string_body(s, pos + 1) {
            None => None,
            Some((_, p)) => {
                let q = sp_ws(s, p);
                if q <= pos || q >= s.len() || s[q] != ':' {
                    None
                } else {
                    let v = sp_ws(s, q + 1);
                    if v <= pos || v > s.len() {
                        None
                    } else {
                        match sp_value_end(s, v, depth) {
                            None => None,
                            Some(ve) => {
                                let w = sp_ws(s, ve);
                                if w <= pos || w >= s.len() {
                                    None
                                } else if s[w] == '}' {
                                    Some(w + 1)
                                } else if s[w] == ',' {
                                    let nx = sp_ws(s, w + 1);
                                    if nx <= pos || nx > s.len() {
                                        None
                                    } else {
                                        sp_obj_tail(s, nx, depth)
                                    }
                                } else {
                                    None
                                }
                            },
                        }
                    }
                }
            },
        }
    }
}

/// Where the named member's value starts, `pos` standing at the first key
/// or the closing brace: `Some(Some(v))` when found, `Some(None)` when the
/// object ends without it, `None` when the text is malformed.
pub open spec fn sp_find_member(s: Seq<char>, pos: int, key: Seq<char>, depth: nat) -> Option<
    Option<int>,
>
    decreases s.len() - pos,
{
    if pos < 0 || pos >= s.len() {
        None
    } else if s[pos] == '}' {
        Some(None)
    } else if s[pos] != '"' {
        None
    } else {
        match sp_string_body(s, pos + 1) {
            None => None,
            Some((k, p)) => {
                let q = sp_ws(s, p);
                if q <= pos || q >= s.len() || s[q] != ':' {
                    None
                } else {
                    let v = sp_ws(s, q + 1);
                    if k == key {
                        Some(Some(v))
                    } else if v <= pos || v > s.len() {
                        None
                    } else {
                        match sp_value_end(s, v, depth) {
                            None => None,
                            Some(ve) => {
                                let w = sp_ws(s, ve);
                                if w <= pos || w >= s.len() {
                                    None
                                } else if s[w] == '}' {
                                    Some(None)
                                } else if s[w] == ',' {
                                    let nx = sp_ws(s, w + 1);
                                    if nx <= pos || nx > s.len() {
                                        None
                                    } else {
                                        sp_find_member(s, nx, key, depth)
                                    }
                                } else {
                                    None
                                }
                            },
                        }
                    }
                }
            },
        }
    }
}

// ------------------------------------------------------------------
// The executable readers, each pinned to its specification twin.
// ------------------------------------------------------------------

/// Relies on `char::from_u32`: the documentation promises `Some` exactly
/// for the valid scalar values (everything except surrogates and values
/// above the maximum code point), with the argument as the result's code
/// point.
#[verifier::external_body]
fn char_from_u32(x: u32) -> (r: Option<char>)
    ensures
        match r {
            Some(c) => c as int == x as int && (x < 0xD800 || (0xE000 <= x && x <= 0x10FFFF)),
            None => 0xD800 <= x < 0xE000 || x > 0x10FFFF,
        },
{
    char::from_u32(x)
}

/// First position at or after `from` that holds no whitespace.
pub fn skip_ws(v: &Vec<char>, from: usize) -> (r: usize)
    requires
        from <= v@.len(),
    ensures
        r == sp_ws(v@, from as int),
        from <= r <= v@.len(),
{
    let mut i = from;
    while i < v.len() && (v[i] == ' ' || v[i] == '\t' || v[i] == '\n' || v[i] == '\r')
        invariant
            from <= i <= v@.len(),
            sp_ws(v@, from as int) == sp_ws(v@, i as int),
        decreases v@.len() - i,
    {
        i = i + 1;
    }
    i
}

fn hex_digit_of(c: char) -> (r: Option<u32>)
    ensures
        match r {
            Some(d) => is_hex_digit(c) && d == hex_digit_val(c) && d < 16,
            None => !is_hex_digit(c),
        },
{
    let x = c as u32;
    if 48 <= x && x <= 57 {
        Some(x - 48)
    } else if 97 <= x && x <= 102 {
        Some(x - 87)
    } else if 65 <= x && x <= 70 {
        Some(x - 55)
    } else {
        None
    }
}

fn hex4(v: &Vec<char>, pos: usize) -> (r: Option<u32>)
    ensures
        r == sp_hex4(v@, pos as int),
{
    if pos >= v.len() || v.len() - pos < 4 {
        return None;
    }
    let d0 = match hex_digit_of(v[pos]) {
        Some(d) => d,
        None => {
            return None;
        },
    };
    let d1 = match hex_digit_of(v[pos + 1]) {
        Some(d) => d,
        None => {
            return None;
        },
    };
    let d2 = match hex_digit_of(v[pos + 2]) {
        Some(d) => d,
        None => {
            return None;
        },
    };
    let d3 = match hex_digit_of(v[pos + 3]) {
        Some(d) => d,
        None => {
            return None;
        },
    };
    Some(d0 * 4096 + d1 * 256 + d2 * 16 + d3)
}

/// Decodes one escape sequence; `pos` holds the backslash.
fn parse_escape(v: &Vec<char>, pos: usize) -> (r: Option<(char, usize)>)
    requires
        pos < v@.len(),
    ensures
        match r {
            Some((c, p)) => sp_escape(v@, pos as int) == Some((c, p as int)) && pos < p <= v@.len(),
            None => sp_escape(v@, pos as int) is None,
        },
{
    let n = v.len();
    if n - pos < 2 {
        return None;
    }
    let e = v[pos + 1];
    if e == '"' {
        Some(('"', pos + 2))
    } else if e == '\\' {
        Some(('\\', pos + 2))
    } else if e == '/' {
        Some(('/', pos + 2))
    } else if e == 'n' {
        Some(('\n', pos + 2))
    } else if e == 't' {
        Some(('\t', pos + 2))
    } else if e == 'r' {
        Some(('\r', pos + 2))
    } else if e == 'b' {
        Some(('\u{8}', pos + 2))
    } else if e == 'f' {
        Some(('\u{c}', pos + 2))
    } else if e == 'u' {
        match hex4(v, pos + 2) {
            None => None,
            Some(hi) => {
                if 0xD800 <= hi && hi <= 0xDBFF {
                    if n - pos >= 8 && v[pos + 6] == '\\' && v[pos + 7] == 'u' {
                        match hex4(v, pos + 8) {
                            None => None,
                            Some(lo) => {
                                if 0xDC00 <= lo && lo <= 0xDFFF {
                                    let combined: u32 = 0x10000 + (hi - 0xD800) * 0x400 + (lo
                                        - 0xDC00);
                                    match char_from_u32(combined) {
                                        Some(c) => {
                                            Some((c, pos + 12))
                                        },
                                        None => {
                                            proof {
                                                assert(false);
                                            }
                                            None
                                        },
                                    }
                                } else {
                                    None
                                }
                            },
                        }
                    } else {
                        None
                    }
                } else if 0xDC00 <= hi && hi <= 0xDFFF {
                    None
                } else {
                    match char_from_u32(hi) {
                        Some(c) => {
                            Some((c, pos + 6))
                        },
                        None => {
                            proof {
                                assert(false);
                            }
                            None
                        },
                    }
                }
            },
        }
    } else {
        None
    }
}

/// Decodes a string's content from a position inside its quotes.
pub fn parse_string_body(v: &Vec<char>, pos: usize) -> (r: Option<(Vec<char>, usize)>)
    requires
        pos <= v@.len(),
    ensures
        match r {
            Some((c, p)) => sp_string_body(v@, pos as int) == Some((c@, p as int)) && pos < p
                <= v@.len(),
            None => sp_string_body(v@, pos as int) is None,
        },
{
    let n = v.len();
    let mut out: Vec<char> = Vec::new();
    let mut i = pos;
    loop
        invariant
            pos <= i <= v@.len(),
            n == v@.len(),
            match sp_string_body(v@, i as int) {
                Some((rest, e)) => sp_string_body(v@, pos as int) == Some((out@ + rest, e)),
                None => sp_string_body(v@, pos as int) is None,
            },
        decreases v@.len() - i,
    {
        if i >= n {
            return None;
        }
        let c = v[i];
        if c == '"' {
            proof {
                assert(out@ + Seq::<char>::empty() =~= out@);
            }
            return Some((out, i + 1));
        }
        if c == '\\' {
            match parse_escape(v, i) {
                None => {
                    return None;
                },
                Some((d, p)) => {
                    let ghost prev = out@;
                    out.push(d);
                    proof {
                        match sp_string_body(v@, p as int) {
                            Some((rest, e)) => {
                                assert(prev + (seq![d] + rest) =~= out@ + rest);
                            },
                            None => {
                            },
                        }
                    }
                    i = p;
                },
            }
        } else {
            let ghost prev = out@;
            out.push(c);
            proof {
                match sp_string_body(v@, i + 1) {
                    Some((rest, e)) => {
                        assert(prev + (seq![c] + rest) =~= out@ + rest);
                    },
                    None => {
                    },
                }
            }
            i = i + 1;
        }
    }
}

/// The position after the number run starting at `from`.
fn skip_number(v: &Vec<char>, from: usize) -> (r: usize)
    requires
        from <= v@.len(),
    ensures
        r == sp_number_end(v@, from as int),
        from <= r <= v@.len(),
{
    let mut i = from;
    while i < v.len() && (('0' <= v[i] && v[i] <= '9') || v[i] == '-' || v[i] == '+' || v[i] == '.'
        || v[i] == 'e' || v[i] == 'E')
        invariant
            from <= i <= v@.len(),
            sp_number_end(v@, from as int) == sp_number_end(v@, i as int),
        decreases v@.len() - i,
    {
        i = i + 1;
    }
    i
}

/// The position after the value starting at `pos`.
pub fn skip_value(v: &Vec<char>, pos: usize, depth: u32) -> (r: Option<usize>)
    requires
        pos <= v@.len(),
    ensures
        match r {
            Some(p) => sp_value_end(v@, pos as int, depth as nat) == Some(p as int) && pos < p
                <= v@.len(),
            None => sp_value_end(v@, pos as int, depth as nat) is None,
        },
    decreases v@.len() - pos, depth, 0int,
{
    let n = v.len();
    if pos >= n {
        return None;
    }
    let c = v[pos];
    if c == 'n' {
        if n - pos >= 4 && v[pos + 1] == 'u' && v[pos + 2] == 'l' && v[pos + 3] == 'l' {
            Some(pos + 4)
        } else {
            None
        }
    } else if c == 't' {
        if n - pos >= 4 && v[pos + 1] == 'r' && v[pos + 2] == 'u' && v[pos + 3] == 'e' {
            Some(pos + 4)
        } else {
            None
        }
    } else if c == 'f' {
        if n - pos >= 5 && v[pos + 1] == 'a' && v[pos + 2] == 'l' && v[pos + 3] == 's' && v[pos
            + 4] == 'e' {
            Some(pos + 5)
        } else {
            None
        }
    } else if c == '"' {
        match parse_string_body(v, pos + 1) {
            None => None,
            Some((_, e)) => Some(e),
        }
    } else if c == '[' {
        if depth == 0 {
            return None;
        }
        let q = skip_ws(v, pos + 1);
        if q <= pos {
            return None;
        }
        skip_arr_tail(v, q, depth - 1)
    } else if c == '{' {
        if depth == 0 {
            return None;
        }
        let q = skip_ws(v, pos + 1);
        if q <= pos {
            return None;
        }
        skip_obj_tail(v, q, depth - 1)
    } else if ('0' <= c && c <= '9') || c == '-' || c == '+' || c == '.' || c == 'e' || c == 'E' {
        proof {
            assert(sp_number_end(v@, pos as int) == sp_number_end(v@, pos + 1));
        }
        Some(skip_number(v, pos + 1))
    } else {
        None
    }
}

/// The position after the remaining array elements.
fn skip_arr_tail(v: &Vec<char>, pos: usize, depth: u32) -> (r: Option<usize>)
    requires
        pos <= v@.len(),
    ensures
        match r {
            Some(p) => sp_arr_tail(v@, pos as int, depth as nat) == Some(p as int) && pos < p
                <= v@.len(),
            None => sp_arr_tail(v@, pos as int, depth as nat) is None,
        },
    decreases v@.len() - pos, depth, 1int,
{
    let n = v.len();
    let mut i = pos;
    loop
        invariant
            pos <= i <= v@.len(),
            n == v@.len(),
            sp_arr_tail(v@, pos as int, depth as nat) == sp_arr_tail(v@, i as int, depth as nat),
        decreases v@.len() - i,
    {
        if i >= n {
            return None;
        }
        if v[i] == ']' {
            return Some(i + 1);
        }
        let p = match skip_value(v, i, depth) {
            None => {
                return None;
            },
            Some(p) => p,
        };
        let q = skip_ws(v, p);
        if q <= i || q >= n {
            return None;
        }
        if v[q] == ']' {
            return Some(q + 1);
        }
        if v[q] != ',' {
            return None;
        }
        let r2 = skip_ws(v, q + 1);
        if r2 <= i {
            return None;
        }
        i = r2;
    }
}

/// The position after the remaining object members.
fn skip_obj_tail(v: &Vec<char>, pos: usize, depth: u32) -> (r: Option<usize>)
    requires
        pos <= v@.len(),
    ensures
        match r {
            Some(p) => sp_obj_tail(v@, pos as int, depth as nat) == Some(p as int) && pos < p
                <= v@.len(),
            None => sp_obj_tail(v@, pos as int, depth as nat) is None,
        },
    decreases v@.len() - pos, depth, 1int,
{
    let n = v.len();
    let mut i = pos;
    loop
        invariant
            pos <= i <= v@.len(),
            n == v@.len(),
            sp_obj_tail(v@, pos as int, depth as nat) == sp_obj_tail(v@, i as int, depth as nat),
        decreases v@.len() - i,
    {
        if i >= n {
            return None;
        }
        if v[i] == '}' {
            return Some(i + 1);
        }
        if v[i] != '"' {
            return None;
        }
        let p = match parse_string_body(v, i + 1) {
            None => {
                return None;
            },
            Some((_, p)) => p,
        };
        let q = skip_ws(v, p);
        if q <= i || q >= n {
            return None;
        }
        if v[q] != ':' {
            return None;
        }
        let vs = skip_ws(v, q + 1);
        if vs <= i {
            return None;
        }
        let ve = match skip_value(v, vs, depth) {
            None => {
                return None;
            },
            Some(ve) => ve,
        };
        let w = skip_ws(v, ve);
        if w <= i || w >= n {
            return None;
        }
        if v[w] == '}' {
            return Some(w + 1);
        }
        if v[w] != ',' {
            return None;
        }
        let nx = skip_ws(v, w + 1);
        if nx <= i {
            return None;
        }
        i = nx;
    }
}

/// Where the named member's value starts, walking the members from `pos`.
pub fn find_member(v: &Vec<char>, pos: usize, key: &str, depth: u32) -> (r: Option<Option<usize>>)
    requires
        pos <= v@.len(),
    ensures
        match r {
            Some(Some(p)) => sp_find_member(v@, pos as int, key@, depth as nat) == Some(
                Some(p as int),
            ) && p <= v@.len(),
            Some(None) => sp_find_member(v@, pos as int, key@, depth as nat) == Some(
                None::<int>,
            ),
            None => sp_find_member(v@, pos as int, key@, depth as nat) is None,
        },
{
    let n = v.len();
    let mut i = pos;
    loop
        invariant
            pos <= i <= v@.len(),
            n == v@.len(),
            sp_find_member(v@, pos as int, key@, depth as nat) == sp_find_member(
                v@,
                i as int,
                key@,
                depth as nat,
            ),
        decreases v@.len() - i,
    {
        if i >= n {
            return None;
        }
        if v[i] == '}' {
            return Some(None);
        }
        if v[i] != '"' {
            return None;
        }
        let (k, p) = match parse_string_body(v, i + 1) {
            None => {
                return None;
            },
            Some(kp) => kp,
        };
        let q = skip_ws(v, p);
        if q <= i || q >= n {
            return None;
        }
        if v[q] != ':' {
            return None;
        }
        let vs = skip_ws(v, q + 1);
        if crate::text::vec_str_eq(&k, key) {
            return Some(Some(vs));
        }
        if vs <= i {
            return None;
        }
        let ve = match skip_value(v, vs, depth) {
            None => {
                return None;
            },
            Some(ve) => ve,
        };
        let w = skip_ws(v, ve);
        if w <= i || w >= n {
            return None;
        }
        if v[w] == '}' {
            return Some(None);
        }
        if v[w] != ',' {
            return None;
        }
        let nx = skip_ws(v, w + 1);
        if nx <= i {
            return None;
        }
        i = nx;
    }
}

/// The characters of a body, for the readers above.
pub fn body_chars(s: &str) -> (r: Vec<char>)
    ensures
        r@ == s@,
{
    chars_of(s)
}

} // verus!
