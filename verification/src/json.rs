//! Lexical layer of the onboarding document's JSON grammar: whitespace,
//! string literals with their escapes, unsigned integers, and the skipping
//! of arbitrary well-formed values (for fields the schema does not know).
//!
//! Every specification function works on a character sequence and an index
//! and returns the parsed value with the index just past it, or `None` when
//! the text is not well-formed there. The executable functions mirror them
//! one to one.

use vstd::prelude::*;
use crate::lifecycle::{digit_val, is_digit};

verus! {

/// JSON whitespace.
pub open spec fn json_ws(c: char) -> bool {
    c == ' ' || c == '\t' || c == '\n' || c == '\r'
}

/// First index at or after `i` holding no whitespace.
pub open spec fn sp_ws(t: Seq<char>, i: nat) -> nat
    decreases t.len() - i,
{
    if i < t.len() && json_ws(t[i as int]) {
        sp_ws(t, i + 1)
    } else {
        i
    }
}

/// Value of a hexadecimal digit character, 16 when it is none.
pub open spec fn hex_v(c: char) -> nat {
    if 48 <= c as int && c as int <= 57 {
        (c as int - 48) as nat
    } else if 97 <= c as int && c as int <= 102 {
        (c as int - 87) as nat
    } else if 65 <= c as int && c as int <= 70 {
        (c as int - 55) as nat
    } else {
        16
    }
}

/// The character a short escape denotes, `None` for an unknown escape.
pub open spec fn esc_short(e: char) -> Option<char> {
    if e == '"' {
        Some('"')
    } else if e == '\\' {
        Some('\\')
    } else if e == '/' {
        Some('/')
    } else if e == 'b' {
        Some('\u{8}')
    } else if e == 'f' {
        Some('\u{c}')
    } else if e == 'n' {
        Some('\n')
    } else if e == 'r' {
        Some('\r')
    } else if e == 't' {
        Some('\t')
    } else {
        None
    }
}

/// Prepend one character to a string parse's result.
pub open spec fn cons_str(ch: char, r: Option<(Seq<char>, nat)>) -> Option<(Seq<char>, nat)> {
    match r {
        Some((s, j)) => Some((seq![ch] + s, j)),
        None => None,
    }
}

/// The body of a JSON string literal starting at `i` (just after the
/// opening quote): its unescaped text and the index after the closing
/// quote. Raw control characters and lone surrogate code points are not
/// well-formed.
pub open spec fn sp_string(t: Seq<char>, i: nat) -> Option<(Seq<char>, nat)>
    decreases t.len() - i,
{
    if i >= t.len() {
        None
    } else {
        let c = t[i as int];
        if c == '"' {
            Some((Seq::empty(), i + 1))
        } else if c == '\\' {
            if i + 1 >= t.len() {
                None
            } else {
                let e = t[i as int + 1];
                if e == 'u' {
                    if i + 6 > t.len() {
                        None
                    } else {
                        let h1 = hex_v(t[i as int + 2]);
                        let h2 = hex_v(t[i as int + 3]);
                        let h3 = hex_v(t[i as int + 4]);
                        let h4 = hex_v(t[i as int + 5]);
                        if h1 < 16 && h2 < 16 && h3 < 16 && h4 < 16 {
                            let v = h1 * 4096 + h2 * 256 + h3 * 16 + h4;
                            if v < 0xD800 || v >= 0xE000 {
                                cons_str(((v as u32) as char), sp_string(t, i + 6))
                            } else {
                                None
                            }
                        } else {
                            None
                        }
                    }
                } else {
                    match esc_short(e) {
                        Some(ch) => cons_str(ch, sp_string(t, i + 2)),
                        None => None,
                    }
                }
            }
        } else if (c as u32) < 32 {
            None
        } else {
            cons_str(c, sp_string(t, i + 1))
        }
    }
}

/// Digits accumulated onto `acc`; `None` once the value cannot be a `u32`.
pub open spec fn sp_udigits(t: Seq<char>, i: nat, acc: int) -> Option<(u32, nat)>
    decreases t.len() - i,
{
    if acc > 0xFFFF_FFFF {
        None
    } else if i < t.len() && is_digit(t[i as int]) {
        sp_udigits(t, i + 1, acc * 10 + digit_val(t[i as int]))
    } else {
        Some((acc as u32, i))
    }
}

/// An unsigned JSON integer that fits a `u32`: one or more digits, no
/// leading zero unless the number is exactly `0`.
pub open spec fn sp_uint(t: Seq<char>, i: nat) -> Option<(u32, nat)> {
    if i < t.len() && is_digit(t[i as int]) {
        if t[i as int] == '0' && i + 1 < t.len() && is_digit(t[i as int + 1]) {
            None
        } else {
            sp_udigits(t, i, 0)
        }
    } else {
        None
    }
}

/// `true` or `false` at `i`.
pub open spec fn sp_bool_value(t: Seq<char>, i: nat) -> Option<(bool, nat)> {
    if i + 4 <= t.len() && t[i as int] == 't' && t[i as int + 1] == 'r' && t[i as int + 2] == 'u'
        && t[i as int + 3] == 'e' {
        Some((true, i + 4))
    } else if i + 5 <= t.len() && t[i as int] == 'f' && t[i as int + 1] == 'a' && t[i as int + 2]
        == 'l' && t[i as int + 3] == 's' && t[i as int + 4] == 'e' {
        Some((false, i + 5))
    } else {
        None
    }
}

/// `null` at `i`.
pub open spec fn sp_null_at(t: Seq<char>, i: nat) -> bool {
    i + 4 <= t.len() && t[i as int] == 'n' && t[i as int + 1] == 'u' && t[i as int + 2] == 'l'
        && t[i as int + 3] == 'l'
}

/// A quoted string value at `i`.
pub open spec fn sp_string_value(t: Seq<char>, i: nat) -> Option<(Seq<char>, nat)> {
    if i < t.len() && t[i as int] == '"' {
        sp_string(t, i + 1)
    } else {
        None
    }
}

/// A character that may continue a number once one has begun.
pub open spec fn num_char(c: char) -> bool {
    is_digit(c) || c == '-' || c == '+' || c == '.' || c == 'e' || c == 'E'
}

/// First index at or after `i` holding no number character.
pub open spec fn sp_skip_num(t: Seq<char>, i: nat) -> nat
    decreases t.len() - i,
{
    if i < t.len() && num_char(t[i as int]) {
        sp_skip_num(t, i + 1)
    } else {
        i
    }
}

/// Skip one arbitrary JSON value starting at `i`; the index just past it.
/// `fuel` bounds the recursion and is ample for any document that fits in
/// the text.
pub open spec fn sp_skip_value(t: Seq<char>, i: nat, fuel: nat) -> Option<nat>
    decreases fuel,
{
    if fuel == 0 {
        None
    } else if i >= t.len() {
        None
    } else {
        let c = t[i as int];
        if c == '"' {
            match sp_string(t, i + 1) {
                Some((s, j)) => Some(j),
                None => None,
            }
        } else if c == 't' || c == 'f' {
            match sp_bool_value(t, i) {
                Some((b, j)) => Some(j),
                None => None,
            }
        } else if c == 'n' {
            if sp_null_at(t, i) {
                Some(i + 4)
            } else {
                None
            }
        } else if c == '-' || is_digit(c) {
            Some(sp_skip_num(t, i + 1))
        } else if c == '{' {
            sp_skip_members(t, sp_ws(t, i + 1), (fuel - 1) as nat, true)
        } else if c == '[' {
            sp_skip_elems(t, sp_ws(t, i + 1), (fuel - 1) as nat, true)
        } else {
            None
        }
    }
}

/// Skip the elements of an array, `i` at the first element or, when
/// `first`, possibly at the closing bracket.
pub open spec fn sp_skip_elems(t: Seq<char>, i: nat, fuel: nat, first: bool) -> Option<nat>
    decreases fuel,
{
    if fuel == 0 {
        None
    } else if i >= t.len() {
        None
    } else if first && t[i as int] == ']' {
        Some(i + 1)
    } else {
        match sp_skip_value(t, i, (fuel - 1) as nat) {
            None => None,
            Some(j) => {
                let q = sp_ws(t, j);
                if q < t.len() && t[q as int] == ']' {
                    Some(q + 1)
                } else if q < t.len() && t[q as int] == ',' {
                    sp_skip_elems(t, sp_ws(t, q + 1), (fuel - 1) as nat, false)
                } else {
                    None
                }
            },
        }
    }
}

/// Skip the members of an object, `i` at the first key or, when `first`,
/// possibly at the closing brace.
pub open spec fn sp_skip_members(t: Seq<char>, i: nat, fuel: nat, first: bool) -> Option<nat>
    decreases fuel,
{
    if fuel == 0 {
        None
    } else if i >= t.len() {
        None
    } else if first && t[i as int] == '}' {
        Some(i + 1)
    } else if t[i as int] != '"' {
        None
    } else {
        match sp_string(t, i + 1) {
            None => None,
            Some((key, j)) => {
                let k = sp_ws(t, j);
                if !(k < t.len() && t[k as int] == ':') {
                    None
                } else {
                    match sp_skip_value(t, sp_ws(t, k + 1), (fuel - 1) as nat) {
                        None => None,
                        Some(p) => {
                            let q = sp_ws(t, p);
                            if q < t.len() && t[q as int] == '}' {
                                Some(q + 1)
                            } else if q < t.len() && t[q as int] == ',' {
                                sp_skip_members(t, sp_ws(t, q + 1), (fuel - 1) as nat, false)
                            } else {
                                None
                            }
                        },
                    }
                }
            },
        }
    }
}

/// An object member's key and the index of its value: quoted key,
/// whitespace, colon, whitespace.
pub open spec fn sp_key(t: Seq<char>, i: nat) -> Option<(Seq<char>, nat)> {
    if i < t.len() && t[i as int] == '"' {
        match sp_string(t, i + 1) {
            Some((key, j)) => {
                let k = sp_ws(t, j);
                if k < t.len() && t[k as int] == ':' {
                    Some((key, sp_ws(t, k + 1)))
                } else {
                    None
                }
            },
            None => None,
        }
    } else {
        None
    }
}

/// After a member's value: either the object closes (`true`, past the
/// brace) or a comma leads to the next key (`false`, at the key).
pub open spec fn sp_after_member(t: Seq<char>, p: nat) -> Option<(bool, nat)> {
    let q = sp_ws(t, p);
    if q < t.len() && t[q as int] == '}' {
        Some((true, q + 1))
    } else if q < t.len() && t[q as int] == ',' {
        Some((false, sp_ws(t, q + 1)))
    } else {
        None
    }
}

/// A character with the given Unicode scalar value.
///
/// Relies on char::from_u32: for a value below the surrogate range, or
/// between it and 0x110000, it returns the character with that value.
#[verifier::external_body]
pub(crate) fn char_from_code(v: u32) -> (c: char)
    requires
        v < 0xD800 || (0xE000 <= v && v < 0x110000),
    ensures
        c == (v as char),
{
    char::from_u32(v).unwrap()
}

pub(crate) fn ws_to(s: &str, n: usize, i: usize) -> (r: usize)
    requires
        n == s@.len(),
        i <= n,
    ensures
        i <= r <= n,
        r as nat == sp_ws(s@, i as nat),
    decreases n - i,
{
    if i < n {
        let c = s.get_char(i);
        if c == ' ' || c == '\t' || c == '\n' || c == '\r' {
            return ws_to(s, n, i + 1);
        }
    }
    i
}

pub(crate) fn hex_code(c: char) -> (r: u32)
    ensures
        r as nat == hex_v(c),
{
    let v = c as u32;
    if 48 <= v && v <= 57 {
        v - 48
    } else if 97 <= v && v <= 102 {
        v - 87
    } else if 65 <= v && v <= 70 {
        v - 55
    } else {
        16
    }
}

fn esc_short_code(e: char) -> (r: Option<char>)
    ensures
        r == esc_short(e),
{
    if e == '"' {
        Some('"')
    } else if e == '\\' {
        Some('\\')
    } else if e == '/' {
        Some('/')
    } else if e == 'b' {
        Some('\u{8}')
    } else if e == 'f' {
        Some('\u{c}')
    } else if e == 'n' {
        Some('\n')
    } else if e == 'r' {
        Some('\r')
    } else if e == 't' {
        Some('\t')
    } else {
        None
    }
}

pub(crate) fn px_string(s: &str, n: usize, i: usize) -> (r: Option<(String, usize)>)
    requires
        n == s@.len(),
        i <= n,
    ensures
        match r {
            Some((v, j)) => sp_string(s@, i as nat) == Some((v@, j as nat)) && j <= n,
            None => sp_string(s@, i as nat) is None,
        },
    decreases n - i,
{
    if i >= n {
        None
    } else {
        let c = s.get_char(i);
        if c == '"' {
            Some((String::new(), i + 1))
        } else if c == '\\' {
            if i + 1 >= n {
                None
            } else {
                let e = s.get_char(i + 1);
                if e == 'u' {
                    if n - i < 6 {
                        None
                    } else {
                        let h1 = hex_code(s.get_char(i + 2));
                        let h2 = hex_code(s.get_char(i + 3));
                        let h3 = hex_code(s.get_char(i + 4));
                        let h4 = hex_code(s.get_char(i + 5));
                        if h1 < 16 && h2 < 16 && h3 < 16 && h4 < 16 {
                            let v: u32 = h1 * 4096 + h2 * 256 + h3 * 16 + h4;
                            if v < 0xD800 || v >= 0xE000 {
                                let ch = char_from_code(v);
                                match px_string(s, n, i + 6) {
                                    Some((rest, j)) => Some(
                                        (crate::char_to_string(ch).concat(rest.as_str()), j),
                                    ),
                                    None => None,
                                }
                            } else {
                                None
                            }
                        } else {
                            None
                        }
                    }
                } else {
                    match esc_short_code(e) {
                        Some(ch) => match px_string(s, n, i + 2) {
                            Some((rest, j)) => Some(
                                (crate::char_to_string(ch).concat(rest.as_str()), j),
                            ),
                            None => None,
                        },
                        None => None,
                    }
                }
            }
        } else if (c as u32) < 32 {
            None
        } else {
            match px_string(s, n, i + 1) {
                Some((rest, j)) => Some((crate::char_to_string(c).concat(rest.as_str()), j)),
                None => None,
            }
        }
    }
}

pub(crate) fn string_value(s: &str, n: usize, i: usize) -> (r: Option<(String, usize)>)
    requires
        n == s@.len(),
        i <= n,
    ensures
        match r {
            Some((v, j)) => sp_string_value(s@, i as nat) == Some((v@, j as nat)) && j <= n,
            None => sp_string_value(s@, i as nat) is None,
        },
{
    if i < n {
        let c = s.get_char(i);
        if c == '"' {
            return px_string(s, n, i + 1);
        }
    }
    None
}

fn udigits(s: &str, n: usize, i: usize, acc: u64) -> (r: Option<(u32, usize)>)
    requires
        n == s@.len(),
        i <= n,
        acc <= 0xFFFF_FFFF,
    ensures
        match r {
            Some((v, j)) => sp_udigits(s@, i as nat, acc as int) == Some((v, j as nat)) && j <= n,
            None => sp_udigits(s@, i as nat, acc as int) is None,
        },
    decreases n - i,
{
    if i < n {
        let c = s.get_char(i);
        let cv = c as u32;
        if 48 <= cv && cv <= 57 {
            let acc2: u64 = acc * 10 + (cv as u64 - 48);
            if acc2 > 0xFFFF_FFFF {
                proof {
                    assert(sp_udigits(s@, (i + 1) as nat, acc2 as int) is None);
                }
                return None;
            }
            return udigits(s, n, i + 1, acc2);
        }
    }
    Some((acc as u32, i))
}

pub(crate) fn uint_value(s: &str, n: usize, i: usize) -> (r: Option<(u32, usize)>)
    requires
        n == s@.len(),
        i <= n,
    ensures
        match r {
            Some((v, j)) => sp_uint(s@, i as nat) == Some((v, j as nat)) && j <= n,
            None => sp_uint(s@, i as nat) is None,
        },
{
    if i < n {
        let c = s.get_char(i);
        let cv = c as u32;
        if 48 <= cv && cv <= 57 {
            if c == '0' && i + 1 < n {
                let c2 = s.get_char(i + 1);
                let cv2 = c2 as u32;
                if 48 <= cv2 && cv2 <= 57 {
                    return None;
                }
            }
            return udigits(s, n, i, 0);
        }
    }
    None
}

pub(crate) fn bool_value(s: &str, n: usize, i: usize) -> (r: Option<(bool, usize)>)
    requires
        n == s@.len(),
        i <= n,
    ensures
        match r {
            Some((v, j)) => sp_bool_value(s@, i as nat) == Some((v, j as nat)) && j <= n,
            None => sp_bool_value(s@, i as nat) is None,
        },
{
    if n - i >= 4 && s.get_char(i) == 't' && s.get_char(i + 1) == 'r' && s.get_char(i + 2) == 'u'
        && s.get_char(i + 3) == 'e' {
        Some((true, i + 4))
    } else if n - i >= 5 && s.get_char(i) == 'f' && s.get_char(i + 1) == 'a' && s.get_char(i + 2)
        == 'l' && s.get_char(i + 3) == 's' && s.get_char(i + 4) == 'e' {
        Some((false, i + 5))
    } else {
        None
    }
}

fn null_at(s: &str, n: usize, i: usize) -> (r: bool)
    requires
        n == s@.len(),
        i <= n,
    ensures
        r == sp_null_at(s@, i as nat),
{
    n - i >= 4 && s.get_char(i) == 'n' && s.get_char(i + 1) == 'u' && s.get_char(i + 2) == 'l'
        && s.get_char(i + 3) == 'l'
}

fn skip_num_to(s: &str, n: usize, i: usize) -> (r: usize)
    requires
        n == s@.len(),
        i <= n,
    ensures
        i <= r <= n,
        r as nat == sp_skip_num(s@, i as nat),
    decreases n - i,
{
    if i < n {
        let c = s.get_char(i);
        let cv = c as u32;
        if (48 <= cv && cv <= 57) || c == '-' || c == '+' || c == '.' || c == 'e' || c == 'E' {
            return skip_num_to(s, n, i + 1);
        }
    }
    i
}

pub(crate) fn skip_value(s: &str, n: usize, i: usize, fuel: usize) -> (r: Option<usize>)
    requires
        n == s@.len(),
        i <= n,
    ensures
        match r {
            Some(j) => sp_skip_value(s@, i as nat, fuel as nat) == Some(j as nat) && j <= n,
            None => sp_skip_value(s@, i as nat, fuel as nat) is None,
        },
    decreases fuel,
{
    if fuel == 0 {
        None
    } else if i >= n {
        None
    } else {
        let c = s.get_char(i);
        if c == '"' {
            match px_string(s, n, i + 1) {
                Some((_s, j)) => Some(j),
                None => None,
            }
        } else if c == 't' || c == 'f' {
            match bool_value(s, n, i) {
                Some((_b, j)) => Some(j),
                None => None,
            }
        } else if c == 'n' {
            if null_at(s, n, i) {
                Some(i + 4)
            } else {
                None
            }
        } else if c == '-' || (48 <= c as u32 && c as u32 <= 57) {
            Some(skip_num_to(s, n, i + 1))
        } else if c == '{' {
            let j = ws_to(s, n, i + 1);
            skip_members(s, n, j, fuel - 1, true)
        } else if c == '[' {
            let j = ws_to(s, n, i + 1);
            skip_elems(s, n, j, fuel - 1, true)
        } else {
            None
        }
    }
}

fn skip_elems(s: &str, n: usize, i: usize, fuel: usize, first: bool) -> (r: Option<usize>)
    requires
        n == s@.len(),
        i <= n,
    ensures
        match r {
            Some(j) => sp_skip_elems(s@, i as nat, fuel as nat, first) == Some(j as nat) && j <= n,
            None => sp_skip_elems(s@, i as nat, fuel as nat, first) is None,
        },
    decreases fuel,
{
    if fuel == 0 {
        None
    } else if i >= n {
        None
    } else if first && s.get_char(i) == ']' {
        Some(i + 1)
    } else {
        match skip_value(s, n, i, fuel - 1) {
            None => None,
            Some(j) => {
                let q = ws_to(s, n, j);
                if q < n && s.get_char(q) == ']' {
                    Some(q + 1)
                } else if q < n && s.get_char(q) == ',' {
                    let m = ws_to(s, n, q + 1);
                    skip_elems(s, n, m, fuel - 1, false)
                } else {
                    None
                }
            },
        }
    }
}

fn skip_members(s: &str, n: usize, i: usize, fuel: usize, first: bool) -> (r: Option<usize>)
    requires
        n == s@.len(),
        i <= n,
    ensures
        match r {
            Some(j) => sp_skip_members(s@, i as nat, fuel as nat, first) == Some(j as nat) && j
                <= n,
            None => sp_skip_members(s@, i as nat, fuel as nat, first) is None,
        },
    decreases fuel,
{
    if fuel == 0 {
        None
    } else if i >= n {
        None
    } else if first && s.get_char(i) == '}' {
        Some(i + 1)
    } else if s.get_char(i) != '"' {
        None
    } else {
        match px_string(s, n, i + 1) {
            None => None,
            Some((_key, j)) => {
                let k = ws_to(s, n, j);
                if !(k < n && s.get_char(k) == ':') {
                    None
                } else {
                    let m = ws_to(s, n, k + 1);
                    match skip_value(s, n, m, fuel - 1) {
                        None => None,
                        Some(p) => {
                            let q = ws_to(s, n, p);
                            if q < n && s.get_char(q) == '}' {
                                Some(q + 1)
                            } else if q < n && s.get_char(q) == ',' {
                                let w = ws_to(s, n, q + 1);
                                skip_members(s, n, w, fuel - 1, false)
                            } else {
                                None
                            }
                        },
                    }
                }
            },
        }
    }
}

pub(crate) fn key_at(s: &str, n: usize, i: usize) -> (r: Option<(String, usize)>)
    requires
        n == s@.len(),
        i <= n,
    ensures
        match r {
            Some((key, m)) => sp_key(s@, i as nat) == Some((key@, m as nat)) && m <= n,
            None => sp_key(s@, i as nat) is None,
        },
{
    if i < n && s.get_char(i) == '"' {
        match px_string(s, n, i + 1) {
            Some((key, j)) => {
                let k = ws_to(s, n, j);
                if k < n && s.get_char(k) == ':' {
                    let m = ws_to(s, n, k + 1);
                    Some((key, m))
                } else {
                    None
                }
            },
            None => None,
        }
    } else {
        None
    }
}

pub(crate) fn after_member(s: &str, n: usize, p: usize) -> (r: Option<(bool, usize)>)
    requires
        n == s@.len(),
        p <= n,
    ensures
        match r {
            Some((done, q)) => sp_after_member(s@, p as nat) == Some((done, q as nat)) && q <= n,
            None => sp_after_member(s@, p as nat) is None,
        },
{
    let q = ws_to(s, n, p);
    if q < n && s.get_char(q) == '}' {
        Some((true, q + 1))
    } else if q < n && s.get_char(q) == ',' {
        let w = ws_to(s, n, q + 1);
        Some((false, w))
    } else {
        None
    }
}

} // verus!
