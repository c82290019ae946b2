//! Laws tying the renderer to the parser: wherever a rendered string,
//! number, boolean or schema object stands inside a larger text, the
//! parser reads back exactly the value that was rendered. These are parts
//! of the write-then-read round trip, proved value by value and object by
//! object.

use vstd::prelude::*;
use crate::json::{cons_str, esc_short, hex_v, json_ws, sp_after_member, sp_bool_value, sp_key, sp_string, sp_string_value, sp_udigits, sp_uint, sp_ws};
use crate::lifecycle::{digit_val, is_digit};
use crate::parse::{assoc_set, assoc_set_from, sp_api_key_fields, sp_api_key_value, sp_automation_fields, sp_automation_value, sp_npx_fields, sp_npx_value, sp_telegram_fields, sp_telegram_value, sp_tool_fields, sp_tool_value};
use crate::state::{ApiKeyModel, DevToolInfoModel, NpxModel, TelegramModel};
use crate::render::{api_key_text, automation_entries_from, automation_entry_text, automation_text, bool_text, dec_digits, esc_char, esc_from, hex_char, npx_text, quoted, telegram_text, tool_text};

verus! {

pub open spec fn pow10(k: nat) -> nat
    decreases k,
{
    if k == 0 {
        1
    } else {
        10 * pow10((k - 1) as nat)
    }
}

proof fn lemma_digits_consume(t: Seq<char>, i: nat, n: nat, acc: nat)
    requires
        i + dec_digits(n).len() <= t.len(),
        t.subrange(i as int, (i + dec_digits(n).len()) as int) == dec_digits(n),
        acc * pow10(dec_digits(n).len()) + n <= 0xFFFF_FFFF,
    ensures
        sp_udigits(t, i, acc as int) == sp_udigits(
            t,
            i + dec_digits(n).len(),
            (acc * pow10(dec_digits(n).len()) + n) as int,
        ),
    decreases n,
{
    let l = dec_digits(n).len();
    if n < 10 {
        assert(dec_digits(n) == seq![((48 + n) as u8) as char]);
        assert(t[i as int] == dec_digits(n)[0]);
        assert(is_digit(t[i as int]));
        assert(digit_val(t[i as int]) == n);
        assert(pow10(0) == 1);
        assert(pow10(1) == 10);
        assert(acc <= acc * 10) by (nonlinear_arith);
        assert(sp_udigits(t, i, acc as int) == sp_udigits(t, i + 1, (acc * 10 + n) as int));
    } else {
        let m = n / 10;
        let d = n % 10;
        let tail = seq![((48 + d) as u8) as char];
        assert(dec_digits(n) == dec_digits(m) + tail);
        let l1 = dec_digits(m).len();
        assert(l == l1 + 1);
        assert(t.subrange(i as int, (i + l1) as int) =~= dec_digits(m)) by {
            assert forall|j: int| 0 <= j < l1 implies t.subrange(i as int, (i + l1) as int)[j]
                == dec_digits(m)[j] by {
                assert(t[i + j] == dec_digits(n)[j]);
            }
        }
        assert(pow10(l) == 10 * pow10(l1));
        let acc1 = acc * pow10(l1) + m;
        assert(acc1 * 10 + d == acc * pow10(l) + n) by (nonlinear_arith)
            requires
                pow10(l) == 10 * pow10(l1),
                acc1 == acc * pow10(l1) + m,
                m == n / 10,
                d == n % 10,
                n >= 10,
        ;
        assert(acc1 <= acc1 * 10) by (nonlinear_arith);
        lemma_digits_consume(t, i, m, acc);
        assert(t[(i + l1) as int] == dec_digits(n)[l1 as int]);
        assert(is_digit(t[(i + l1) as int]));
        assert(digit_val(t[(i + l1) as int]) == d);
        assert(sp_udigits(t, i + l1, acc1 as int) == sp_udigits(t, i + l, (acc1 * 10 + d) as int));
    }
}

proof fn lemma_first_digit_nonzero(n: nat)
    requires
        n >= 1,
    ensures
        dec_digits(n).len() >= 1,
        dec_digits(n)[0] != '0',
    decreases n,
{
    if n >= 10 {
        lemma_first_digit_nonzero(n / 10);
        assert(dec_digits(n)[0] == dec_digits(n / 10)[0]);
    }
}

/// A rendered `u32`, standing at `i` inside a larger text and followed by
/// no further digit, parses back to exactly that number.
pub proof fn lemma_uint_parse_back(t: Seq<char>, i: nat, n: u32)
    requires
        i + dec_digits(n as nat).len() <= t.len(),
        t.subrange(i as int, (i + dec_digits(n as nat).len()) as int) == dec_digits(n as nat),
        i + dec_digits(n as nat).len() == t.len() || !is_digit(
            t[(i + dec_digits(n as nat).len()) as int],
        ),
    ensures
        sp_uint(t, i) == Some((n, i + dec_digits(n as nat).len())),
{
    let l = dec_digits(n as nat).len();
    assert(t[i as int] == dec_digits(n as nat)[0]);
    if n < 10 {
        assert(dec_digits(n as nat) == seq![((48 + n as nat) as u8) as char]);
    }
    assert(is_digit(t[i as int])) by {
        lemma_digits_are_digits(n as nat);
    }
    assert(pow10(l) >= 1) by {
        lemma_pow10_pos(l);
    }
    assert(0 * pow10(l) + n as nat == n as nat) by (nonlinear_arith);
    lemma_digits_consume(t, i, n as nat, 0);
    assert(sp_udigits(t, i + l, n as int) == Some((n, i + l)));
    if n == 0 {
        assert(dec_digits(0)[0] == '0');
        assert(l == 1);
        assert(!(i + 1 < t.len() && is_digit(t[i as int + 1])));
    } else {
        lemma_first_digit_nonzero(n as nat);
        assert(t[i as int] != '0');
    }
}

proof fn lemma_pow10_pos(k: nat)
    ensures
        pow10(k) >= 1,
    decreases k,
{
    if k > 0 {
        lemma_pow10_pos((k - 1) as nat);
    }
}

pub(crate) proof fn lemma_digits_are_digits(n: nat)
    ensures
        dec_digits(n).len() >= 1,
        forall|j: int| 0 <= j < dec_digits(n).len() ==> is_digit(#[trigger] dec_digits(n)[j]),
    decreases n,
{
    if n >= 10 {
        lemma_digits_are_digits(n / 10);
    }
}

/// A rendered boolean, standing at `i` inside a larger text, parses back
/// to exactly that boolean.
pub proof fn lemma_bool_parse_back(t: Seq<char>, i: nat, b: bool)
    requires
        i + bool_text(b).len() <= t.len(),
        t.subrange(i as int, (i + bool_text(b).len()) as int) == bool_text(b),
    ensures
        sp_bool_value(t, i) == Some((b, i + bool_text(b).len())),
{
    reveal_strlit("true");
    reveal_strlit("false");
    let l = bool_text(b).len();
    let sub = t.subrange(i as int, (i + l) as int);
    assert(sub[0] == t[i as int + 0]);
    assert(sub[1] == t[i as int + 1]);
    assert(sub[2] == t[i as int + 2]);
    assert(sub[3] == t[i as int + 3]);
    if b {
        assert(t[i as int] == 't' && t[i as int + 1] == 'r' && t[i as int + 2] == 'u'
            && t[i as int + 3] == 'e');
    } else {
        assert(sub[4] == t[i as int + 4]);
        assert(t[i as int] == 'f' && t[i as int + 1] == 'a' && t[i as int + 2] == 'l'
            && t[i as int + 3] == 's' && t[i as int + 4] == 'e');
        assert(t[i as int] != 't');
    }
}

pub(crate) proof fn lemma_string_consume(t: Seq<char>, i: nat, s: Seq<char>, k: nat)
    requires
        k <= s.len(),
        i + esc_from(s, k).len() + 1 <= t.len(),
        t.subrange(i as int, (i + esc_from(s, k).len()) as int) == esc_from(s, k),
        t[(i + esc_from(s, k).len()) as int] == '"',
    ensures
        sp_string(t, i) == Some(
            (s.subrange(k as int, s.len() as int), i + esc_from(s, k).len() + 1),
        ),
    decreases s.len() - k,
{
    reveal_strlit("\\\"");
    reveal_strlit("\\\\");
    reveal_strlit("\\b");
    reveal_strlit("\\f");
    reveal_strlit("\\n");
    reveal_strlit("\\r");
    reveal_strlit("\\t");
    reveal_strlit("\\u00");
    let e_all = esc_from(s, k);
    let l = e_all.len();
    let sub = t.subrange(i as int, (i + l) as int);
    if k == s.len() {
        assert(t[i as int] == '"');
        assert(s.subrange(k as int, s.len() as int) =~= Seq::empty());
    } else {
        let c = s[k as int];
        let e = esc_char(c);
        let e1 = e.len();
        assert(e_all == e + esc_from(s, k + 1));
        let rest = esc_from(s, k + 1);
        assert(l == e1 + rest.len());
        assert(e1 >= 1);
        assert(sub[0] == t[i as int + 0]);
        assert(t[i as int] == e[0]);
        if e1 >= 2 {
            assert(sub[1] == t[i as int + 1]);
            assert(t[i as int + 1] == e[1]);
        }
        if e1 == 6 {
            assert(sub[2] == t[i as int + 2]);
            assert(sub[3] == t[i as int + 3]);
            assert(sub[4] == t[i as int + 4]);
            assert(sub[5] == t[i as int + 5]);
            assert(t[i as int + 2] == e[2]);
            assert(t[i as int + 3] == e[3]);
            assert(t[i as int + 4] == e[4]);
            assert(t[i as int + 5] == e[5]);
        }
        // the tail of the rendering is itself a rendering from k + 1
        let sub2 = t.subrange((i + e1) as int, (i + e1 + rest.len()) as int);
        assert(sub2 =~= rest) by {
            assert forall|j: int| 0 <= j < rest.len() implies sub2[j] == rest[j] by {
                assert(sub2[j] == t[(i + e1) as int + j]);
                assert(sub[e1 + j] == t[i as int + (e1 + j)]);
                assert(e_all[e1 + j] == rest[j]);
            }
        }
        assert(t[(i + e1 + rest.len()) as int] == '"');
        lemma_string_consume(t, i + e1, s, k + 1);
        let tail_parse = sp_string(t, i + e1);
        let sub_s = s.subrange((k + 1) as int, s.len() as int);
        assert(tail_parse == Some((sub_s, i + e1 + rest.len() + 1)));
        assert(seq![c] + sub_s =~= s.subrange(k as int, s.len() as int));
        if c == '"' || c == '\\' || c == '\u{8}' || c == '\u{c}' || c == '\n' || c == '\r' || c
            == '\t' {
            assert(e1 == 2);
            assert(t[i as int] == '\\');
            assert(i + 1 < t.len());
            assert(esc_short(t[i as int + 1]) == Some(c));
            assert(sp_string(t, i) == cons_str(c, sp_string(t, i + 2)));
        } else if (c as u32) < 32 {
            assert(e1 == 6);
            assert(t[i as int] == '\\');
            assert(t[i as int + 1] == 'u');
            assert(t[i as int + 2] == '0' && t[i as int + 3] == '0');
            let cu = (c as u32) as int;
            let hi = cu / 16;
            let lo = cu % 16;
            assert(0 <= cu < 32);
            assert(0 <= hi < 2 && 0 <= lo < 16) by (nonlinear_arith)
                requires
                    hi == cu / 16,
                    lo == cu % 16,
                    0 <= cu < 32,
            ;
            assert(hi * 16 + lo == cu);
            assert(e[4] == hex_char(hi) && e[5] == hex_char(lo));
            assert(((48 + hi) as u8) as char as int == 48 + hi);
            if lo < 10 {
                assert(((48 + lo) as u8) as char as int == 48 + lo);
            } else {
                assert(((87 + lo) as u8) as char as int == 87 + lo);
            }
            assert(hex_v('0') == 0);
            assert(hex_v(hex_char(hi)) == hi);
            assert(hex_v(hex_char(lo)) == lo);
            let v = 0 * 4096 + 0 * 256 + hex_v(hex_char(hi)) * 16 + hex_v(hex_char(lo));
            assert(v == cu);
            assert(v < 0xD800);
            assert((v as u32) == c as u32);
            assert(((v as u32) as char) == c) by {
                vstd::utf8::char_u32_cast(c, v as u32);
            }
            assert(i + 6 <= t.len());
            assert(sp_string(t, i) == cons_str(c, sp_string(t, i + 6)));
        } else {
            assert(e1 == 1);
            assert(t[i as int] == c);
            assert(c != '"' && c != '\\' && !((c as u32) < 32));
            assert(sp_string(t, i) == cons_str(c, sp_string(t, i + 1)));
        }
    }
}

/// A rendered JSON string literal, standing at `i` inside a larger text,
/// parses back to exactly the text it denotes: escaping and unescaping are
/// inverse.
pub proof fn lemma_quoted_parse_back(t: Seq<char>, i: nat, s: Seq<char>)
    requires
        i + quoted(s).len() <= t.len(),
        t.subrange(i as int, (i + quoted(s).len()) as int) == quoted(s),
    ensures
        sp_string_value(t, i) == Some((s, i + quoted(s).len())),
{
    reveal_strlit("\"");
    let e = esc_from(s, 0);
    let q = quoted(s);
    let l = q.len();
    assert(l == e.len() + 2);
    let sub = t.subrange(i as int, (i + l) as int);
    assert(sub[0] == t[i as int + 0]);
    assert(q[0] == '"');
    assert(t[i as int] == '"');
    let sub2 = t.subrange((i + 1) as int, (i + 1 + e.len()) as int);
    assert(sub2 =~= e) by {
        assert forall|j: int| 0 <= j < e.len() implies sub2[j] == e[j] by {
            assert(sub2[j] == t[(i + 1) as int + j]);
            assert(sub[1 + j] == t[i as int + (1 + j)]);
            assert(q[1 + j] == e[j]);
        }
    }
    assert(sub[(l - 1) as int] == t[i as int + (l - 1)]);
    assert(q[(l - 1) as int] == '"');
    assert(t[(i + 1 + e.len()) as int] == '"');
    lemma_string_consume(t, i + 1, s, 0);
    assert(s.subrange(0, s.len() as int) =~= s);
}


/// A character the renderer writes verbatim inside a string literal.
pub open spec fn plain_char(c: char) -> bool {
    c != '"' && c != '\\' && c != '\u{8}' && c != '\u{c}' && c != '\n' && c != '\r' && c != '\t'
        && (c as u32) >= 32
}

/// A string of plain characters is rendered verbatim: escaping changes
/// nothing on it.
pub proof fn lemma_plain_text_verbatim(s: Seq<char>, k: nat)
    requires
        k <= s.len(),
        forall|j: int| k <= j < s.len() ==> plain_char(#[trigger] s[j]),
    ensures
        esc_from(s, k) == s.subrange(k as int, s.len() as int),
    decreases s.len() - k,
{
    if k < s.len() {
        lemma_plain_text_verbatim(s, k + 1);
        assert(esc_char(s[k as int]) == seq![s[k as int]]);
        assert(seq![s[k as int]] + s.subrange((k + 1) as int, s.len() as int) =~= s.subrange(
            k as int,
            s.len() as int,
        ));
    } else {
        assert(s.subrange(k as int, s.len() as int) =~= Seq::empty());
    }
}


/// Part of a known stretch of text is that part of it.
pub(crate) proof fn lemma_sub_seg(t: Seq<char>, i: nat, w: Seq<char>, a: nat, b: nat)
    requires
        i + w.len() <= t.len(),
        t.subrange(i as int, (i + w.len()) as int) == w,
        a <= b <= w.len(),
    ensures
        t.subrange((i + a) as int, (i + b) as int) == w.subrange(a as int, b as int),
{
    let lhs = t.subrange((i + a) as int, (i + b) as int);
    let rhs = w.subrange(a as int, b as int);
    assert(lhs =~= rhs) by {
        assert forall|j: int| 0 <= j < b - a implies lhs[j] == rhs[j] by {
            assert(lhs[j] == t[(i + a) as int + j]);
            assert(t.subrange(i as int, (i + w.len()) as int)[a + j] == t[i as int + (a + j)]);
        }
    }
}

/// One character of a known stretch of text.
pub(crate) proof fn lemma_char_at(t: Seq<char>, i: nat, w: Seq<char>, a: nat)
    requires
        i + w.len() <= t.len(),
        t.subrange(i as int, (i + w.len()) as int) == w,
        a < w.len(),
    ensures
        t[(i + a) as int] == w[a as int],
{
    assert(t.subrange(i as int, (i + w.len()) as int)[a as int] == t[i as int + a]);
}

/// Whitespace skipping runs to the end of a whitespace run.
pub(crate) proof fn lemma_ws_run(t: Seq<char>, i: nat, k: nat)
    requires
        i + k <= t.len(),
        forall|j: int| 0 <= j < k ==> json_ws(#[trigger] t[i + j]),
        i + k == t.len() || !json_ws(t[(i + k) as int]),
    ensures
        sp_ws(t, i) == i + k,
    decreases k,
{
    if k == 0 {
        assert(i == t.len() || !json_ws(t[i as int]));
    } else {
        assert(json_ws(t[i as int + 0]));
        assert(json_ws(t[i as int]));
        assert forall|j: int| 0 <= j < k - 1 implies json_ws(#[trigger] t[(i + 1) + j]) by {
            assert(json_ws(t[i + (j + 1)]));
        }
        lemma_ws_run(t, i + 1, (k - 1) as nat);
    }
}

/// A member key written as the renderer writes it — quote, plain key,
/// quote, colon, space — parses to that key with the value right after.
pub(crate) proof fn lemma_key_member(t: Seq<char>, i: nat, key: Seq<char>)
    requires
        i + key.len() + 4 <= t.len(),
        t[i as int] == '"',
        t.subrange((i + 1) as int, (i + 1 + key.len()) as int) == key,
        forall|j: int| 0 <= j < key.len() ==> plain_char(#[trigger] key[j]),
        t[(i + 1 + key.len()) as int] == '"',
        t[(i + 2 + key.len()) as int] == ':',
        t[(i + 3 + key.len()) as int] == ' ',
        i + 4 + key.len() == t.len() || !json_ws(t[(i + 4 + key.len()) as int]),
    ensures
        sp_key(t, i) == Some((key, i + key.len() + 4)),
{
    lemma_plain_text_verbatim(key, 0);
    assert(key.subrange(0, key.len() as int) =~= key);
    lemma_string_consume(t, i + 1, key, 0);
    let j = i + key.len() + 2;
    assert(sp_string(t, i + 1) == Some((key, j)));
    assert(!json_ws(t[j as int]));
    lemma_ws_run(t, j, 0);
    assert(sp_ws(t, j) == j);
    assert(json_ws(t[(j + 1) as int + 0]));
    lemma_ws_run(t, j + 1, 1);
    assert(sp_ws(t, j + 1) == j + 2);
}

/// After a member's value, a comma, a newline and an indent lead to the
/// next key.
pub(crate) proof fn lemma_after_comma(t: Seq<char>, p: nat, d: nat)
    requires
        p + d + 2 <= t.len(),
        t[p as int] == ',',
        t[(p + 1) as int] == '\n',
        forall|j: int| 0 <= j < d ==> #[trigger] t[(p + 2) + j] == ' ',
        p + 2 + d == t.len() || !json_ws(t[(p + 2 + d) as int]),
    ensures
        sp_after_member(t, p) == Some((false, p + 2 + d)),
{
    lemma_ws_run(t, p, 0);
    assert forall|j: int| 0 <= j < d + 1 implies json_ws(#[trigger] t[(p + 1) + j]) by {
        if j >= 1 {
            assert(t[(p + 2) + (j - 1)] == ' ');
        }
    }
    lemma_ws_run(t, p + 1, d + 1);
}

/// After the last member's value, a newline, an indent and the closing
/// brace end the object.
pub(crate) proof fn lemma_after_close(t: Seq<char>, p: nat, d: nat)
    requires
        p + d + 2 <= t.len(),
        t[p as int] == '\n',
        forall|j: int| 0 <= j < d ==> #[trigger] t[(p + 1) + j] == ' ',
        t[(p + 1 + d) as int] == '}',
    ensures
        sp_after_member(t, p) == Some((true, p + d + 2)),
{
    assert forall|j: int| 0 <= j < d + 1 implies json_ws(#[trigger] t[p + j]) by {
        if j >= 1 {
            assert(t[(p + 1) + (j - 1)] == ' ');
        }
    }
    assert(!json_ws(t[(p + (d + 1)) as int]));
    lemma_ws_run(t, p, d + 1);
}


/// A rendered telegram object, standing at `i` inside a larger text,
/// parses back to exactly the model it was rendered from.
#[verifier::rlimit(100)]
pub proof fn lemma_telegram_parse(t: Seq<char>, i: nat, tm: TelegramModel, fuel: nat)
    requires
        fuel >= 2,
        i + telegram_text(tm).len() <= t.len(),
        t.subrange(i as int, (i + telegram_text(tm).len()) as int) == telegram_text(tm),
    ensures
        sp_telegram_value(t, i, fuel) == Some((tm, i + telegram_text(tm).len())),
{
    reveal_strlit("{\n      \"configured\": ");
    reveal_strlit(",\n      \"skipped\": ");
    reveal_strlit("\n    }");
    reveal_strlit("configured");
    reveal_strlit("skipped");
    reveal_strlit("true");
    reveal_strlit("false");
    let w = telegram_text(tm);
    let l1 = "{\n      \"configured\": "@;
    let l2 = ",\n      \"skipped\": "@;
    let l3 = "\n    }"@;
    let b1 = bool_text(tm.configured);
    let b2 = bool_text(tm.skipped);
    let bl1 = b1.len();
    let bl2 = b2.len();
    assert(w == l1 + b1 + l2 + b2 + l3);
    assert(l1.len() == 22 && l2.len() == 19 && l3.len() == 6);
    let lw = w.len();
    assert(lw == 47 + bl1 + bl2);
    // every character needed below, as the renderer laid it out
    lemma_char_at(t, i, w, 0);
    assert(t[i as int] == '{');
    assert forall|j: int| 0 <= j < 7 implies json_ws(#[trigger] t[(i + 1) + j]) by {
        lemma_char_at(t, i, w, (1 + j) as nat);
        assert(w[1 + j] == l1[1 + j]);
    }
    lemma_char_at(t, i, w, 8);
    assert(t[(i + 8) as int] == '"');
    lemma_ws_run(t, i + 1, 7);
    assert(sp_ws(t, i + 1) == i + 8);
    // first member: "configured"
    let key1 = "configured"@;
    assert(key1.len() == 10);
    lemma_sub_seg(t, i, w, 9, 19);
    assert(w.subrange(9, 19) =~= key1);
    assert forall|j: int| 0 <= j < 10 implies plain_char(#[trigger] key1[j]) by {}
    lemma_char_at(t, i, w, 19);
    lemma_char_at(t, i, w, 20);
    lemma_char_at(t, i, w, 21);
    lemma_char_at(t, i, w, 22);
    assert(t[(i + 19) as int] == '"');
    assert(t[(i + 20) as int] == ':');
    assert(t[(i + 21) as int] == ' ');
    assert(w[22] == b1[0]);
    assert(t[(i + 22) as int] == b1[0]);
    assert(!json_ws(b1[0]));
    lemma_key_member(t, i + 8, key1);
    assert(sp_key(t, i + 8) == Some((key1, i + 22)));
    // its boolean value
    lemma_sub_seg(t, i, w, 22, 22 + bl1);
    assert(w.subrange(22, (22 + bl1) as int) =~= b1);
    lemma_bool_parse_back(t, i + 22, tm.configured);
    let p = i + 22 + bl1;
    assert(sp_bool_value(t, i + 22) == Some((tm.configured, p)));
    // comma, newline, indent to the second key
    lemma_char_at(t, i, w, 22 + bl1);
    lemma_char_at(t, i, w, 23 + bl1);
    assert(w[(22 + bl1) as int] == l2[0]);
    assert(w[(23 + bl1) as int] == l2[1]);
    assert(t[p as int] == ',');
    assert(t[(p + 1) as int] == '\n');
    assert forall|j: int| 0 <= j < 6 implies #[trigger] t[(p + 2) + j] == ' ' by {
        lemma_char_at(t, i, w, (24 + bl1 + j) as nat);
        assert(w[24 + bl1 + j] == l2[2 + j]);
    }
    lemma_char_at(t, i, w, 30 + bl1);
    assert(w[(30 + bl1) as int] == l2[8]);
    assert(t[(p + 8) as int] == '"');
    lemma_after_comma(t, p, 6);
    assert(sp_after_member(t, p) == Some((false, p + 8)));
    // second member: "skipped"
    let key2 = "skipped"@;
    assert(key2.len() == 7);
    lemma_sub_seg(t, i, w, 31 + bl1, 38 + bl1);
    assert(w.subrange((31 + bl1) as int, (38 + bl1) as int) =~= key2);
    assert forall|j: int| 0 <= j < 7 implies plain_char(#[trigger] key2[j]) by {}
    lemma_char_at(t, i, w, 38 + bl1);
    lemma_char_at(t, i, w, 39 + bl1);
    lemma_char_at(t, i, w, 40 + bl1);
    lemma_char_at(t, i, w, 41 + bl1);
    assert(w[(38 + bl1) as int] == l2[16]);
    assert(w[(39 + bl1) as int] == l2[17]);
    assert(w[(40 + bl1) as int] == l2[18]);
    assert(w[(41 + bl1) as int] == b2[0]);
    assert(t[(p + 16) as int] == '"');
    assert(t[(p + 17) as int] == ':');
    assert(t[(p + 18) as int] == ' ');
    assert(t[(p + 19) as int] == b2[0]);
    assert(!json_ws(b2[0]));
    lemma_key_member(t, p + 8, key2);
    assert(sp_key(t, p + 8) == Some((key2, p + 19)));
    // its boolean value
    lemma_sub_seg(t, i, w, 41 + bl1, 41 + bl1 + bl2);
    assert(w.subrange((41 + bl1) as int, (41 + bl1 + bl2) as int) =~= b2);
    lemma_bool_parse_back(t, p + 19, tm.skipped);
    let p2 = p + 19 + bl2;
    assert(sp_bool_value(t, p + 19) == Some((tm.skipped, p2)));
    // newline, indent, closing brace
    lemma_char_at(t, i, w, 41 + bl1 + bl2);
    assert(w[(41 + bl1 + bl2) as int] == l3[0]);
    assert(t[p2 as int] == '\n');
    assert forall|j: int| 0 <= j < 4 implies #[trigger] t[(p2 + 1) + j] == ' ' by {
        lemma_char_at(t, i, w, (42 + bl1 + bl2 + j) as nat);
        assert(w[42 + bl1 + bl2 + j] == l3[1 + j]);
    }
    lemma_char_at(t, i, w, 46 + bl1 + bl2);
    assert(w[(46 + bl1 + bl2) as int] == l3[5]);
    assert(t[(p2 + 5) as int] == '}');
    lemma_after_close(t, p2, 4);
    assert(sp_after_member(t, p2) == Some((true, p2 + 6)));
    // the two keys differ, so the dispatch is unambiguous
    assert(key2 != key1);
    // walk the two members
    assert(sp_telegram_fields(t, i + 8, fuel, None, None) == sp_telegram_fields(
        t,
        p + 8,
        (fuel - 1) as nat,
        Some(tm.configured),
        None,
    ));
    assert(sp_telegram_fields(t, p + 8, (fuel - 1) as nat, Some(tm.configured), None) == Some(
        (TelegramModel { configured: tm.configured, skipped: tm.skipped }, p2 + 6),
    ));
    assert(TelegramModel { configured: tm.configured, skipped: tm.skipped } == tm);
    assert(t[(i + 8) as int] != '}');
    assert(sp_telegram_value(t, i, fuel) == Some((tm, p2 + 6)));
    assert(p2 + 6 == i + lw);
}


/// A rendered npx object parses back to exactly its model.
#[verifier::rlimit(100)]
pub proof fn lemma_npx_parse(t: Seq<char>, i: nat, tm: NpxModel, fuel: nat)
    requires
        fuel >= 1,
        i + npx_text(tm).len() <= t.len(),
        t.subrange(i as int, (i + npx_text(tm).len()) as int) == npx_text(tm),
    ensures
        sp_npx_value(t, i, fuel) == Some((tm, i + npx_text(tm).len())),
{
    reveal_strlit("{\n        \"installed\": ");
    reveal_strlit("\n      }");
    reveal_strlit("installed");
    reveal_strlit("true");
    reveal_strlit("false");
    let w = npx_text(tm);
    let l1 = "{\n        \"installed\": "@;
    let l3 = "\n      }"@;
    let b1 = bool_text(tm.installed);
    let bl1 = b1.len();
    assert(w == l1 + b1 + l3);
    assert(l1.len() == 23 && l3.len() == 8);
    let lw = w.len();
    assert(lw == 31 + bl1);
    lemma_char_at(t, i, w, 0);
    assert(t[i as int] == '{');
    assert forall|j: int| 0 <= j < 9 implies json_ws(#[trigger] t[(i + 1) + j]) by {
        lemma_char_at(t, i, w, (1 + j) as nat);
        assert(w[1 + j] == l1[1 + j]);
    }
    lemma_char_at(t, i, w, 10);
    assert(t[(i + 10) as int] == '"');
    lemma_ws_run(t, i + 1, 9);
    assert(sp_ws(t, i + 1) == i + 10);
    let key1 = "installed"@;
    assert(key1.len() == 9);
    lemma_sub_seg(t, i, w, 11, 20);
    assert(w.subrange(11, 20) =~= key1);
    assert forall|j: int| 0 <= j < 9 implies plain_char(#[trigger] key1[j]) by {}
    lemma_char_at(t, i, w, 20);
    lemma_char_at(t, i, w, 21);
    lemma_char_at(t, i, w, 22);
    lemma_char_at(t, i, w, 23);
    assert(t[(i + 20) as int] == '"');
    assert(t[(i + 21) as int] == ':');
    assert(t[(i + 22) as int] == ' ');
    assert(w[23] == b1[0]);
    assert(t[(i + 23) as int] == b1[0]);
    assert(!json_ws(b1[0]));
    lemma_key_member(t, i + 10, key1);
    assert(sp_key(t, i + 10) == Some((key1, i + 23)));
    lemma_sub_seg(t, i, w, 23, 23 + bl1);
    assert(w.subrange(23, (23 + bl1) as int) =~= b1);
    lemma_bool_parse_back(t, i + 23, tm.installed);
    let p = i + 23 + bl1;
    assert(sp_bool_value(t, i + 23) == Some((tm.installed, p)));
    lemma_char_at(t, i, w, 23 + bl1);
    assert(w[(23 + bl1) as int] == l3[0]);
    assert(t[p as int] == '\n');
    assert forall|j: int| 0 <= j < 6 implies #[trigger] t[(p + 1) + j] == ' ' by {
        lemma_char_at(t, i, w, (24 + bl1 + j) as nat);
        assert(w[24 + bl1 + j] == l3[1 + j]);
    }
    lemma_char_at(t, i, w, 30 + bl1);
    assert(w[(30 + bl1) as int] == l3[7]);
    assert(t[(p + 7) as int] == '}');
    lemma_after_close(t, p, 6);
    assert(sp_after_member(t, p) == Some((true, p + 8)));
    assert(sp_npx_fields(t, i + 10, fuel, None) == Some(
        (NpxModel { installed: tm.installed }, p + 8),
    ));
    assert(NpxModel { installed: tm.installed } == tm);
    assert(t[(i + 10) as int] != '}');
    assert(sp_npx_value(t, i, fuel) == Some((tm, p + 8)));
    assert(p + 8 == i + lw);
}

/// The trailing member of a rendered developer-tool object: `version`,
/// then the closing brace.
#[verifier::rlimit(100)]
proof fn lemma_tool_tail(t: Seq<char>, p: nat, tm: DevToolInfoModel, fuel: nat)
    requires
        fuel >= 1,
        p + 29 + quoted(tm.version).len() <= t.len(),
        t.subrange(p as int, (p + 29 + quoted(tm.version).len()) as int) == ",\n        \"version\": "@
            + quoted(tm.version) + "\n      }"@,
    ensures
        sp_after_member(t, p) == Some((false, p + 10)),
        sp_tool_fields(t, p + 10, fuel, Some(tm.installed), None) == Some(
            (tm, p + 29 + quoted(tm.version).len()),
        ),
{
    reveal_strlit(",\n        \"version\": ");
    reveal_strlit("\n      }");
    reveal_strlit("installed");
    reveal_strlit("version");
    reveal_strlit("\"");
    let l2 = ",\n        \"version\": "@;
    let l3 = "\n      }"@;
    let qv = quoted(tm.version);
    let ql = qv.len();
    let w = l2 + qv + l3;
    let lw = w.len();
    assert(l2.len() == 21 && l3.len() == 8);
    assert(lw == 29 + ql);
    // comma, newline, indent to the key
    lemma_char_at(t, p, w, 0);
    lemma_char_at(t, p, w, 1);
    assert(t[p as int] == ',');
    assert(t[(p + 1) as int] == '\n');
    assert forall|j: int| 0 <= j < 8 implies #[trigger] t[(p + 2) + j] == ' ' by {
        lemma_char_at(t, p, w, (2 + j) as nat);
        assert(w[2 + j] == l2[2 + j]);
    }
    lemma_char_at(t, p, w, 10);
    assert(w[10] == l2[10]);
    assert(t[(p + 10) as int] == '"');
    lemma_after_comma(t, p, 8);
    assert(sp_after_member(t, p) == Some((false, p + 10)));
    // member: "version", a string value
    let key2 = "version"@;
    assert(key2.len() == 7);
    lemma_sub_seg(t, p, w, 11, 18);
    assert(w.subrange(11, 18) =~= key2);
    assert forall|j: int| 0 <= j < 7 implies plain_char(#[trigger] key2[j]) by {}
    lemma_char_at(t, p, w, 18);
    lemma_char_at(t, p, w, 19);
    lemma_char_at(t, p, w, 20);
    lemma_char_at(t, p, w, 21);
    assert(t[(p + 18) as int] == '"');
    assert(t[(p + 19) as int] == ':');
    assert(t[(p + 20) as int] == ' ');
    assert(w[21] == qv[0]);
    assert(qv[0] == '"');
    assert(t[(p + 21) as int] == '"');
    assert(!json_ws(t[(p + 21) as int]));
    lemma_key_member(t, p + 10, key2);
    assert(sp_key(t, p + 10) == Some((key2, p + 21)));
    lemma_sub_seg(t, p, w, 21, 21 + ql);
    assert(w.subrange(21, (21 + ql) as int) =~= qv);
    lemma_quoted_parse_back(t, p + 21, tm.version);
    let p2 = p + 21 + ql;
    assert(sp_string_value(t, p + 21) == Some((tm.version, p2)));
    // newline, indent, closing brace
    lemma_char_at(t, p, w, 21 + ql);
    assert(w[(21 + ql) as int] == l3[0]);
    assert(t[p2 as int] == '\n');
    assert forall|j: int| 0 <= j < 6 implies #[trigger] t[(p2 + 1) + j] == ' ' by {
        lemma_char_at(t, p, w, (22 + ql + j) as nat);
        assert(w[22 + ql + j] == l3[1 + j]);
    }
    lemma_char_at(t, p, w, 28 + ql);
    assert(w[(28 + ql) as int] == l3[7]);
    assert(t[(p2 + 7) as int] == '}');
    lemma_after_close(t, p2, 6);
    assert(sp_after_member(t, p2) == Some((true, p2 + 8)));
    assert(key2 != "installed"@);
    assert(sp_tool_fields(t, p + 10, fuel, Some(tm.installed), None) == Some(
        (DevToolInfoModel { installed: tm.installed, version: tm.version }, p2 + 8),
    ));
    assert(DevToolInfoModel { installed: tm.installed, version: tm.version } == tm);
    assert(p2 + 8 == p + lw);
}

/// A rendered developer-tool object parses back to exactly its model.
#[verifier::rlimit(100)]
pub proof fn lemma_tool_parse(t: Seq<char>, i: nat, tm: DevToolInfoModel, fuel: nat)
    requires
        fuel >= 2,
        i + tool_text(tm).len() <= t.len(),
        t.subrange(i as int, (i + tool_text(tm).len()) as int) == tool_text(tm),
    ensures
        sp_tool_value(t, i, fuel) == Some((tm, i + tool_text(tm).len())),
{
    reveal_strlit("{\n        \"installed\": ");
    reveal_strlit(",\n        \"version\": ");
    reveal_strlit("\n      }");
    reveal_strlit("installed");
    reveal_strlit("true");
    reveal_strlit("false");
    let w = tool_text(tm);
    let l1 = "{\n        \"installed\": "@;
    let b1 = bool_text(tm.installed);
    let bl1 = b1.len();
    let qv = quoted(tm.version);
    let ql = qv.len();
    let tail = ",\n        \"version\": "@ + qv + "\n      }"@;
    assert(w == l1 + b1 + tail);
    assert(l1.len() == 23);
    assert(tail.len() == 29 + ql);
    let lw = w.len();
    assert(lw == 52 + bl1 + ql);
    lemma_char_at(t, i, w, 0);
    assert(t[i as int] == '{');
    assert forall|j: int| 0 <= j < 9 implies json_ws(#[trigger] t[(i + 1) + j]) by {
        lemma_char_at(t, i, w, (1 + j) as nat);
        assert(w[1 + j] == l1[1 + j]);
    }
    lemma_char_at(t, i, w, 10);
    assert(t[(i + 10) as int] == '"');
    lemma_ws_run(t, i + 1, 9);
    assert(sp_ws(t, i + 1) == i + 10);
    // first member: "installed"
    let key1 = "installed"@;
    assert(key1.len() == 9);
    lemma_sub_seg(t, i, w, 11, 20);
    assert(w.subrange(11, 20) =~= key1);
    assert forall|j: int| 0 <= j < 9 implies plain_char(#[trigger] key1[j]) by {}
    lemma_char_at(t, i, w, 20);
    lemma_char_at(t, i, w, 21);
    lemma_char_at(t, i, w, 22);
    lemma_char_at(t, i, w, 23);
    assert(t[(i + 20) as int] == '"');
    assert(t[(i + 21) as int] == ':');
    assert(t[(i + 22) as int] == ' ');
    assert(w[23] == b1[0]);
    assert(t[(i + 23) as int] == b1[0]);
    assert(!json_ws(b1[0]));
    lemma_key_member(t, i + 10, key1);
    assert(sp_key(t, i + 10) == Some((key1, i + 23)));
    lemma_sub_seg(t, i, w, 23, 23 + bl1);
    assert(w.subrange(23, (23 + bl1) as int) =~= b1);
    lemma_bool_parse_back(t, i + 23, tm.installed);
    let p = i + 23 + bl1;
    assert(sp_bool_value(t, i + 23) == Some((tm.installed, p)));
    // hand the rest to the tail
    lemma_sub_seg(t, i, w, 23 + bl1, 23 + bl1 + tail.len());
    assert(w.subrange((23 + bl1) as int, (23 + bl1 + tail.len()) as int) =~= tail);
    lemma_tool_tail(t, p, tm, (fuel - 1) as nat);
    assert(sp_after_member(t, p) == Some((false, p + 10)));
    assert(sp_tool_fields(t, i + 10, fuel, None, None) == sp_tool_fields(
        t,
        p + 10,
        (fuel - 1) as nat,
        Some(tm.installed),
        None,
    ));
    assert(t[(i + 10) as int] != '}');
    assert(sp_tool_value(t, i, fuel) == Some((tm, i + lw)));
}

/// The last member of a rendered api-key object: `verified`, then the
/// closing brace.
#[verifier::rlimit(100)]
proof fn lemma_api_key_tail2(t: Seq<char>, p: nat, tm: ApiKeyModel, fuel: nat)
    requires
        fuel >= 1,
        p + 26 + bool_text(tm.verified).len() <= t.len(),
        t.subrange(p as int, (p + 26 + bool_text(tm.verified).len()) as int)
            == ",\n      \"verified\": "@ + bool_text(tm.verified) + "\n    }"@,
    ensures
        sp_after_member(t, p) == Some((false, p + 8)),
        sp_api_key_fields(t, p + 8, fuel, Some(tm.provider), Some(tm.configured), None) == Some(
            (tm, p + 26 + bool_text(tm.verified).len()),
        ),
{
    reveal_strlit(",\n      \"verified\": ");
    reveal_strlit("\n    }");
    reveal_strlit("provider");
    reveal_strlit("configured");
    reveal_strlit("verified");
    reveal_strlit("true");
    reveal_strlit("false");
    let l3 = ",\n      \"verified\": "@;
    let l4 = "\n    }"@;
    let b2 = bool_text(tm.verified);
    let bl2 = b2.len();
    let w = l3 + b2 + l4;
    let lw = w.len();
    assert(l3.len() == 20 && l4.len() == 6);
    assert(lw == 26 + bl2);
    lemma_char_at(t, p, w, 0);
    lemma_char_at(t, p, w, 1);
    assert(t[p as int] == ',');
    assert(t[(p + 1) as int] == '\n');
    assert forall|j: int| 0 <= j < 6 implies #[trigger] t[(p + 2) + j] == ' ' by {
        lemma_char_at(t, p, w, (2 + j) as nat);
        assert(w[2 + j] == l3[2 + j]);
    }
    lemma_char_at(t, p, w, 8);
    assert(w[8] == l3[8]);
    assert(t[(p + 8) as int] == '"');
    lemma_after_comma(t, p, 6);
    assert(sp_after_member(t, p) == Some((false, p + 8)));
    let key3 = "verified"@;
    assert(key3.len() == 8);
    lemma_sub_seg(t, p, w, 9, 17);
    assert(w.subrange(9, 17) =~= key3);
    assert forall|j: int| 0 <= j < 8 implies plain_char(#[trigger] key3[j]) by {}
    lemma_char_at(t, p, w, 17);
    lemma_char_at(t, p, w, 18);
    lemma_char_at(t, p, w, 19);
    lemma_char_at(t, p, w, 20);
    assert(t[(p + 17) as int] == '"');
    assert(t[(p + 18) as int] == ':');
    assert(t[(p + 19) as int] == ' ');
    assert(w[20] == b2[0]);
    assert(t[(p + 20) as int] == b2[0]);
    assert(!json_ws(b2[0]));
    lemma_key_member(t, p + 8, key3);
    assert(sp_key(t, p + 8) == Some((key3, p + 20)));
    lemma_sub_seg(t, p, w, 20, 20 + bl2);
    assert(w.subrange(20, (20 + bl2) as int) =~= b2);
    lemma_bool_parse_back(t, p + 20, tm.verified);
    let p2 = p + 20 + bl2;
    assert(sp_bool_value(t, p + 20) == Some((tm.verified, p2)));
    lemma_char_at(t, p, w, 20 + bl2);
    assert(w[(20 + bl2) as int] == l4[0]);
    assert(t[p2 as int] == '\n');
    assert forall|j: int| 0 <= j < 4 implies #[trigger] t[(p2 + 1) + j] == ' ' by {
        lemma_char_at(t, p, w, (21 + bl2 + j) as nat);
        assert(w[21 + bl2 + j] == l4[1 + j]);
    }
    lemma_char_at(t, p, w, 25 + bl2);
    assert(w[(25 + bl2) as int] == l4[5]);
    assert(t[(p2 + 5) as int] == '}');
    lemma_after_close(t, p2, 4);
    assert(sp_after_member(t, p2) == Some((true, p2 + 6)));
    assert(key3[0] == 'v' && "provider"@[0] == 'p' && "configured"@.len() == 10);
    assert(key3 != "provider"@ && key3 != "configured"@);
    assert(sp_api_key_fields(t, p + 8, fuel, Some(tm.provider), Some(tm.configured), None)
        == Some(
        (
            ApiKeyModel {
                provider: tm.provider,
                configured: tm.configured,
                verified: tm.verified,
            },
            p2 + 6,
        ),
    ));
    assert(ApiKeyModel {
        provider: tm.provider,
        configured: tm.configured,
        verified: tm.verified,
    } == tm);
    assert(p2 + 6 == p + lw);
}

/// The trailing members of a rendered api-key object: `configured` and
/// `verified`, then the closing brace.
#[verifier::rlimit(100)]
proof fn lemma_api_key_tail(t: Seq<char>, p: nat, tm: ApiKeyModel, fuel: nat)
    requires
        fuel >= 2,
        p + 48 + bool_text(tm.configured).len() + bool_text(tm.verified).len() <= t.len(),
        t.subrange(
            p as int,
            (p + 48 + bool_text(tm.configured).len() + bool_text(tm.verified).len()) as int,
        ) == ",\n      \"configured\": "@ + bool_text(tm.configured) + ",\n      \"verified\": "@
            + bool_text(tm.verified) + "\n    }"@,
    ensures
        sp_after_member(t, p) == Some((false, p + 8)),
        sp_api_key_fields(t, p + 8, fuel, Some(tm.provider), None, None) == Some(
            (tm, p + 48 + bool_text(tm.configured).len() + bool_text(tm.verified).len()),
        ),
{
    reveal_strlit(",\n      \"configured\": ");
    reveal_strlit("provider");
    reveal_strlit("configured");
    reveal_strlit("true");
    reveal_strlit("false");
    let l2 = ",\n      \"configured\": "@;
    let b1 = bool_text(tm.configured);
    let bl1 = b1.len();
    let tail = ",\n      \"verified\": "@ + bool_text(tm.verified) + "\n    }"@;
    let w = l2 + b1 + ",\n      \"verified\": "@ + bool_text(tm.verified) + "\n    }"@;
    let lw = w.len();
    assert(l2.len() == 22);
    assert(tail.len() == 26 + bool_text(tm.verified).len()) by {
        reveal_strlit(",\n      \"verified\": ");
        reveal_strlit("\n    }");
    }
    assert(lw == 48 + bl1 + bool_text(tm.verified).len());
    assert(w =~= l2 + b1 + tail);
    lemma_char_at(t, p, w, 0);
    lemma_char_at(t, p, w, 1);
    assert(t[p as int] == ',');
    assert(t[(p + 1) as int] == '\n');
    assert forall|j: int| 0 <= j < 6 implies #[trigger] t[(p + 2) + j] == ' ' by {
        lemma_char_at(t, p, w, (2 + j) as nat);
        assert(w[2 + j] == l2[2 + j]);
    }
    lemma_char_at(t, p, w, 8);
    assert(w[8] == l2[8]);
    assert(t[(p + 8) as int] == '"');
    lemma_after_comma(t, p, 6);
    assert(sp_after_member(t, p) == Some((false, p + 8)));
    let key2 = "configured"@;
    assert(key2.len() == 10);
    lemma_sub_seg(t, p, w, 9, 19);
    assert(w.subrange(9, 19) =~= key2);
    assert forall|j: int| 0 <= j < 10 implies plain_char(#[trigger] key2[j]) by {}
    lemma_char_at(t, p, w, 19);
    lemma_char_at(t, p, w, 20);
    lemma_char_at(t, p, w, 21);
    lemma_char_at(t, p, w, 22);
    assert(t[(p + 19) as int] == '"');
    assert(t[(p + 20) as int] == ':');
    assert(t[(p + 21) as int] == ' ');
    assert(w[22] == b1[0]);
    assert(t[(p + 22) as int] == b1[0]);
    assert(!json_ws(b1[0]));
    lemma_key_member(t, p + 8, key2);
    assert(sp_key(t, p + 8) == Some((key2, p + 22)));
    lemma_sub_seg(t, p, w, 22, 22 + bl1);
    assert(w.subrange(22, (22 + bl1) as int) =~= b1);
    lemma_bool_parse_back(t, p + 22, tm.configured);
    let p2 = p + 22 + bl1;
    assert(sp_bool_value(t, p + 22) == Some((tm.configured, p2)));
    lemma_sub_seg(t, p, w, 22 + bl1, lw);
    assert(w.subrange((22 + bl1) as int, lw as int) =~= tail);
    lemma_api_key_tail2(t, p2, tm, (fuel - 1) as nat);
    assert(sp_after_member(t, p2) == Some((false, p2 + 8)));
    assert(key2 != "provider"@);
    assert(sp_api_key_fields(t, p + 8, fuel, Some(tm.provider), None, None)
        == sp_api_key_fields(
        t,
        p2 + 8,
        (fuel - 1) as nat,
        Some(tm.provider),
        Some(tm.configured),
        None,
    ));
}

/// A rendered api-key object parses back to exactly its model.
#[verifier::rlimit(100)]
pub proof fn lemma_api_key_parse(t: Seq<char>, i: nat, tm: ApiKeyModel, fuel: nat)
    requires
        fuel >= 3,
        i + api_key_text(tm).len() <= t.len(),
        t.subrange(i as int, (i + api_key_text(tm).len()) as int) == api_key_text(tm),
    ensures
        sp_api_key_value(t, i, fuel) == Some((tm, i + api_key_text(tm).len())),
{
    reveal_strlit("{\n      \"provider\": ");
    reveal_strlit(",\n      \"configured\": ");
    reveal_strlit(",\n      \"verified\": ");
    reveal_strlit("\n    }");
    reveal_strlit("provider");
    reveal_strlit("\"");
    let w = api_key_text(tm);
    let l1 = "{\n      \"provider\": "@;
    let qv = quoted(tm.provider);
    let ql = qv.len();
    let b1 = bool_text(tm.configured);
    let bl1 = b1.len();
    let b2 = bool_text(tm.verified);
    let bl2 = b2.len();
    let tail = ",\n      \"configured\": "@ + b1 + ",\n      \"verified\": "@ + b2 + "\n    }"@;
    assert(w == l1 + qv + tail);
    assert(l1.len() == 20);
    assert(tail.len() == 48 + bl1 + bl2);
    let lw = w.len();
    assert(lw == 20 + ql + tail.len());
    lemma_char_at(t, i, w, 0);
    assert(t[i as int] == '{');
    assert forall|j: int| 0 <= j < 7 implies json_ws(#[trigger] t[(i + 1) + j]) by {
        lemma_char_at(t, i, w, (1 + j) as nat);
        assert(w[1 + j] == l1[1 + j]);
    }
    lemma_char_at(t, i, w, 8);
    assert(t[(i + 8) as int] == '"');
    lemma_ws_run(t, i + 1, 7);
    assert(sp_ws(t, i + 1) == i + 8);
    // first member: "provider", a string value
    let key1 = "provider"@;
    assert(key1.len() == 8);
    lemma_sub_seg(t, i, w, 9, 17);
    assert(w.subrange(9, 17) =~= key1);
    assert forall|j: int| 0 <= j < 8 implies plain_char(#[trigger] key1[j]) by {}
    lemma_char_at(t, i, w, 17);
    lemma_char_at(t, i, w, 18);
    lemma_char_at(t, i, w, 19);
    lemma_char_at(t, i, w, 20);
    assert(t[(i + 17) as int] == '"');
    assert(t[(i + 18) as int] == ':');
    assert(t[(i + 19) as int] == ' ');
    assert(w[20] == qv[0]);
    assert(qv[0] == '"');
    assert(t[(i + 20) as int] == '"');
    assert(!json_ws(t[(i + 20) as int]));
    lemma_key_member(t, i + 8, key1);
    assert(sp_key(t, i + 8) == Some((key1, i + 20)));
    lemma_sub_seg(t, i, w, 20, 20 + ql);
    assert(w.subrange(20, (20 + ql) as int) =~= qv);
    lemma_quoted_parse_back(t, i + 20, tm.provider);
    let p = i + 20 + ql;
    assert(sp_string_value(t, i + 20) == Some((tm.provider, p)));
    // hand the rest to the tail
    lemma_sub_seg(t, i, w, 20 + ql, 20 + ql + tail.len());
    assert(w.subrange((20 + ql) as int, (20 + ql + tail.len()) as int) =~= tail);
    lemma_api_key_tail(t, p, tm, (fuel - 1) as nat);
    assert(sp_after_member(t, p) == Some((false, p + 8)));
    assert(sp_api_key_fields(t, i + 8, fuel, None, None, None) == sp_api_key_fields(
        t,
        p + 8,
        (fuel - 1) as nat,
        Some(tm.provider),
        None,
        None,
    ));
    assert(t[(i + 8) as int] != '}');
    assert(sp_api_key_value(t, i, fuel) == Some((tm, i + lw)));
}


} // verus!
