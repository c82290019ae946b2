//! Service lifecycle controller: the decision half of the best-effort
//! shutdown cleanup. Given what the PID-record file held (if anything),
//! decide whether a termination request is due and for which process id.
//! The hosting shell performs the request and removes the record.

use vstd::prelude::*;

verus! {

/// Whitespace as trimmed from the PID record: the ASCII whitespace
/// characters.
pub open spec fn is_space(c: char) -> bool {
    c == ' ' || c == '\t' || c == '\n' || c == '\r' || c == '\u{b}' || c == '\u{c}'
}

/// Index of the first non-whitespace character at or after `i`.
pub open spec fn trim_start_idx(t: Seq<char>, i: nat) -> nat
    decreases t.len() - i,
{
    if i < t.len() && is_space(t[i as int]) {
        trim_start_idx(t, i + 1)
    } else {
        i
    }
}

/// One past the last non-whitespace character before `j`.
pub open spec fn trim_end_idx(t: Seq<char>, j: nat) -> nat
    decreases j,
{
    if j > 0 && j <= t.len() && is_space(t[j - 1]) {
        trim_end_idx(t, (j - 1) as nat)
    } else {
        j
    }
}

/// The text with leading and trailing whitespace removed.
pub open spec fn trimmed(t: Seq<char>) -> Seq<char> {
    let a = trim_start_idx(t, 0);
    let b = trim_end_idx(t, t.len());
    if a <= b {
        t.subrange(a as int, b as int)
    } else {
        Seq::empty()
    }
}

pub open spec fn is_digit(c: char) -> bool {
    48 <= c as int && c as int <= 57
}

pub open spec fn digit_val(c: char) -> int {
    c as int - 48
}

/// Value of the digit run `t[i..]`, accumulated onto `acc`: None as soon as
/// a non-digit appears or the magnitude exceeds what an `i32` could hold.
pub open spec fn digits_val(t: Seq<char>, i: nat, acc: int) -> Option<int>
    decreases t.len() - i,
{
    if acc > 0x8000_0000 {
        None
    } else if i >= t.len() {
        Some(acc)
    } else if is_digit(t[i as int]) {
        digits_val(t, i + 1, acc * 10 + digit_val(t[i as int]))
    } else {
        None
    }
}

/// The signed 32-bit integer the text denotes, exactly as Rust's integer
/// parsing reads it: an optional sign, then one or more decimal digits,
/// nothing else, and the value within the `i32` range.
pub open spec fn parse_i32_text(t: Seq<char>) -> Option<i32> {
    let neg = t.len() > 0 && t[0] == '-';
    let signed = t.len() > 0 && (t[0] == '-' || t[0] == '+');
    let k: nat = if signed {
        1
    } else {
        0
    };
    if t.len() <= k {
        None
    } else {
        match digits_val(t, k, 0) {
            Some(v) => if neg {
                Some((-v) as i32)
            } else if v < 0x8000_0000 {
                Some(v as i32)
            } else {
                None
            },
            None => None,
        }
    }
}

/// What the shutdown cleanup decides from the PID record: `None` when no
/// record exists or its content is not a process id (nothing to do, not an
/// error); `Some(pid)` when a termination request for `pid` is due, after
/// which the record file is removed.
pub open spec fn shutdown_decision(content: Option<Seq<char>>) -> Option<i32> {
    match content {
        Some(t) => parse_i32_text(trimmed(t)),
        None => None,
    }
}

fn space_char(c: char) -> (r: bool)
    ensures
        r == is_space(c),
{
    c == ' ' || c == '\t' || c == '\n' || c == '\r' || c == '\u{b}' || c == '\u{c}'
}

fn skip_space_fwd(s: &str, n: usize, i: usize) -> (r: usize)
    requires
        n == s@.len(),
        i <= n,
    ensures
        i <= r <= n,
        r as nat == trim_start_idx(s@, i as nat),
    decreases n - i,
{
    if i < n {
        let c = s.get_char(i);
        if space_char(c) {
            return skip_space_fwd(s, n, i + 1);
        }
    }
    i
}

fn skip_space_back(s: &str, n: usize, j: usize) -> (r: usize)
    requires
        n == s@.len(),
        j <= n,
    ensures
        r <= j,
        r as nat == trim_end_idx(s@, j as nat),
    decreases j,
{
    if j > 0 {
        let c = s.get_char(j - 1);
        if space_char(c) {
            return skip_space_back(s, n, j - 1);
        }
    }
    j
}

fn digits_value(s: &str, n: usize, i: usize, acc: i64) -> (r: Option<i64>)
    requires
        n == s@.len(),
        i <= n,
        0 <= acc <= 0x8000_0000,
    ensures
        match r {
            Some(v) => digits_val(s@, i as nat, acc as int) == Some(v as int) && 0 <= v
                <= 0x8000_0000,
            None => digits_val(s@, i as nat, acc as int) is None,
        },
    decreases n - i,
{
    if i >= n {
        Some(acc)
    } else {
        let c = s.get_char(i);
        let cv = c as u32;
        if 48 <= cv && cv <= 57 {
            let d: i64 = cv as i64 - 48;
            let acc2: i64 = acc * 10 + d;
            if acc2 > 0x8000_0000 {
                proof {
                    assert(digits_val(s@, (i + 1) as nat, acc2 as int) is None);
                }
                None
            } else {
                digits_value(s, n, i + 1, acc2)
            }
        } else {
            None
        }
    }
}

/// Parse the text of a PID record, ignoring surrounding whitespace, as a
/// signed 32-bit process id.
pub fn parse_pid(s: &str) -> (r: Option<i32>)
    ensures
        r == parse_i32_text(trimmed(s@)),
{
    let n = s.unicode_len();
    let a = skip_space_fwd(s, n, 0);
    let b0 = skip_space_back(s, n, n);
    let b: usize = if b0 < a {
        a
    } else {
        b0
    };
    let t = s.substring_char(a, b);
    proof {
        assert(trimmed(s@) =~= t@);
    }
    let m = t.unicode_len();
    if m == 0 {
        return None;
    }
    let c0 = t.get_char(0);
    let neg = c0 == '-';
    let signed = c0 == '-' || c0 == '+';
    let k: usize = if signed {
        1
    } else {
        0
    };
    if m <= k {
        return None;
    }
    match digits_value(t, m, k, 0) {
        Some(v) => {
            if neg {
                Some((-v) as i32)
            } else if v < 0x8000_0000 {
                Some(v as i32)
            } else {
                None
            }
        },
        None => None,
    }
}

/// Decide the shutdown cleanup from the PID-record content: `content` is
/// `None` when the record file does not exist. No record, or a record that
/// does not hold a process id, asks for nothing — and in particular a
/// second cleanup right after a completed one, the record being gone,
/// decides to do nothing and signals no error.
pub fn shutdown_action(content: Option<&str>) -> (r: Option<i32>)
    ensures
        r == shutdown_decision(match content {
            Some(t) => Some(t@),
            None => None::<Seq<char>>,
        }),
        content is None ==> r is None,
{
    match content {
        Some(t) => parse_pid(t),
        None => None,
    }
}

} // verus!
