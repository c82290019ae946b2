//! Serialization of the onboarding document: the exact pretty-printed
//! JSON text, two-space indented, fields in declaration order, strings
//! escaped as JSON asks.

use vstd::prelude::*;
use crate::state::{
    automation_view, ApiKeyData, ApiKeyModel, DataModel, DevToolInfo, DevToolInfoModel,
    DevToolsData, DevToolsModel, NpxInfo, NpxModel, OnboardingData, OnboardingState,
    PermissionsData, PermissionsModel, StateModel, TelegramData, TelegramModel,
};

verus! {

/// A hexadecimal digit character (lower case), for `d < 16`.
pub open spec fn hex_char(d: int) -> char {
    if d < 10 {
        ((48 + d) as u8) as char
    } else {
        ((87 + d) as u8) as char
    }
}

/// How one character appears inside a JSON string literal: quote and
/// backslash escaped, control characters by their short escape or as
/// `\u00XX`, everything else verbatim.
pub open spec fn esc_char(c: char) -> Seq<char> {
    if c == '"' {
        "\\\""@
    } else if c == '\\' {
        "\\\\"@
    } else if c == '\u{8}' {
        "\\b"@
    } else if c == '\u{c}' {
        "\\f"@
    } else if c == '\n' {
        "\\n"@
    } else if c == '\r' {
        "\\r"@
    } else if c == '\t' {
        "\\t"@
    } else if (c as u32) < 32 {
        "\\u00"@ + seq![hex_char((c as u32) as int / 16), hex_char((c as u32) as int % 16)]
    } else {
        seq![c]
    }
}

/// The escaped form of `s[i..]`.
pub open spec fn esc_from(s: Seq<char>, i: nat) -> Seq<char>
    decreases s.len() - i,
{
    if i < s.len() {
        esc_char(s[i as int]) + esc_from(s, i + 1)
    } else {
        Seq::empty()
    }
}

/// A JSON string literal: the escaped text between double quotes.
pub open spec fn quoted(s: Seq<char>) -> Seq<char> {
    "\""@ + esc_from(s, 0) + "\""@
}

/// A JSON boolean literal.
pub open spec fn bool_text(b: bool) -> Seq<char> {
    if b {
        "true"@
    } else {
        "false"@
    }
}

/// The decimal digits of `n`, most significant first.
pub open spec fn dec_digits(n: nat) -> Seq<char>
    decreases n,
{
    if n < 10 {
        seq![((48 + n) as u8) as char]
    } else {
        dec_digits(n / 10) + seq![((48 + (n % 10)) as u8) as char]
    }
}

/// One automation entry, at its eight-space indent.
pub open spec fn automation_entry_text(e: (Seq<char>, bool)) -> Seq<char> {
    "        "@ + quoted(e.0) + ": "@ + bool_text(e.1)
}

/// The automation entries from index `i` on, comma-separated.
pub open spec fn automation_entries_from(s: Seq<(Seq<char>, bool)>, i: nat) -> Seq<char>
    decreases s.len() - i,
{
    if i >= s.len() {
        Seq::empty()
    } else if i + 1 == s.len() {
        automation_entry_text(s[i as int])
    } else {
        automation_entry_text(s[i as int]) + ",\n"@ + automation_entries_from(s, i + 1)
    }
}

/// The automation object: `{}` when empty, else one entry per line.
pub open spec fn automation_text(s: Seq<(Seq<char>, bool)>) -> Seq<char> {
    if s.len() == 0 {
        "{}"@
    } else {
        "{\n"@ + automation_entries_from(s, 0) + "\n      }"@
    }
}

/// One developer tool's object, closing brace at the six-space indent.
pub open spec fn tool_text(t: DevToolInfoModel) -> Seq<char> {
    "{\n        \"installed\": "@ + bool_text(t.installed) + ",\n        \"version\": "@ + quoted(
        t.version,
    ) + "\n      }"@
}

/// The npx object.
pub open spec fn npx_text(t: NpxModel) -> Seq<char> {
    "{\n        \"installed\": "@ + bool_text(t.installed) + "\n      }"@
}

/// The developer-tools object.
pub open spec fn dev_tools_text(d: DevToolsModel) -> Seq<char> {
    "{\n      \"homebrew\": "@ + tool_text(d.homebrew) + ",\n      \"python\": "@ + tool_text(
        d.python,
    ) + ",\n      \"node\": "@ + tool_text(d.node) + ",\n      \"npx\": "@ + npx_text(d.npx)
        + ",\n      \"skipped\": "@ + bool_text(d.skipped) + "\n    }"@
}

/// The permissions object.
pub open spec fn permissions_text(p: PermissionsModel) -> Seq<char> {
    "{\n      \"accessibility\": "@ + bool_text(p.accessibility) + ",\n      \"automation\": "@
        + automation_text(p.automation) + "\n    }"@
}

/// The api-key object.
pub open spec fn api_key_text(a: ApiKeyModel) -> Seq<char> {
    "{\n      \"provider\": "@ + quoted(a.provider) + ",\n      \"configured\": "@ + bool_text(
        a.configured,
    ) + ",\n      \"verified\": "@ + bool_text(a.verified) + "\n    }"@
}

/// The telegram object.
pub open spec fn telegram_text(t: TelegramModel) -> Seq<char> {
    "{\n      \"configured\": "@ + bool_text(t.configured) + ",\n      \"skipped\": "@ + bool_text(
        t.skipped,
    ) + "\n    }"@
}

/// The data object.
pub open spec fn data_text(d: DataModel) -> Seq<char> {
    "{\n    \"permissions\": "@ + permissions_text(d.permissions) + ",\n    \"api_key\": "@
        + api_key_text(d.api_key) + ",\n    \"telegram\": "@ + telegram_text(d.telegram)
        + ",\n    \"dev_tools\": "@ + dev_tools_text(d.dev_tools) + "\n  }"@
}

/// The whole pretty-printed document.
pub open spec fn state_text(m: StateModel) -> Seq<char> {
    "{\n  \"version\": "@ + dec_digits(m.version as nat) + ",\n  \"completed\": "@ + bool_text(
        m.completed,
    ) + ",\n  \"current_step\": "@ + quoted(m.current_step) + ",\n  \"data\": "@ + data_text(
        m.data,
    ) + "\n}"@
}

fn hex_digit(d: u8) -> (c: char)
    requires
        d < 16,
    ensures
        c == hex_char(d as int),
{
    if d < 10 {
        (48 + d) as char
    } else {
        (87 + d) as char
    }
}

fn push_bool(out: &mut String, b: bool)
    ensures
        final(out)@ == old(out)@ + bool_text(b),
{
    if b {
        out.append("true");
    } else {
        out.append("false");
    }
}

fn push_u32(out: &mut String, v: u32)
    ensures
        final(out)@ == old(out)@ + dec_digits(v as nat),
    decreases v,
{
    if v < 10 {
        let c = (48 + v as u8) as char;
        let s = crate::char_to_string(c);
        out.append(s.as_str());
    } else {
        push_u32(out, v / 10);
        let c = (48 + (v % 10) as u8) as char;
        let s = crate::char_to_string(c);
        out.append(s.as_str());
        proof {
            assert(out@ =~= old(out)@ + dec_digits(v as nat));
        }
    }
}

fn push_esc_char(out: &mut String, c: char)
    ensures
        final(out)@ == old(out)@ + esc_char(c),
{
    if c == '"' {
        out.append("\\\"");
    } else if c == '\\' {
        out.append("\\\\");
    } else if c == '\u{8}' {
        out.append("\\b");
    } else if c == '\u{c}' {
        out.append("\\f");
    } else if c == '\n' {
        out.append("\\n");
    } else if c == '\r' {
        out.append("\\r");
    } else if c == '\t' {
        out.append("\\t");
    } else {
        let v = c as u32;
        if v < 32 {
            out.append("\\u00");
            let hi = hex_digit((v / 16) as u8);
            let s1 = crate::char_to_string(hi);
            out.append(s1.as_str());
            let lo = hex_digit((v % 16) as u8);
            let s2 = crate::char_to_string(lo);
            out.append(s2.as_str());
            proof {
                assert(out@ =~= old(out)@ + esc_char(c));
            }
        } else {
            let s = crate::char_to_string(c);
            out.append(s.as_str());
        }
    }
}

fn push_escaped(out: &mut String, s: &str, n: usize, i: usize)
    requires
        n == s@.len(),
        i <= n,
    ensures
        final(out)@ == old(out)@ + esc_from(s@, i as nat),
    decreases n - i,
{
    if i < n {
        let c = s.get_char(i);
        push_esc_char(out, c);
        push_escaped(out, s, n, i + 1);
        proof {
            assert(out@ =~= old(out)@ + esc_from(s@, i as nat));
        }
    }
}

/// The JSON string literal denoting `s`.
pub fn quoted_string(s: &str) -> (r: String)
    ensures
        r@ == quoted(s@),
{
    let mut out = String::from_str("\"");
    let n = s.unicode_len();
    push_escaped(&mut out, s, n, 0);
    out.append("\"");
    proof {
        assert(out@ =~= quoted(s@));
    }
    out
}

fn push_automation_entries(out: &mut String, v: &Vec<(String, bool)>, i: usize)
    requires
        i < v.len(),
    ensures
        final(out)@ == old(out)@ + automation_entries_from(automation_view(v@), i as nat),
    decreases v.len() - i,
{
    out.append("        ");
    let q = quoted_string(v[i].0.as_str());
    out.append(q.as_str());
    out.append(": ");
    push_bool(out, v[i].1);
    if i + 1 < v.len() {
        out.append(",\n");
        push_automation_entries(out, v, i + 1);
    }
    proof {
        assert(out@ =~= old(out)@ + automation_entries_from(automation_view(v@), i as nat));
    }
}

fn automation_string(v: &Vec<(String, bool)>) -> (r: String)
    ensures
        r@ == automation_text(automation_view(v@)),
{
    if v.len() == 0 {
        String::from_str("{}")
    } else {
        let mut out = String::from_str("{\n");
        push_automation_entries(&mut out, v, 0);
        out.append("\n      }");
        proof {
            assert(out@ =~= automation_text(automation_view(v@)));
        }
        out
    }
}

fn tool_string(t: &DevToolInfo) -> (r: String)
    ensures
        r@ == tool_text(t@),
{
    let mut out = String::from_str("{\n        \"installed\": ");
    push_bool(&mut out, t.installed);
    out.append(",\n        \"version\": ");
    let q = quoted_string(t.version.as_str());
    out.append(q.as_str());
    out.append("\n      }");
    proof {
        assert(out@ =~= tool_text(t@));
    }
    out
}

fn npx_string(t: &NpxInfo) -> (r: String)
    ensures
        r@ == npx_text(t@),
{
    let mut out = String::from_str("{\n        \"installed\": ");
    push_bool(&mut out, t.installed);
    out.append("\n      }");
    proof {
        assert(out@ =~= npx_text(t@));
    }
    out
}

fn dev_tools_string(d: &DevToolsData) -> (r: String)
    ensures
        r@ == dev_tools_text(d@),
{
    let mut out = String::from_str("{\n      \"homebrew\": ");
    let s1 = tool_string(&d.homebrew);
    out.append(s1.as_str());
    out.append(",\n      \"python\": ");
    let s2 = tool_string(&d.python);
    out.append(s2.as_str());
    out.append(",\n      \"node\": ");
    let s3 = tool_string(&d.node);
    out.append(s3.as_str());
    out.append(",\n      \"npx\": ");
    let s4 = npx_string(&d.npx);
    out.append(s4.as_str());
    out.append(",\n      \"skipped\": ");
    push_bool(&mut out, d.skipped);
    out.append("\n    }");
    proof {
        assert(out@ =~= dev_tools_text(d@));
    }
    out
}

fn permissions_string(p: &PermissionsData) -> (r: String)
    ensures
        r@ == permissions_text(p@),
{
    let mut out = String::from_str("{\n      \"accessibility\": ");
    push_bool(&mut out, p.accessibility);
    out.append(",\n      \"automation\": ");
    let a = automation_string(&p.automation);
    out.append(a.as_str());
    out.append("\n    }");
    proof {
        assert(out@ =~= permissions_text(p@));
    }
    out
}

fn api_key_string(a: &ApiKeyData) -> (r: String)
    ensures
        r@ == api_key_text(a@),
{
    let mut out = String::from_str("{\n      \"provider\": ");
    let q = quoted_string(a.provider.as_str());
    out.append(q.as_str());
    out.append(",\n      \"configured\": ");
    push_bool(&mut out, a.configured);
    out.append(",\n      \"verified\": ");
    push_bool(&mut out, a.verified);
    out.append("\n    }");
    proof {
        assert(out@ =~= api_key_text(a@));
    }
    out
}

fn telegram_string(t: &TelegramData) -> (r: String)
    ensures
        r@ == telegram_text(t@),
{
    let mut out = String::from_str("{\n      \"configured\": ");
    push_bool(&mut out, t.configured);
    out.append(",\n      \"skipped\": ");
    push_bool(&mut out, t.skipped);
    out.append("\n    }");
    proof {
        assert(out@ =~= telegram_text(t@));
    }
    out
}

fn data_string(d: &OnboardingData) -> (r: String)
    ensures
        r@ == data_text(d@),
{
    let mut out = String::from_str("{\n    \"permissions\": ");
    let s1 = permissions_string(&d.permissions);
    out.append(s1.as_str());
    out.append(",\n    \"api_key\": ");
    let s2 = api_key_string(&d.api_key);
    out.append(s2.as_str());
    out.append(",\n    \"telegram\": ");
    let s3 = telegram_string(&d.telegram);
    out.append(s3.as_str());
    out.append(",\n    \"dev_tools\": ");
    let s4 = dev_tools_string(&d.dev_tools);
    out.append(s4.as_str());
    out.append("\n  }");
    proof {
        assert(out@ =~= data_text(d@));
    }
    out
}

/// Serialize the document: exactly the pretty-printed text that
/// [`state_text`] describes.
pub fn render_state(s: &OnboardingState) -> (r: String)
    ensures
        r@ == state_text(s@),
{
    let mut out = String::from_str("{\n  \"version\": ");
    push_u32(&mut out, s.version);
    out.append(",\n  \"completed\": ");
    push_bool(&mut out, s.completed);
    out.append(",\n  \"current_step\": ");
    let q = quoted_string(s.current_step.as_str());
    out.append(q.as_str());
    out.append(",\n  \"data\": ");
    let d = data_string(&s.data);
    out.append(d.as_str());
    out.append("\n}");
    proof {
        assert(out@ =~= state_text(s@));
    }
    out
}

} // verus!
