//! Assembly of the write-then-read round trip: the object level. Each
//! lemma shows that one rendered object, standing inside a larger text,
//! parses back to exactly the model it was rendered from.

use vstd::prelude::*;
use crate::json::{json_ws, sp_after_member, sp_bool_value, sp_key, sp_string, sp_string_value, sp_ws};
use crate::laws::{
    lemma_after_close, lemma_after_comma, lemma_bool_parse_back, lemma_char_at,
    lemma_string_consume, lemma_sub_seg, lemma_ws_run,
};
use crate::parse::{
    assoc_set, assoc_set_from, sp_automation_fields, sp_automation_value,
};
use crate::state::distinct_keys;
use crate::render::{
    automation_entries_from, automation_entry_text, automation_text, bool_text, esc_from, quoted,
};

verus! {

proof fn lemma_assoc_append(s: Seq<(Seq<char>, bool)>, i: nat, k: Seq<char>, v: bool)
    requires
        i <= s.len(),
        forall|j: int| 0 <= j < s.len() ==> (#[trigger] s[j]).0 != k,
    ensures
        assoc_set_from(s, i, k, v) == s + seq![(k, v)],
    decreases s.len() - i,
{
    if i < s.len() {
        assert(s[i as int].0 != k);
        lemma_assoc_append(s, i + 1, k, v);
    }
}

/// A member key rendered as an arbitrary quoted string, with colon and
/// space, parses to that key with the value right after.
proof fn lemma_key_member_quoted(t: Seq<char>, i: nat, key: Seq<char>)
    requires
        i + quoted(key).len() + 2 <= t.len(),
        t.subrange(i as int, (i + quoted(key).len()) as int) == quoted(key),
        t[(i + quoted(key).len()) as int] == ':',
        t[(i + quoted(key).len() + 1) as int] == ' ',
        i + quoted(key).len() + 2 == t.len() || !json_ws(t[(i + quoted(key).len() + 2) as int]),
    ensures
        sp_key(t, i) == Some((key, i + quoted(key).len() + 2)),
{
    reveal_strlit("\"");
    let e = esc_from(key, 0);
    let q = quoted(key);
    let l = q.len();
    assert(l == e.len() + 2);
    let sub = t.subrange(i as int, (i + l) as int);
    assert(sub[0] == t[i as int + 0]);
    assert(q[0] == '"');
    assert(t[i as int] == '"');
    let sub2 = t.subrange((i + 1) as int, (i + 1 + e.len()) as int);
    assert(sub2 =~= e) by {
        assert forall|j: int| 0 <= j < e.len() implies sub2[j] == e[j] by {
            assert(sub2[j] == t[(i + 1) as int + j]);
            assert(sub[1 + j] == t[i as int + (1 + j)]);
            assert(q[1 + j] == e[j]);
        }
    }
    assert(sub[(l - 1) as int] == t[i as int + (l - 1)]);
    assert(q[(l - 1) as int] == '"');
    assert(t[(i + 1 + e.len()) as int] == '"');
    lemma_string_consume(t, i + 1, key, 0);
    assert(key.subrange(0, key.len() as int) =~= key);
    let c1 = i + l;
    assert(sp_string(t, i + 1) == Some((key, c1)));
    assert(!json_ws(t[c1 as int]));
    lemma_ws_run(t, c1, 0);
    assert(json_ws(t[(c1 + 1) as int + 0]));
    lemma_ws_run(t, c1 + 1, 1);
    assert(sp_ws(t, c1 + 1) == c1 + 2);
}

/// The rendered automation entries from `idx` on, followed by the closing
/// brace, parse back to the whole list: each entry appends its pair.
#[verifier::rlimit(100)]
proof fn lemma_automation_entries(
    t: Seq<char>,
    q: nat,
    s_all: Seq<(Seq<char>, bool)>,
    idx: nat,
    fuel: nat,
)
    requires
        idx < s_all.len(),
        fuel >= s_all.len() - idx,
        distinct_keys(s_all),
        q + automation_entries_from(s_all, idx).len() + 8 <= t.len(),
        t.subrange(
            q as int,
            (q + automation_entries_from(s_all, idx).len() + 8) as int,
        ) == automation_entries_from(s_all, idx) + "\n      }"@,
    ensures
        sp_automation_fields(t, q + 8, fuel, s_all.subrange(0, idx as int)) == Some(
            (s_all, q + automation_entries_from(s_all, idx).len() + 8),
        ),
    decreases s_all.len() - idx,
{
    reveal_strlit("        ");
    reveal_strlit("\"");
    reveal_strlit(": ");
    reveal_strlit(",\n");
    reveal_strlit("\n      }");
    reveal_strlit("true");
    reveal_strlit("false");
    let close = "\n      }"@;
    let entry = automation_entry_text(s_all[idx as int]);
    let sp8 = "        "@;
    let key = s_all[idx as int].0;
    let qk = quoted(key);
    let ql = qk.len();
    let bv = bool_text(s_all[idx as int].1);
    let bl = bv.len();
    assert(entry == sp8 + qk + ": "@ + bv);
    assert(sp8.len() == 8);
    assert(entry.len() == 10 + ql + bl);
    let rest = automation_entries_from(s_all, idx);
    let w = rest + close;
    let lw = w.len();
    // the eight spaces, the quoted key, the colon and space, the value
    lemma_sub_seg(t, q, w, 8, 8 + ql);
    assert(w.subrange(8, (8 + ql) as int) =~= qk) by {
        assert forall|j: int| 0 <= j < ql implies w.subrange(8, (8 + ql) as int)[j] == qk[j] by {
            if idx + 1 < s_all.len() {
                assert(rest == entry + ",\n"@ + automation_entries_from(s_all, idx + 1));
            } else {
                assert(rest == entry);
            }
            assert(w[8 + j] == entry[8 + j]);
            assert(entry[8 + j] == qk[j]);
        }
    }
    assert forall|a: int| 0 <= a < 2 + bl implies #[trigger] w[8 + ql + a] == (": "@ + bv)[a] by {
        if idx + 1 < s_all.len() {
            assert(rest == entry + ",\n"@ + automation_entries_from(s_all, idx + 1));
        } else {
            assert(rest == entry);
        }
        assert(w[8 + ql + a] == entry[8 + ql + a]);
    }
    lemma_char_at(t, q, w, 8 + ql);
    lemma_char_at(t, q, w, 9 + ql);
    lemma_char_at(t, q, w, 10 + ql);
    assert(w[(8 + ql) as int] == ':');
    assert(w[(9 + ql) as int] == ' ');
    assert(w[(10 + ql) as int] == bv[0]);
    assert(t[(q + 8 + ql) as int] == ':');
    assert(t[(q + 8 + ql + 1) as int] == ' ');
    assert(t[(q + 8 + ql + 2) as int] == bv[0]);
    assert(!json_ws(bv[0]));
    lemma_key_member_quoted(t, q + 8, key);
    assert(sp_key(t, q + 8) == Some((key, q + 10 + ql)));
    lemma_sub_seg(t, q, w, 10 + ql, 10 + ql + bl);
    assert(w.subrange((10 + ql) as int, (10 + ql + bl) as int) =~= bv) by {
        assert forall|j: int| 0 <= j < bl implies w.subrange(
            (10 + ql) as int,
            (10 + ql + bl) as int,
        )[j] == bv[j] by {
            assert(w[10 + ql + j] == (": "@ + bv)[2 + j]);
        }
    }
    lemma_bool_parse_back(t, q + 10 + ql, s_all[idx as int].1);
    let p = q + 10 + ql + bl;
    assert(sp_bool_value(t, q + 10 + ql) == Some((s_all[idx as int].1, p)));
    // the accumulated list grows by this entry
    let acc = s_all.subrange(0, idx as int);
    assert forall|j: int| 0 <= j < acc.len() implies (#[trigger] acc[j]).0 != key by {
        assert(acc[j] == s_all[j]);
        assert(s_all[j].0 != s_all[idx as int].0);
    }
    lemma_assoc_append(acc, 0, key, s_all[idx as int].1);
    let acc2 = assoc_set(acc, key, s_all[idx as int].1);
    assert(acc2 =~= s_all.subrange(0, (idx + 1) as int));
    if idx + 1 < s_all.len() {
        assert(rest == entry + ",\n"@ + automation_entries_from(s_all, idx + 1));
        let rest2 = automation_entries_from(s_all, idx + 1);
        assert(lw == entry.len() + 2 + rest2.len() + 8);
        lemma_char_at(t, q, w, entry.len());
        lemma_char_at(t, q, w, entry.len() + 1);
        assert(w[entry.len() as int] == ',');
        assert(w[(entry.len() + 1) as int] == '\n');
        assert(t[p as int] == ',');
        assert(t[(p + 1) as int] == '\n');
        let q2 = p + 2;
        lemma_sub_seg(t, q, w, entry.len() + 2, lw);
        assert(w.subrange((entry.len() + 2) as int, lw as int) =~= rest2 + close);
        assert(t.subrange(q2 as int, (q2 + rest2.len() + 8) as int) == rest2 + close);
        // the next entry opens with its eight spaces, then a quote
        assert forall|j: int| 0 <= j < 8 implies #[trigger] t[(p + 2) + j] == ' ' by {
            lemma_char_at(t, q, w, (entry.len() + 2 + j) as nat);
            assert(w[entry.len() + 2 + j] == rest2[j]);
            assert(rest2 == automation_entry_text(s_all[idx as int + 1]) + ",\n"@
                + automation_entries_from(s_all, idx + 2) || rest2 == automation_entry_text(
                s_all[idx as int + 1],
            ));
            assert(rest2[j] == automation_entry_text(s_all[idx as int + 1])[j]);
        }
        lemma_char_at(t, q, w, entry.len() + 10);
        assert(w[entry.len() as int + 10] == rest2[8]);
        assert(rest2 == automation_entry_text(s_all[idx as int + 1]) + ",\n"@
            + automation_entries_from(s_all, idx + 2) || rest2 == automation_entry_text(
            s_all[idx as int + 1],
        ));
        assert(rest2[8] == automation_entry_text(s_all[idx as int + 1])[8]);
        assert(quoted(s_all[idx as int + 1].0)[0] == '"');
        assert(t[(q2 + 8) as int] == '"');
        lemma_after_comma(t, p, 8);
        assert(sp_after_member(t, p) == Some((false, q2 + 8)));
        lemma_automation_entries(t, q2, s_all, idx + 1, (fuel - 1) as nat);
        assert(sp_automation_fields(t, q2 + 8, (fuel - 1) as nat, acc2) == Some(
            (s_all, q2 + rest2.len() + 8),
        ));
        assert(q2 + rest2.len() + 8 == q + lw);
    } else {
        assert(rest == entry);
        assert(lw == entry.len() + 8);
        lemma_char_at(t, q, w, entry.len());
        assert(w[entry.len() as int] == close[0]);
        assert(t[p as int] == '\n');
        assert forall|j: int| 0 <= j < 6 implies #[trigger] t[(p + 1) + j] == ' ' by {
            lemma_char_at(t, q, w, (entry.len() + 1 + j) as nat);
            assert(w[entry.len() + 1 + j] == close[1 + j]);
        }
        lemma_char_at(t, q, w, entry.len() + 7);
        assert(w[(entry.len() + 7) as int] == close[7]);
        assert(t[(p + 7) as int] == '}');
        lemma_after_close(t, p, 6);
        assert(sp_after_member(t, p) == Some((true, p + 8)));
        assert(acc2 =~= s_all);
        assert(p + 8 == q + lw);
    }
}

/// A rendered automation object with distinct keys parses back to exactly
/// its entry list, in order.
#[verifier::rlimit(100)]
pub proof fn lemma_automation_parse(t: Seq<char>, i: nat, s_all: Seq<(Seq<char>, bool)>, fuel: nat)
    requires
        fuel >= s_all.len(),
        distinct_keys(s_all),
        i + automation_text(s_all).len() <= t.len(),
        t.subrange(i as int, (i + automation_text(s_all).len()) as int) == automation_text(s_all),
    ensures
        sp_automation_value(t, i, fuel) == Some((s_all, i + automation_text(s_all).len())),
{
    reveal_strlit("{}");
    reveal_strlit("{\n");
    reveal_strlit("\n      }");
    reveal_strlit("        ");
    reveal_strlit("\"");
    reveal_strlit(": ");
    reveal_strlit("true");
    reveal_strlit("false");
    let w = automation_text(s_all);
    let lw = w.len();
    if s_all.len() == 0 {
        assert(w == "{}"@);
        lemma_char_at(t, i, w, 0);
        lemma_char_at(t, i, w, 1);
        assert(t[i as int] == '{');
        assert(t[(i + 1) as int] == '}');
        assert(!json_ws(t[(i + 1) as int]));
        lemma_ws_run(t, i + 1, 0);
        assert(sp_ws(t, i + 1) == i + 1);
        assert(s_all =~= Seq::<(Seq<char>, bool)>::empty());
        assert(sp_automation_value(t, i, fuel) == Some((s_all, i + 2)));
    } else {
        let entries = automation_entries_from(s_all, 0);
        assert(w == "{\n"@ + entries + "\n      }"@);
        assert(lw == 2 + entries.len() + 8);
        lemma_char_at(t, i, w, 0);
        lemma_char_at(t, i, w, 1);
        assert(t[i as int] == '{');
        assert(t[(i + 1) as int] == '\n');
        // the first entry opens with its eight spaces, then a quote
        let entry0 = automation_entry_text(s_all[0]);
        assert(entry0 == "        "@ + quoted(s_all[0].0) + ": "@ + bool_text(s_all[0].1));
        assert(quoted(s_all[0].0).len() >= 2);
        assert(entry0.len() >= 10);
        assert forall|j: int| 0 <= j < 8 implies json_ws(#[trigger] t[(i + 2) + j]) by {
            lemma_char_at(t, i, w, (2 + j) as nat);
            assert(w[2 + j] == entries[j]);
            assert(entries == entry0 + ",\n"@ + automation_entries_from(s_all, 1) || entries
                == entry0);
            assert(entries[j] == entry0[j]);
            assert(entry0[j] == "        "@[j]);
        }
        assert(json_ws(t[(i + 1) as int]));
        assert forall|j: int| 0 <= j < 9 implies json_ws(#[trigger] t[(i + 1) + j]) by {
            if j >= 1 {
                assert(json_ws(t[(i + 2) + (j - 1)]));
            }
        }
        lemma_char_at(t, i, w, 10);
        assert(w[10] == entries[8]);
        assert(entries == entry0 + ",\n"@ + automation_entries_from(s_all, 1) || entries
            == entry0);
        assert(entries[8] == entry0[8]);
        assert(entry0[8] == quoted(s_all[0].0)[0]);
        reveal_strlit("\"");
        assert(t[(i + 10) as int] == '"');
        lemma_ws_run(t, i + 1, 9);
        assert(sp_ws(t, i + 1) == i + 10);
        lemma_sub_seg(t, i, w, 2, lw);
        assert(w.subrange(2, lw as int) =~= entries + "\n      }"@);
        lemma_automation_entries(t, i + 2, s_all, 0, fuel);
        assert(s_all.subrange(0, 0) =~= Seq::<(Seq<char>, bool)>::empty());
        assert(sp_automation_fields(t, i + 10, fuel, Seq::empty()) == Some(
            (s_all, i + 2 + entries.len() + 8),
        ));
        assert(t[(i + 10) as int] != '}');
        assert(sp_automation_value(t, i, fuel) == Some((s_all, i + lw)));
    }
}


} // verus!
