//! The top of the write-then-read round trip: a rendered state object,
//! and finally the whole rendered document, parse back to exactly the
//! model they were rendered from.

use vstd::prelude::*;
use crate::document::lemma_data_parse;
use crate::json::{json_ws, sp_after_member, sp_bool_value, sp_key, sp_string_value, sp_uint, sp_ws};
use crate::laws::{
    lemma_after_close, lemma_after_comma, lemma_bool_parse_back, lemma_char_at, lemma_key_member,
    lemma_quoted_parse_back, lemma_sub_seg, lemma_uint_parse_back, lemma_ws_run, plain_char,
};
use crate::lifecycle::is_digit;
use crate::parse::{sp_data_value, sp_document, sp_state_fields, sp_state_value};
use crate::render::{
    automation_entries_from, automation_text, bool_text, data_text, dec_digits, permissions_text,
    quoted, state_text,
};
use crate::state::StateModel;

verus! {

/// The third and fourth members of a rendered state object:
/// `current_step` and `data`, then the closing brace.
#[verifier::rlimit(100)]
proof fn lemma_state_step(t: Seq<char>, p: nat, m: StateModel, fuel: nat)
    requires
        fuel >= 9,
        fuel >= m.data.permissions.automation.len() + 2,
        m.wf(),
        p + 34 + quoted(m.current_step).len() + data_text(m.data).len() <= t.len(),
        t.subrange(
            p as int,
            (p + 34 + quoted(m.current_step).len() + data_text(m.data).len()) as int,
        ) == ",\n  \"current_step\": "@ + quoted(m.current_step) + ",\n  \"data\": "@ + data_text(
            m.data,
        ) + "\n}"@,
    ensures
        sp_after_member(t, p) == Some((false, p + 4)),
        sp_state_fields(t, p + 4, fuel, Some(m.version), Some(m.completed), None, None) == Some(
            (m, p + 34 + quoted(m.current_step).len() + data_text(m.data).len()),
        ),
{
    reveal_strlit(",\n  \"current_step\": ");
    reveal_strlit(",\n  \"data\": ");
    reveal_strlit("\n}");
    reveal_strlit("{\n    \"permissions\": ");
    reveal_strlit("version");
    reveal_strlit("completed");
    reveal_strlit("current_step");
    reveal_strlit("data");
    reveal_strlit("\"");
    let l3 = ",\n  \"current_step\": "@;
    let l4 = ",\n  \"data\": "@;
    let l5 = "\n}"@;
    let qv = quoted(m.current_step);
    let ql = qv.len();
    let dv = data_text(m.data);
    let dl = dv.len();
    let w = l3 + qv + l4 + dv + l5;
    let lw = w.len();
    assert(l3.len() == 20 && l4.len() == 12 && l5.len() == 2);
    assert(lw == 34 + ql + dl);
    lemma_char_at(t, p, w, 0);
    lemma_char_at(t, p, w, 1);
    assert(t[p as int] == ',');
    assert(t[(p + 1) as int] == '\n');
    assert forall|j: int| 0 <= j < 2 implies #[trigger] t[(p + 2) + j] == ' ' by {
        lemma_char_at(t, p, w, (2 + j) as nat);
        assert(w[2 + j] == l3[2 + j]);
    }
    lemma_char_at(t, p, w, 4);
    assert(w[4] == l3[4]);
    assert(t[(p + 4) as int] == '"');
    lemma_after_comma(t, p, 2);
    assert(sp_after_member(t, p) == Some((false, p + 4)));
    // member: "current_step"
    let key3 = "current_step"@;
    assert(key3.len() == 12);
    lemma_sub_seg(t, p, w, 5, 17);
    assert(w.subrange(5, 17) =~= key3);
    assert forall|j: int| 0 <= j < 12 implies plain_char(#[trigger] key3[j]) by {}
    lemma_char_at(t, p, w, 17);
    lemma_char_at(t, p, w, 18);
    lemma_char_at(t, p, w, 19);
    lemma_char_at(t, p, w, 20);
    assert(t[(p + 17) as int] == '"');
    assert(t[(p + 18) as int] == ':');
    assert(t[(p + 19) as int] == ' ');
    assert(w[20] == qv[0]);
    assert(qv[0] == '"');
    assert(t[(p + 20) as int] == '"');
    assert(!json_ws(t[(p + 20) as int]));
    lemma_key_member(t, p + 4, key3);
    assert(sp_key(t, p + 4) == Some((key3, p + 20)));
    lemma_sub_seg(t, p, w, 20, 20 + ql);
    assert(w.subrange(20, (20 + ql) as int) =~= qv);
    lemma_quoted_parse_back(t, p + 20, m.current_step);
    let p2 = p + 20 + ql;
    assert(sp_string_value(t, p + 20) == Some((m.current_step, p2)));
    // member: "data"
    lemma_char_at(t, p, w, 20 + ql);
    lemma_char_at(t, p, w, 21 + ql);
    assert(w[(20 + ql) as int] == l4[0]);
    assert(w[(21 + ql) as int] == l4[1]);
    assert(t[p2 as int] == ',');
    assert(t[(p2 + 1) as int] == '\n');
    assert forall|j: int| 0 <= j < 2 implies #[trigger] t[(p2 + 2) + j] == ' ' by {
        lemma_char_at(t, p, w, (22 + ql + j) as nat);
        assert(w[22 + ql + j] == l4[2 + j]);
    }
    lemma_char_at(t, p, w, 24 + ql);
    assert(w[(24 + ql) as int] == l4[4]);
    assert(t[(p2 + 4) as int] == '"');
    lemma_after_comma(t, p2, 2);
    assert(sp_after_member(t, p2) == Some((false, p2 + 4)));
    let key4 = "data"@;
    assert(key4.len() == 4);
    lemma_sub_seg(t, p, w, 25 + ql, 29 + ql);
    assert(w.subrange((25 + ql) as int, (29 + ql) as int) =~= key4);
    assert forall|j: int| 0 <= j < 4 implies plain_char(#[trigger] key4[j]) by {}
    lemma_char_at(t, p, w, 29 + ql);
    lemma_char_at(t, p, w, 30 + ql);
    lemma_char_at(t, p, w, 31 + ql);
    lemma_char_at(t, p, w, 32 + ql);
    assert(w[(29 + ql) as int] == l4[9]);
    assert(w[(30 + ql) as int] == l4[10]);
    assert(w[(31 + ql) as int] == l4[11]);
    assert(w[(32 + ql) as int] == dv[0]);
    assert(dv[0] == '{');
    assert(t[(p2 + 9) as int] == '"');
    assert(t[(p2 + 10) as int] == ':');
    assert(t[(p2 + 11) as int] == ' ');
    assert(t[(p2 + 12) as int] == '{');
    assert(!json_ws(t[(p2 + 12) as int]));
    lemma_key_member(t, p2 + 4, key4);
    assert(sp_key(t, p2 + 4) == Some((key4, p2 + 12)));
    lemma_sub_seg(t, p, w, 32 + ql, 32 + ql + dl);
    assert(w.subrange((32 + ql) as int, (32 + ql + dl) as int) =~= dv);
    lemma_data_parse(t, p2 + 12, m.data, (fuel - 1) as nat);
    let p3 = p2 + 12 + dl;
    assert(sp_data_value(t, p2 + 12, (fuel - 1) as nat) == Some((m.data, p3)));
    // closing brace
    lemma_char_at(t, p, w, 32 + ql + dl);
    assert(w[(32 + ql + dl) as int] == l5[0]);
    assert(t[p3 as int] == '\n');
    lemma_char_at(t, p, w, 33 + ql + dl);
    assert(w[(33 + ql + dl) as int] == l5[1]);
    assert(t[(p3 + 1) as int] == '}');
    lemma_after_close(t, p3, 0);
    assert(sp_after_member(t, p3) == Some((true, p3 + 2)));
    assert(key3 != "version"@ && key3 != "completed"@);
    assert(key4 != "version"@ && key4 != "completed"@ && key4 != key3);
    assert(sp_state_fields(t, p + 4, fuel, Some(m.version), Some(m.completed), None, None)
        == sp_state_fields(
        t,
        p2 + 4,
        (fuel - 1) as nat,
        Some(m.version),
        Some(m.completed),
        Some(m.current_step),
        None,
    ));
    assert(sp_state_fields(
        t,
        p2 + 4,
        (fuel - 1) as nat,
        Some(m.version),
        Some(m.completed),
        Some(m.current_step),
        None,
    ) == Some(
        (
            StateModel {
                version: m.version,
                completed: m.completed,
                current_step: m.current_step,
                data: m.data,
            },
            p3 + 2,
        ),
    ));
    assert(StateModel {
        version: m.version,
        completed: m.completed,
        current_step: m.current_step,
        data: m.data,
    } == m);
    assert(p3 + 2 == p + lw);
}

/// The trailing members of a rendered state object, split off.
#[verifier::rlimit(100)]
proof fn lemma_state_rest_split(m: StateModel)
    ensures
        ",\n  \"completed\": "@ + bool_text(m.completed) + ",\n  \"current_step\": "@ + quoted(
            m.current_step,
        ) + ",\n  \"data\": "@ + data_text(m.data) + "\n}"@ == ",\n  \"completed\": "@ + bool_text(
            m.completed,
        ) + (",\n  \"current_step\": "@ + quoted(m.current_step) + ",\n  \"data\": "@ + data_text(
            m.data,
        ) + "\n}"@),
        (",\n  \"current_step\": "@ + quoted(m.current_step) + ",\n  \"data\": "@ + data_text(
            m.data,
        ) + "\n}"@).len() == 34 + quoted(m.current_step).len() + data_text(m.data).len(),
{
    reveal_strlit(",\n  \"current_step\": ");
    reveal_strlit(",\n  \"data\": ");
    reveal_strlit("\n}");
    assert(",\n  \"completed\": "@ + bool_text(m.completed) + ",\n  \"current_step\": "@ + quoted(
        m.current_step,
    ) + ",\n  \"data\": "@ + data_text(m.data) + "\n}"@ =~= ",\n  \"completed\": "@ + bool_text(
        m.completed,
    ) + (",\n  \"current_step\": "@ + quoted(m.current_step) + ",\n  \"data\": "@ + data_text(
        m.data,
    ) + "\n}"@));
}

/// The second member of a rendered state object: `completed`, then the
/// rest.
#[verifier::rlimit(100)]
proof fn lemma_state_completed(t: Seq<char>, p: nat, m: StateModel, fuel: nat)
    requires
        fuel >= 10,
        fuel >= m.data.permissions.automation.len() + 3,
        m.wf(),
        p + 51 + bool_text(m.completed).len() + quoted(m.current_step).len() + data_text(
            m.data,
        ).len() <= t.len(),
        t.subrange(
            p as int,
            (p + 51 + bool_text(m.completed).len() + quoted(m.current_step).len() + data_text(
                m.data,
            ).len()) as int,
        ) == ",\n  \"completed\": "@ + bool_text(m.completed) + ",\n  \"current_step\": "@
            + quoted(m.current_step) + ",\n  \"data\": "@ + data_text(m.data) + "\n}"@,
    ensures
        sp_after_member(t, p) == Some((false, p + 4)),
        sp_state_fields(t, p + 4, fuel, Some(m.version), None, None, None) == Some(
            (
                m,
                p + 51 + bool_text(m.completed).len() + quoted(m.current_step).len() + data_text(
                    m.data,
                ).len(),
            ),
        ),
{
    reveal_strlit(",\n  \"completed\": ");
    reveal_strlit("version");
    reveal_strlit("completed");
    reveal_strlit("true");
    reveal_strlit("false");
    let l2 = ",\n  \"completed\": "@;
    let bv = bool_text(m.completed);
    let bl = bv.len();
    let rest = ",\n  \"current_step\": "@ + quoted(m.current_step) + ",\n  \"data\": "@
        + data_text(m.data) + "\n}"@;
    let w = l2 + bv + rest;
    let lw = w.len();
    assert(l2.len() == 17);
    lemma_state_rest_split(m);
    assert(rest.len() == 34 + quoted(m.current_step).len() + data_text(m.data).len());
    assert(lw == 17 + bl + rest.len());
    assert(t.subrange(p as int, (p + lw) as int) == w);
    lemma_char_at(t, p, w, 0);
    lemma_char_at(t, p, w, 1);
    assert(t[p as int] == ',');
    assert(t[(p + 1) as int] == '\n');
    assert forall|j: int| 0 <= j < 2 implies #[trigger] t[(p + 2) + j] == ' ' by {
        lemma_char_at(t, p, w, (2 + j) as nat);
        assert(w[2 + j] == l2[2 + j]);
    }
    lemma_char_at(t, p, w, 4);
    assert(w[4] == l2[4]);
    assert(t[(p + 4) as int] == '"');
    lemma_after_comma(t, p, 2);
    assert(sp_after_member(t, p) == Some((false, p + 4)));
    let key = "completed"@;
    assert(key.len() == 9);
    lemma_sub_seg(t, p, w, 5, 14);
    assert(w.subrange(5, 14) =~= key);
    assert forall|j: int| 0 <= j < 9 implies plain_char(#[trigger] key[j]) by {}
    lemma_char_at(t, p, w, 14);
    lemma_char_at(t, p, w, 15);
    lemma_char_at(t, p, w, 16);
    lemma_char_at(t, p, w, 17);
    assert(t[(p + 14) as int] == '"');
    assert(t[(p + 15) as int] == ':');
    assert(t[(p + 16) as int] == ' ');
    assert(w[17] == bv[0]);
    assert(t[(p + 17) as int] == bv[0]);
    assert(!json_ws(bv[0]));
    lemma_key_member(t, p + 4, key);
    assert(sp_key(t, p + 4) == Some((key, p + 17)));
    lemma_sub_seg(t, p, w, 17, 17 + bl);
    assert(w.subrange(17, (17 + bl) as int) =~= bv);
    lemma_bool_parse_back(t, p + 17, m.completed);
    let p2 = p + 17 + bl;
    assert(sp_bool_value(t, p + 17) == Some((m.completed, p2)));
    lemma_sub_seg(t, p, w, 17 + bl, lw);
    assert(w.subrange((17 + bl) as int, lw as int) =~= rest);
    lemma_state_step(t, p2, m, (fuel - 1) as nat);
    assert(sp_after_member(t, p2) == Some((false, p2 + 4)));
    assert(key != "version"@);
    assert(sp_state_fields(t, p + 4, fuel, Some(m.version), None, None, None)
        == sp_state_fields(
        t,
        p2 + 4,
        (fuel - 1) as nat,
        Some(m.version),
        Some(m.completed),
        None,
        None,
    ));
}

/// The rendered state object, split after its first member.
#[verifier::rlimit(100)]
proof fn lemma_state_text_split(m: StateModel)
    ensures
        state_text(m) == "{\n  \"version\": "@ + dec_digits(m.version as nat) + (
        ",\n  \"completed\": "@ + bool_text(m.completed) + ",\n  \"current_step\": "@ + quoted(
            m.current_step,
        ) + ",\n  \"data\": "@ + data_text(m.data) + "\n}"@),
        (",\n  \"completed\": "@ + bool_text(m.completed) + ",\n  \"current_step\": "@ + quoted(
            m.current_step,
        ) + ",\n  \"data\": "@ + data_text(m.data) + "\n}"@).len() == 51 + bool_text(
            m.completed,
        ).len() + quoted(m.current_step).len() + data_text(m.data).len(),
{
    reveal_strlit(",\n  \"completed\": ");
    reveal_strlit(",\n  \"current_step\": ");
    reveal_strlit(",\n  \"data\": ");
    reveal_strlit("\n}");
    assert(state_text(m) =~= "{\n  \"version\": "@ + dec_digits(m.version as nat) + (
    ",\n  \"completed\": "@ + bool_text(m.completed) + ",\n  \"current_step\": "@ + quoted(
        m.current_step,
    ) + ",\n  \"data\": "@ + data_text(m.data) + "\n}"@));
}

/// A rendered state object with distinct automation keys parses back to
/// exactly its model.
#[verifier::rlimit(100)]
pub proof fn lemma_state_parse(t: Seq<char>, i: nat, m: StateModel, fuel: nat)
    requires
        fuel >= 11,
        fuel >= m.data.permissions.automation.len() + 4,
        m.wf(),
        i + state_text(m).len() <= t.len(),
        t.subrange(i as int, (i + state_text(m).len()) as int) == state_text(m),
    ensures
        sp_state_value(t, i, fuel) == Some((m, i + state_text(m).len())),
{
    reveal_strlit("{\n  \"version\": ");
    reveal_strlit("version");
    let w = state_text(m);
    let l1 = "{\n  \"version\": "@;
    let nv = dec_digits(m.version as nat);
    let nl = nv.len();
    let rest = ",\n  \"completed\": "@ + bool_text(m.completed) + ",\n  \"current_step\": "@
        + quoted(m.current_step) + ",\n  \"data\": "@ + data_text(m.data) + "\n}"@;
    assert(l1.len() == 15);
    lemma_state_text_split(m);
    assert(rest.len() == 51 + bool_text(m.completed).len() + quoted(m.current_step).len()
        + data_text(m.data).len());
    let lw = w.len();
    let w2 = l1 + nv + rest;
    assert(w == w2);
    assert(t.subrange(i as int, (i + lw) as int) == w2);
    assert(lw == 15 + nl + rest.len());
    lemma_char_at(t, i, w2, 0);
    assert(t[i as int] == '{');
    assert forall|j: int| 0 <= j < 3 implies json_ws(#[trigger] t[(i + 1) + j]) by {
        lemma_char_at(t, i, w2, (1 + j) as nat);
        assert(w2[1 + j] == l1[1 + j]);
    }
    lemma_char_at(t, i, w2, 4);
    assert(t[(i + 4) as int] == '"');
    lemma_ws_run(t, i + 1, 3);
    assert(sp_ws(t, i + 1) == i + 4);
    let key1 = "version"@;
    assert(key1.len() == 7);
    lemma_sub_seg(t, i, w2, 5, 12);
    assert(w2.subrange(5, 12) =~= key1);
    assert forall|j: int| 0 <= j < 7 implies plain_char(#[trigger] key1[j]) by {}
    lemma_char_at(t, i, w2, 12);
    lemma_char_at(t, i, w2, 13);
    lemma_char_at(t, i, w2, 14);
    lemma_char_at(t, i, w2, 15);
    assert(t[(i + 12) as int] == '"');
    assert(t[(i + 13) as int] == ':');
    assert(t[(i + 14) as int] == ' ');
    assert(w2[15] == nv[0]);
    assert(is_digit(nv[0])) by {
        crate::laws::lemma_digits_are_digits(m.version as nat);
    }
    assert(t[(i + 15) as int] == nv[0]);
    assert(!json_ws(t[(i + 15) as int]));
    lemma_key_member(t, i + 4, key1);
    assert(sp_key(t, i + 4) == Some((key1, i + 15)));
    lemma_sub_seg(t, i, w2, 15, 15 + nl);
    assert(w2.subrange(15, (15 + nl) as int) =~= nv);
    let p = i + 15 + nl;
    assert(t[p as int] == ',') by {
        lemma_char_at(t, i, w2, 15 + nl);
        assert(w2[(15 + nl) as int] == rest[0]);
        reveal_strlit(",\n  \"completed\": ");
    }
    assert(!is_digit(t[p as int]));
    lemma_uint_parse_back(t, i + 15, m.version);
    assert(sp_uint(t, i + 15) == Some((m.version, p)));
    lemma_sub_seg(t, i, w2, 15 + nl, lw);
    assert(w2.subrange((15 + nl) as int, lw as int) =~= rest);
    lemma_state_completed(t, p, m, (fuel - 1) as nat);
    assert(sp_after_member(t, p) == Some((false, p + 4)));
    assert(sp_state_fields(t, i + 4, fuel, None, None, None, None) == sp_state_fields(
        t,
        p + 4,
        (fuel - 1) as nat,
        Some(m.version),
        None,
        None,
        None,
    ));
    assert(t[(i + 4) as int] != '}');
    assert(sp_state_value(t, i, fuel) == Some((m, i + lw)));
}

proof fn lemma_entries_len(s: Seq<(Seq<char>, bool)>, idx: nat)
    requires
        idx <= s.len(),
    ensures
        automation_entries_from(s, idx).len() >= s.len() - idx,
    decreases s.len() - idx,
{
    reveal_strlit("        ");
    if idx < s.len() {
        if idx + 1 < s.len() {
            lemma_entries_len(s, idx + 1);
        }
    }
}

/// The rendered document is long enough to fuel its own parse.
#[verifier::rlimit(100)]
proof fn lemma_state_text_len(m: StateModel)
    ensures
        state_text(m).len() >= 11,
        state_text(m).len() >= m.data.permissions.automation.len() + 4,
{
    reveal_strlit("{\n  \"version\": ");
    reveal_strlit(",\n  \"completed\": ");
    reveal_strlit(",\n  \"current_step\": ");
    reveal_strlit(",\n  \"data\": ");
    reveal_strlit("\n}");
    reveal_strlit("{\n    \"permissions\": ");
    reveal_strlit(",\n    \"api_key\": ");
    reveal_strlit(",\n    \"telegram\": ");
    reveal_strlit(",\n    \"dev_tools\": ");
    reveal_strlit("\n  }");
    reveal_strlit("{\n      \"accessibility\": ");
    reveal_strlit(",\n      \"automation\": ");
    reveal_strlit("\n    }");
    reveal_strlit("{}");
    reveal_strlit("{\n");
    reveal_strlit("\n      }");
    let n_e = m.data.permissions.automation.len();
    assert(automation_text(m.data.permissions.automation).len() >= n_e) by {
        if n_e > 0 {
            lemma_entries_len(m.data.permissions.automation, 0);
        }
    }
    assert(permissions_text(m.data.permissions).len() >= 53 + n_e);
    assert(data_text(m.data).len() >= 79 + 53 + n_e);
    assert(state_text(m).len() >= 66 + 132 + n_e);
}

/// The write-then-read round trip: a well-formed document, rendered to its
/// pretty text, parses back to exactly itself.
pub proof fn lemma_state_round_trip(m: StateModel)
    requires
        m.wf(),
    ensures
        sp_document(state_text(m)) == Some(m),
{
    reveal_strlit("{\n  \"version\": ");
    let t = state_text(m);
    lemma_state_text_len(m);
    lemma_state_text_split(m);
    assert(t[0] == '{') by {
        assert(t == "{\n  \"version\": "@ + dec_digits(m.version as nat) + (",\n  \"completed\": "@
            + bool_text(m.completed) + ",\n  \"current_step\": "@ + quoted(m.current_step)
            + ",\n  \"data\": "@ + data_text(m.data) + "\n}"@));
    }
    assert(!json_ws(t[0]));
    lemma_ws_run(t, 0, 0);
    assert(sp_ws(t, 0) == 0);
    assert(t.subrange(0, t.len() as int) =~= t);
    lemma_state_parse(t, 0, m, t.len());
    assert(sp_state_value(t, 0, t.len()) == Some((m, t.len())));
    lemma_ws_run(t, t.len(), 0);
    assert(sp_ws(t, t.len()) == t.len());
    assert(sp_document(t) == Some(m));
}


} // verus!
