//! Assembly of the write-then-read round trip, upper layer: a rendered
//! data object parses back to exactly the model it was rendered from.

use vstd::prelude::*;
use crate::assemble::{lemma_dev_tools_parse, lemma_permissions_parse};
use crate::json::{json_ws, sp_after_member, sp_bool_value, sp_key, sp_string_value, sp_uint, sp_ws};
use crate::laws::{
    lemma_after_close, lemma_after_comma, lemma_api_key_parse, lemma_bool_parse_back,
    lemma_char_at, lemma_key_member, lemma_npx_parse, lemma_quoted_parse_back, lemma_sub_seg,
    lemma_telegram_parse, lemma_uint_parse_back, lemma_ws_run, plain_char,
};
use crate::lifecycle::is_digit;
use crate::parse::{
    sp_api_key_value, sp_data_fields, sp_data_value, sp_document, sp_state_fields, sp_state_value,
};
use crate::render::{
    api_key_text, automation_entries_from, automation_text, bool_text, data_text, dec_digits,
    dev_tools_text, npx_text, permissions_text, quoted, state_text, telegram_text, tool_text,
};
use crate::state::{DataModel, StateModel};

verus! {

/// The last member of a rendered data object: `dev_tools`, then the
/// closing brace.
#[verifier::rlimit(100)]
proof fn lemma_data_devtools(t: Seq<char>, p: nat, d: DataModel, fuel: nat)
    requires
        fuel >= 5,
        p + 23 + dev_tools_text(d.dev_tools).len() <= t.len(),
        t.subrange(p as int, (p + 23 + dev_tools_text(d.dev_tools).len()) as int)
            == ",\n    \"dev_tools\": "@ + dev_tools_text(d.dev_tools) + "\n  }"@,
    ensures
        sp_after_member(t, p) == Some((false, p + 6)),
        sp_data_fields(
            t,
            p + 6,
            fuel,
            Some(d.permissions),
            Some(d.api_key),
            Some(d.telegram),
            None,
        ) == Some((d, p + 23 + dev_tools_text(d.dev_tools).len())),
{
    reveal_strlit(",\n    \"dev_tools\": ");
    reveal_strlit("\n  }");
    reveal_strlit("{\n      \"homebrew\": ");
    reveal_strlit("permissions");
    reveal_strlit("api_key");
    reveal_strlit("telegram");
    reveal_strlit("dev_tools");
    let l4 = ",\n    \"dev_tools\": "@;
    let l5 = "\n  }"@;
    let dv = dev_tools_text(d.dev_tools);
    let dl = dv.len();
    let w = l4 + dv + l5;
    let lw = w.len();
    assert(l4.len() == 19 && l5.len() == 4);
    assert(lw == 23 + dl);
    lemma_char_at(t, p, w, 0);
    lemma_char_at(t, p, w, 1);
    assert(t[p as int] == ',');
    assert(t[(p + 1) as int] == '\n');
    assert forall|j: int| 0 <= j < 4 implies #[trigger] t[(p + 2) + j] == ' ' by {
        lemma_char_at(t, p, w, (2 + j) as nat);
        assert(w[2 + j] == l4[2 + j]);
    }
    lemma_char_at(t, p, w, 6);
    assert(w[6] == l4[6]);
    assert(t[(p + 6) as int] == '"');
    lemma_after_comma(t, p, 4);
    assert(sp_after_member(t, p) == Some((false, p + 6)));
    let key = "dev_tools"@;
    assert(key.len() == 9);
    lemma_sub_seg(t, p, w, 7, 16);
    assert(w.subrange(7, 16) =~= key);
    assert forall|j: int| 0 <= j < 9 implies plain_char(#[trigger] key[j]) by {}
    lemma_char_at(t, p, w, 16);
    lemma_char_at(t, p, w, 17);
    lemma_char_at(t, p, w, 18);
    lemma_char_at(t, p, w, 19);
    assert(t[(p + 16) as int] == '"');
    assert(t[(p + 17) as int] == ':');
    assert(t[(p + 18) as int] == ' ');
    assert(w[19] == dv[0]);
    assert(dv[0] == '{');
    assert(t[(p + 19) as int] == '{');
    assert(!json_ws(t[(p + 19) as int]));
    lemma_key_member(t, p + 6, key);
    assert(sp_key(t, p + 6) == Some((key, p + 19)));
    lemma_sub_seg(t, p, w, 19, 19 + dl);
    assert(w.subrange(19, (19 + dl) as int) =~= dv);
    lemma_dev_tools_parse(t, p + 19, d.dev_tools, fuel);
    let p2 = p + 19 + dl;
    assert(t[p2 as int] == '\n') by {
        lemma_char_at(t, p, w, 19 + dl);
        assert(w[(19 + dl) as int] == l5[0]);
    }
    assert forall|j: int| 0 <= j < 2 implies #[trigger] t[(p2 + 1) + j] == ' ' by {
        lemma_char_at(t, p, w, (20 + dl + j) as nat);
        assert(w[20 + dl + j] == l5[1 + j]);
    }
    lemma_char_at(t, p, w, 22 + dl);
    assert(w[(22 + dl) as int] == l5[3]);
    assert(t[(p2 + 3) as int] == '}');
    lemma_after_close(t, p2, 2);
    assert(sp_after_member(t, p2) == Some((true, p2 + 4)));
    assert(key != "permissions"@ && key != "api_key"@ && key != "telegram"@);
    assert(sp_data_fields(
        t,
        p + 6,
        fuel,
        Some(d.permissions),
        Some(d.api_key),
        Some(d.telegram),
        None,
    ) == Some(
        (
            DataModel {
                permissions: d.permissions,
                api_key: d.api_key,
                telegram: d.telegram,
                dev_tools: d.dev_tools,
            },
            p2 + 4,
        ),
    ));
    assert(DataModel {
        permissions: d.permissions,
        api_key: d.api_key,
        telegram: d.telegram,
        dev_tools: d.dev_tools,
    } == d);
    assert(p2 + 4 == p + lw);
}

/// The third member of a rendered data object: `telegram`, then the rest.
#[verifier::rlimit(100)]
proof fn lemma_data_telegram(t: Seq<char>, p: nat, d: DataModel, fuel: nat)
    requires
        fuel >= 6,
        p + 41 + telegram_text(d.telegram).len() + dev_tools_text(d.dev_tools).len() <= t.len(),
        t.subrange(
            p as int,
            (p + 41 + telegram_text(d.telegram).len() + dev_tools_text(d.dev_tools).len()) as int,
        ) == ",\n    \"telegram\": "@ + telegram_text(d.telegram) + ",\n    \"dev_tools\": "@
            + dev_tools_text(d.dev_tools) + "\n  }"@,
    ensures
        sp_after_member(t, p) == Some((false, p + 6)),
        sp_data_fields(t, p + 6, fuel, Some(d.permissions), Some(d.api_key), None, None) == Some(
            (d, p + 41 + telegram_text(d.telegram).len() + dev_tools_text(d.dev_tools).len()),
        ),
{
    reveal_strlit(",\n    \"telegram\": ");
    reveal_strlit("{\n      \"configured\": ");
    reveal_strlit("permissions");
    reveal_strlit("api_key");
    reveal_strlit("telegram");
    let l3 = ",\n    \"telegram\": "@;
    let tv = telegram_text(d.telegram);
    let tl = tv.len();
    let rest = ",\n    \"dev_tools\": "@ + dev_tools_text(d.dev_tools) + "\n  }"@;
    let w = l3 + tv + rest;
    let lw = w.len();
    assert(l3.len() == 18);
    assert(rest.len() == 23 + dev_tools_text(d.dev_tools).len()) by {
        reveal_strlit(",\n    \"dev_tools\": ");
        reveal_strlit("\n  }");
    }
    assert(lw == 18 + tl + rest.len());
    assert(w =~= l3 + tv + ",\n    \"dev_tools\": "@ + dev_tools_text(d.dev_tools) + "\n  }"@);
    assert(t.subrange(p as int, (p + lw) as int) == w);
    lemma_char_at(t, p, w, 0);
    lemma_char_at(t, p, w, 1);
    assert(t[p as int] == ',');
    assert(t[(p + 1) as int] == '\n');
    assert forall|j: int| 0 <= j < 4 implies #[trigger] t[(p + 2) + j] == ' ' by {
        lemma_char_at(t, p, w, (2 + j) as nat);
        assert(w[2 + j] == l3[2 + j]);
    }
    lemma_char_at(t, p, w, 6);
    assert(w[6] == l3[6]);
    assert(t[(p + 6) as int] == '"');
    lemma_after_comma(t, p, 4);
    assert(sp_after_member(t, p) == Some((false, p + 6)));
    let key = "telegram"@;
    assert(key.len() == 8);
    lemma_sub_seg(t, p, w, 7, 15);
    assert(w.subrange(7, 15) =~= key);
    assert forall|j: int| 0 <= j < 8 implies plain_char(#[trigger] key[j]) by {}
    lemma_char_at(t, p, w, 15);
    lemma_char_at(t, p, w, 16);
    lemma_char_at(t, p, w, 17);
    lemma_char_at(t, p, w, 18);
    assert(t[(p + 15) as int] == '"');
    assert(t[(p + 16) as int] == ':');
    assert(t[(p + 17) as int] == ' ');
    assert(w[18] == tv[0]);
    assert(tv[0] == '{');
    assert(t[(p + 18) as int] == '{');
    assert(!json_ws(t[(p + 18) as int]));
    lemma_key_member(t, p + 6, key);
    assert(sp_key(t, p + 6) == Some((key, p + 18)));
    lemma_sub_seg(t, p, w, 18, 18 + tl);
    assert(w.subrange(18, (18 + tl) as int) =~= tv);
    lemma_telegram_parse(t, p + 18, d.telegram, fuel);
    let p2 = p + 18 + tl;
    assert(crate::parse::sp_telegram_value(t, p + 18, fuel) == Some((d.telegram, p2)));
    lemma_sub_seg(t, p, w, 18 + tl, lw);
    assert(w.subrange((18 + tl) as int, lw as int) =~= rest);
    lemma_data_devtools(t, p2, d, (fuel - 1) as nat);
    assert(sp_after_member(t, p2) == Some((false, p2 + 6)));
    assert(key != "permissions"@ && key != "api_key"@);
    assert(sp_data_fields(t, p + 6, fuel, Some(d.permissions), Some(d.api_key), None, None)
        == sp_data_fields(
        t,
        p2 + 6,
        (fuel - 1) as nat,
        Some(d.permissions),
        Some(d.api_key),
        Some(d.telegram),
        None,
    ));
}

/// The second member of a rendered data object: `api_key`, then the rest.
#[verifier::rlimit(100)]
proof fn lemma_data_apikey(t: Seq<char>, p: nat, d: DataModel, fuel: nat)
    requires
        fuel >= 7,
        p + 58 + api_key_text(d.api_key).len() + telegram_text(d.telegram).len() + dev_tools_text(
            d.dev_tools,
        ).len() <= t.len(),
        t.subrange(
            p as int,
            (p + 58 + api_key_text(d.api_key).len() + telegram_text(d.telegram).len()
                + dev_tools_text(d.dev_tools).len()) as int,
        ) == ",\n    \"api_key\": "@ + api_key_text(d.api_key) + ",\n    \"telegram\": "@
            + telegram_text(d.telegram) + ",\n    \"dev_tools\": "@ + dev_tools_text(d.dev_tools)
            + "\n  }"@,
    ensures
        sp_after_member(t, p) == Some((false, p + 6)),
        sp_data_fields(t, p + 6, fuel, Some(d.permissions), None, None, None) == Some(
            (
                d,
                p + 58 + api_key_text(d.api_key).len() + telegram_text(d.telegram).len()
                    + dev_tools_text(d.dev_tools).len(),
            ),
        ),
{
    reveal_strlit(",\n    \"api_key\": ");
    reveal_strlit("{\n      \"provider\": ");
    reveal_strlit("permissions");
    reveal_strlit("api_key");
    let l2 = ",\n    \"api_key\": "@;
    let av = api_key_text(d.api_key);
    let al = av.len();
    let rest = ",\n    \"telegram\": "@ + telegram_text(d.telegram) + ",\n    \"dev_tools\": "@
        + dev_tools_text(d.dev_tools) + "\n  }"@;
    let w = l2 + av + rest;
    let lw = w.len();
    assert(l2.len() == 17);
    assert(rest.len() == 41 + telegram_text(d.telegram).len() + dev_tools_text(
        d.dev_tools,
    ).len()) by {
        reveal_strlit(",\n    \"telegram\": ");
        reveal_strlit(",\n    \"dev_tools\": ");
        reveal_strlit("\n  }");
    }
    assert(lw == 17 + al + rest.len());
    assert(w =~= l2 + av + ",\n    \"telegram\": "@ + telegram_text(d.telegram)
        + ",\n    \"dev_tools\": "@ + dev_tools_text(d.dev_tools) + "\n  }"@);
    assert(t.subrange(p as int, (p + lw) as int) == w);
    lemma_char_at(t, p, w, 0);
    lemma_char_at(t, p, w, 1);
    assert(t[p as int] == ',');
    assert(t[(p + 1) as int] == '\n');
    assert forall|j: int| 0 <= j < 4 implies #[trigger] t[(p + 2) + j] == ' ' by {
        lemma_char_at(t, p, w, (2 + j) as nat);
        assert(w[2 + j] == l2[2 + j]);
    }
    lemma_char_at(t, p, w, 6);
    assert(w[6] == l2[6]);
    assert(t[(p + 6) as int] == '"');
    lemma_after_comma(t, p, 4);
    assert(sp_after_member(t, p) == Some((false, p + 6)));
    let key = "api_key"@;
    assert(key.len() == 7);
    lemma_sub_seg(t, p, w, 7, 14);
    assert(w.subrange(7, 14) =~= key);
    assert forall|j: int| 0 <= j < 7 implies plain_char(#[trigger] key[j]) by {}
    lemma_char_at(t, p, w, 14);
    lemma_char_at(t, p, w, 15);
    lemma_char_at(t, p, w, 16);
    lemma_char_at(t, p, w, 17);
    assert(t[(p + 14) as int] == '"');
    assert(t[(p + 15) as int] == ':');
    assert(t[(p + 16) as int] == ' ');
    assert(w[17] == av[0]);
    assert(av[0] == '{');
    assert(t[(p + 17) as int] == '{');
    assert(!json_ws(t[(p + 17) as int]));
    lemma_key_member(t, p + 6, key);
    assert(sp_key(t, p + 6) == Some((key, p + 17)));
    lemma_sub_seg(t, p, w, 17, 17 + al);
    assert(w.subrange(17, (17 + al) as int) =~= av);
    lemma_api_key_parse(t, p + 17, d.api_key, fuel);
    let p2 = p + 17 + al;
    assert(sp_api_key_value(t, p + 17, fuel) == Some((d.api_key, p2)));
    lemma_sub_seg(t, p, w, 17 + al, lw);
    assert(w.subrange((17 + al) as int, lw as int) =~= rest);
    lemma_data_telegram(t, p2, d, (fuel - 1) as nat);
    assert(sp_after_member(t, p2) == Some((false, p2 + 6)));
    assert(key != "permissions"@);
    assert(sp_data_fields(t, p + 6, fuel, Some(d.permissions), None, None, None)
        == sp_data_fields(
        t,
        p2 + 6,
        (fuel - 1) as nat,
        Some(d.permissions),
        Some(d.api_key),
        None,
        None,
    ));
}

/// The rendered data object, split after its first member.
#[verifier::rlimit(100)]
proof fn lemma_data_text_split(d: DataModel)
    ensures
        data_text(d) == "{\n    \"permissions\": "@ + permissions_text(d.permissions) + (
        ",\n    \"api_key\": "@ + api_key_text(d.api_key) + ",\n    \"telegram\": "@
            + telegram_text(d.telegram) + ",\n    \"dev_tools\": "@ + dev_tools_text(d.dev_tools)
            + "\n  }"@),
        (",\n    \"api_key\": "@ + api_key_text(d.api_key) + ",\n    \"telegram\": "@
            + telegram_text(d.telegram) + ",\n    \"dev_tools\": "@ + dev_tools_text(d.dev_tools)
            + "\n  }"@).len() == 58 + api_key_text(d.api_key).len() + telegram_text(
            d.telegram,
        ).len() + dev_tools_text(d.dev_tools).len(),
{
    reveal_strlit(",\n    \"api_key\": ");
    reveal_strlit(",\n    \"telegram\": ");
    reveal_strlit(",\n    \"dev_tools\": ");
    reveal_strlit("\n  }");
    assert(data_text(d) =~= "{\n    \"permissions\": "@ + permissions_text(d.permissions) + (
    ",\n    \"api_key\": "@ + api_key_text(d.api_key) + ",\n    \"telegram\": "@ + telegram_text(
        d.telegram,
    ) + ",\n    \"dev_tools\": "@ + dev_tools_text(d.dev_tools) + "\n  }"@));
}

/// The opening of a rendered data object: brace, whitespace, the
/// `permissions` member, and the stretch holding the rest.
#[verifier::rlimit(100)]
proof fn lemma_data_head(t: Seq<char>, i: nat, d: DataModel, fuel: nat)
    requires
        fuel >= 2,
        fuel >= d.permissions.automation.len() + 1,
        d.permissions.wf(),
        i + data_text(d).len() <= t.len(),
        t.subrange(i as int, (i + data_text(d).len()) as int) == data_text(d),
    ensures
        t[i as int] == '{',
        sp_ws(t, i + 1) == i + 6,
        i + 6 < t.len() && t[(i + 6) as int] == '"',
        sp_key(t, i + 6) == Some(("permissions"@, i + 21)),
        crate::parse::sp_permissions_value(t, i + 21, fuel) == Some(
            (d.permissions, i + 21 + permissions_text(d.permissions).len()),
        ),
        t.subrange(
            (i + 21 + permissions_text(d.permissions).len()) as int,
            (i + data_text(d).len()) as int,
        ) == ",\n    \"api_key\": "@ + api_key_text(d.api_key) + ",\n    \"telegram\": "@
            + telegram_text(d.telegram) + ",\n    \"dev_tools\": "@ + dev_tools_text(d.dev_tools)
            + "\n  }"@,
        data_text(d).len() == 21 + permissions_text(d.permissions).len() + 58 + api_key_text(
            d.api_key,
        ).len() + telegram_text(d.telegram).len() + dev_tools_text(d.dev_tools).len(),
{
    reveal_strlit("{\n    \"permissions\": ");
    reveal_strlit("{\n      \"accessibility\": ");
    reveal_strlit("permissions");
    let w = data_text(d);
    let l1 = "{\n    \"permissions\": "@;
    let pv = permissions_text(d.permissions);
    let pl = pv.len();
    let rest = ",\n    \"api_key\": "@ + api_key_text(d.api_key) + ",\n    \"telegram\": "@
        + telegram_text(d.telegram) + ",\n    \"dev_tools\": "@ + dev_tools_text(d.dev_tools)
        + "\n  }"@;
    assert(l1.len() == 21);
    lemma_data_text_split(d);
    assert(rest.len() == 58 + api_key_text(d.api_key).len() + telegram_text(d.telegram).len()
        + dev_tools_text(d.dev_tools).len());
    let lw = w.len();
    let w2 = l1 + pv + rest;
    assert(w == w2);
    assert(t.subrange(i as int, (i + lw) as int) == w2);
    assert(lw == 21 + pl + rest.len());
    lemma_char_at(t, i, w2, 0);
    assert(t[i as int] == '{');
    assert forall|j: int| 0 <= j < 5 implies json_ws(#[trigger] t[(i + 1) + j]) by {
        lemma_char_at(t, i, w2, (1 + j) as nat);
        assert(w2[1 + j] == l1[1 + j]);
    }
    lemma_char_at(t, i, w2, 6);
    assert(t[(i + 6) as int] == '"');
    lemma_ws_run(t, i + 1, 5);
    assert(sp_ws(t, i + 1) == i + 6);
    let key1 = "permissions"@;
    assert(key1.len() == 11);
    lemma_sub_seg(t, i, w2, 7, 18);
    assert(w2.subrange(7, 18) =~= key1);
    assert forall|j: int| 0 <= j < 11 implies plain_char(#[trigger] key1[j]) by {}
    lemma_char_at(t, i, w2, 18);
    lemma_char_at(t, i, w2, 19);
    lemma_char_at(t, i, w2, 20);
    lemma_char_at(t, i, w2, 21);
    assert(t[(i + 18) as int] == '"');
    assert(t[(i + 19) as int] == ':');
    assert(t[(i + 20) as int] == ' ');
    assert(w2[21] == pv[0]);
    assert(pv[0] == '{');
    assert(t[(i + 21) as int] == '{');
    assert(!json_ws(t[(i + 21) as int]));
    lemma_key_member(t, i + 6, key1);
    assert(sp_key(t, i + 6) == Some((key1, i + 21)));
    lemma_sub_seg(t, i, w2, 21, 21 + pl);
    assert(w2.subrange(21, (21 + pl) as int) =~= pv);
    lemma_permissions_parse(t, i + 21, d.permissions, fuel);
    lemma_sub_seg(t, i, w2, 21 + pl, lw);
    assert(w2.subrange((21 + pl) as int, lw as int) =~= rest);
}

/// A rendered data object with distinct automation keys parses back to
/// exactly its model.
#[verifier::rlimit(100)]
pub proof fn lemma_data_parse(t: Seq<char>, i: nat, d: DataModel, fuel: nat)
    requires
        fuel >= 8,
        fuel >= d.permissions.automation.len() + 1,
        d.permissions.wf(),
        i + data_text(d).len() <= t.len(),
        t.subrange(i as int, (i + data_text(d).len()) as int) == data_text(d),
    ensures
        sp_data_value(t, i, fuel) == Some((d, i + data_text(d).len())),
{
    reveal_strlit("permissions");
    lemma_data_head(t, i, d, fuel);
    let p = i + 21 + permissions_text(d.permissions).len();
    lemma_data_apikey(t, p, d, (fuel - 1) as nat);
    assert(sp_after_member(t, p) == Some((false, p + 6)));
    assert(sp_data_fields(t, i + 6, fuel, None, None, None, None) == sp_data_fields(
        t,
        p + 6,
        (fuel - 1) as nat,
        Some(d.permissions),
        None,
        None,
        None,
    ));
    assert(t[(i + 6) as int] != '}');
    assert(sp_data_value(t, i, fuel) == Some((d, i + data_text(d).len())));
}

} // verus!
