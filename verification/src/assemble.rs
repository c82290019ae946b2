//! Assembly of the write-then-read round trip, middle layer: a rendered
//! permissions object and a rendered developer-tools object each parse
//! back to exactly the model they were rendered from.

use vstd::prelude::*;
use crate::json::{json_ws, sp_after_member, sp_bool_value, sp_key, sp_string_value, sp_ws};
use crate::laws::{
    lemma_after_close, lemma_after_comma, lemma_bool_parse_back, lemma_char_at, lemma_key_member,
    lemma_npx_parse, lemma_sub_seg, lemma_tool_parse, lemma_ws_run, plain_char,
};
use crate::parse::{
    sp_automation_value, sp_dev_tools_fields, sp_dev_tools_value, sp_npx_value,
    sp_permissions_fields, sp_permissions_value, sp_tool_value,
};
use crate::render::{
    automation_text, bool_text, dev_tools_text, npx_text, permissions_text, tool_text,
};
use crate::roundtrip::lemma_automation_parse;
use crate::state::{distinct_keys, DevToolInfoModel, DevToolsModel, NpxModel, PermissionsModel};

verus! {

/// A rendered permissions object with distinct automation keys parses
/// back to exactly its model.
#[verifier::rlimit(100)]
pub proof fn lemma_permissions_parse(t: Seq<char>, i: nat, pm: PermissionsModel, fuel: nat)
    requires
        fuel >= 2,
        fuel >= pm.automation.len() + 1,
        distinct_keys(pm.automation),
        i + permissions_text(pm).len() <= t.len(),
        t.subrange(i as int, (i + permissions_text(pm).len()) as int) == permissions_text(pm),
    ensures
        sp_permissions_value(t, i, fuel) == Some((pm, i + permissions_text(pm).len())),
{
    reveal_strlit("{\n      \"accessibility\": ");
    reveal_strlit(",\n      \"automation\": ");
    reveal_strlit("\n    }");
    reveal_strlit("accessibility");
    reveal_strlit("automation");
    reveal_strlit("true");
    reveal_strlit("false");
    reveal_strlit("{}");
    reveal_strlit("{\n");
    let w = permissions_text(pm);
    let l1 = "{\n      \"accessibility\": "@;
    let l2 = ",\n      \"automation\": "@;
    let l3 = "\n    }"@;
    let b1 = bool_text(pm.accessibility);
    let bl1 = b1.len();
    let av = automation_text(pm.automation);
    let al = av.len();
    assert(w == l1 + b1 + l2 + av + l3);
    assert(l1.len() == 25 && l2.len() == 22 && l3.len() == 6);
    let lw = w.len();
    assert(lw == 53 + bl1 + al);
    lemma_char_at(t, i, w, 0);
    assert(t[i as int] == '{');
    assert forall|j: int| 0 <= j < 7 implies json_ws(#[trigger] t[(i + 1) + j]) by {
        lemma_char_at(t, i, w, (1 + j) as nat);
        assert(w[1 + j] == l1[1 + j]);
    }
    lemma_char_at(t, i, w, 8);
    assert(t[(i + 8) as int] == '"');
    lemma_ws_run(t, i + 1, 7);
    assert(sp_ws(t, i + 1) == i + 8);
    // first member: "accessibility"
    let key1 = "accessibility"@;
    assert(key1.len() == 13);
    lemma_sub_seg(t, i, w, 9, 22);
    assert(w.subrange(9, 22) =~= key1);
    assert forall|j: int| 0 <= j < 13 implies plain_char(#[trigger] key1[j]) by {}
    lemma_char_at(t, i, w, 22);
    lemma_char_at(t, i, w, 23);
    lemma_char_at(t, i, w, 24);
    lemma_char_at(t, i, w, 25);
    assert(t[(i + 22) as int] == '"');
    assert(t[(i + 23) as int] == ':');
    assert(t[(i + 24) as int] == ' ');
    assert(w[25] == b1[0]);
    assert(t[(i + 25) as int] == b1[0]);
    assert(!json_ws(b1[0]));
    lemma_key_member(t, i + 8, key1);
    assert(sp_key(t, i + 8) == Some((key1, i + 25)));
    lemma_sub_seg(t, i, w, 25, 25 + bl1);
    assert(w.subrange(25, (25 + bl1) as int) =~= b1);
    lemma_bool_parse_back(t, i + 25, pm.accessibility);
    let p = i + 25 + bl1;
    assert(sp_bool_value(t, i + 25) == Some((pm.accessibility, p)));
    // comma, newline, indent to the second key
    lemma_char_at(t, i, w, 25 + bl1);
    lemma_char_at(t, i, w, 26 + bl1);
    assert(w[(25 + bl1) as int] == l2[0]);
    assert(w[(26 + bl1) as int] == l2[1]);
    assert(t[p as int] == ',');
    assert(t[(p + 1) as int] == '\n');
    assert forall|j: int| 0 <= j < 6 implies #[trigger] t[(p + 2) + j] == ' ' by {
        lemma_char_at(t, i, w, (27 + bl1 + j) as nat);
        assert(w[27 + bl1 + j] == l2[2 + j]);
    }
    lemma_char_at(t, i, w, 33 + bl1);
    assert(w[(33 + bl1) as int] == l2[8]);
    assert(t[(p + 8) as int] == '"');
    lemma_after_comma(t, p, 6);
    assert(sp_after_member(t, p) == Some((false, p + 8)));
    // second member: "automation", an object value
    let key2 = "automation"@;
    assert(key2.len() == 10);
    lemma_sub_seg(t, i, w, 34 + bl1, 44 + bl1);
    assert(w.subrange((34 + bl1) as int, (44 + bl1) as int) =~= key2);
    assert forall|j: int| 0 <= j < 10 implies plain_char(#[trigger] key2[j]) by {}
    lemma_char_at(t, i, w, 44 + bl1);
    lemma_char_at(t, i, w, 45 + bl1);
    lemma_char_at(t, i, w, 46 + bl1);
    lemma_char_at(t, i, w, 47 + bl1);
    assert(w[(44 + bl1) as int] == l2[19]);
    assert(w[(45 + bl1) as int] == l2[20]);
    assert(w[(46 + bl1) as int] == l2[21]);
    assert(w[(47 + bl1) as int] == av[0]);
    assert(av[0] == '{');
    assert(t[(p + 19) as int] == '"');
    assert(t[(p + 20) as int] == ':');
    assert(t[(p + 21) as int] == ' ');
    assert(t[(p + 22) as int] == '{');
    assert(!json_ws(t[(p + 22) as int]));
    lemma_key_member(t, p + 8, key2);
    assert(sp_key(t, p + 8) == Some((key2, p + 22)));
    lemma_sub_seg(t, i, w, 47 + bl1, 47 + bl1 + al);
    assert(w.subrange((47 + bl1) as int, (47 + bl1 + al) as int) =~= av);
    lemma_automation_parse(t, p + 22, pm.automation, (fuel - 1) as nat);
    let p2 = p + 22 + al;
    assert(sp_automation_value(t, p + 22, (fuel - 1) as nat) == Some((pm.automation, p2)));
    // newline, indent, closing brace
    lemma_char_at(t, i, w, 47 + bl1 + al);
    assert(w[(47 + bl1 + al) as int] == l3[0]);
    assert(t[p2 as int] == '\n');
    assert forall|j: int| 0 <= j < 4 implies #[trigger] t[(p2 + 1) + j] == ' ' by {
        lemma_char_at(t, i, w, (48 + bl1 + al + j) as nat);
        assert(w[48 + bl1 + al + j] == l3[1 + j]);
    }
    lemma_char_at(t, i, w, 52 + bl1 + al);
    assert(w[(52 + bl1 + al) as int] == l3[5]);
    assert(t[(p2 + 5) as int] == '}');
    lemma_after_close(t, p2, 4);
    assert(sp_after_member(t, p2) == Some((true, p2 + 6)));
    assert(key2 != key1);
    assert(sp_permissions_fields(t, i + 8, fuel, None, None) == sp_permissions_fields(
        t,
        p + 8,
        (fuel - 1) as nat,
        Some(pm.accessibility),
        None,
    ));
    assert(sp_permissions_fields(t, p + 8, (fuel - 1) as nat, Some(pm.accessibility), None)
        == Some(
        (PermissionsModel { accessibility: pm.accessibility, automation: pm.automation }, p2 + 6),
    ));
    assert(PermissionsModel { accessibility: pm.accessibility, automation: pm.automation } == pm);
    assert(t[(i + 8) as int] != '}');
    assert(sp_permissions_value(t, i, fuel) == Some((pm, p2 + 6)));
    assert(p2 + 6 == i + lw);
}

/// The last member of a rendered developer-tools object: `skipped`, then
/// the closing brace.
#[verifier::rlimit(100)]
proof fn lemma_dev_tools_tail(
    t: Seq<char>,
    p: nat,
    dm: DevToolsModel,
    fuel: nat,
    hb: DevToolInfoModel,
    py: DevToolInfoModel,
    nd: DevToolInfoModel,
    nx: NpxModel,
)
    requires
        fuel >= 1,
        dm == (DevToolsModel { homebrew: hb, python: py, node: nd, npx: nx, skipped: dm.skipped }),
        p + 25 + bool_text(dm.skipped).len() <= t.len(),
        t.subrange(p as int, (p + 25 + bool_text(dm.skipped).len()) as int) == ",\n      \"skipped\": "@
            + bool_text(dm.skipped) + "\n    }"@,
    ensures
        sp_after_member(t, p) == Some((false, p + 8)),
        sp_dev_tools_fields(t, p + 8, fuel, Some(hb), Some(py), Some(nd), Some(nx), None) == Some(
            (dm, p + 25 + bool_text(dm.skipped).len()),
        ),
{
    reveal_strlit(",\n      \"skipped\": ");
    reveal_strlit("\n    }");
    reveal_strlit("homebrew");
    reveal_strlit("python");
    reveal_strlit("node");
    reveal_strlit("npx");
    reveal_strlit("skipped");
    reveal_strlit("true");
    reveal_strlit("false");
    let l5 = ",\n      \"skipped\": "@;
    let l6 = "\n    }"@;
    let b1 = bool_text(dm.skipped);
    let bl1 = b1.len();
    let w = l5 + b1 + l6;
    let lw = w.len();
    assert(l5.len() == 19 && l6.len() == 6);
    assert(lw == 25 + bl1);
    lemma_char_at(t, p, w, 0);
    lemma_char_at(t, p, w, 1);
    assert(t[p as int] == ',');
    assert(t[(p + 1) as int] == '\n');
    assert forall|j: int| 0 <= j < 6 implies #[trigger] t[(p + 2) + j] == ' ' by {
        lemma_char_at(t, p, w, (2 + j) as nat);
        assert(w[2 + j] == l5[2 + j]);
    }
    lemma_char_at(t, p, w, 8);
    assert(w[8] == l5[8]);
    assert(t[(p + 8) as int] == '"');
    lemma_after_comma(t, p, 6);
    assert(sp_after_member(t, p) == Some((false, p + 8)));
    let key = "skipped"@;
    assert(key.len() == 7);
    lemma_sub_seg(t, p, w, 9, 16);
    assert(w.subrange(9, 16) =~= key);
    assert forall|j: int| 0 <= j < 7 implies plain_char(#[trigger] key[j]) by {}
    lemma_char_at(t, p, w, 16);
    lemma_char_at(t, p, w, 17);
    lemma_char_at(t, p, w, 18);
    lemma_char_at(t, p, w, 19);
    assert(t[(p + 16) as int] == '"');
    assert(t[(p + 17) as int] == ':');
    assert(t[(p + 18) as int] == ' ');
    assert(w[19] == b1[0]);
    assert(t[(p + 19) as int] == b1[0]);
    assert(!json_ws(b1[0]));
    lemma_key_member(t, p + 8, key);
    assert(sp_key(t, p + 8) == Some((key, p + 19)));
    lemma_sub_seg(t, p, w, 19, 19 + bl1);
    assert(w.subrange(19, (19 + bl1) as int) =~= b1);
    lemma_bool_parse_back(t, p + 19, dm.skipped);
    let p2 = p + 19 + bl1;
    assert(sp_bool_value(t, p + 19) == Some((dm.skipped, p2)));
    lemma_char_at(t, p, w, 19 + bl1);
    assert(w[(19 + bl1) as int] == l6[0]);
    assert(t[p2 as int] == '\n');
    assert forall|j: int| 0 <= j < 4 implies #[trigger] t[(p2 + 1) + j] == ' ' by {
        lemma_char_at(t, p, w, (20 + bl1 + j) as nat);
        assert(w[20 + bl1 + j] == l6[1 + j]);
    }
    lemma_char_at(t, p, w, 24 + bl1);
    assert(w[(24 + bl1) as int] == l6[5]);
    assert(t[(p2 + 5) as int] == '}');
    lemma_after_close(t, p2, 4);
    assert(sp_after_member(t, p2) == Some((true, p2 + 6)));
    assert(key != "homebrew"@ && key != "python"@ && key != "node"@ && key != "npx"@);
    assert(sp_dev_tools_fields(t, p + 8, fuel, Some(hb), Some(py), Some(nd), Some(nx), None)
        == Some(
        (DevToolsModel { homebrew: hb, python: py, node: nd, npx: nx, skipped: dm.skipped }, p2 + 6),
    ));
    assert(p2 + 6 == p + lw);
}

/// The fourth member of a rendered developer-tools object: `npx`, then
/// the rest.
#[verifier::rlimit(100)]
proof fn lemma_dt_npx(
    t: Seq<char>,
    p: nat,
    dm: DevToolsModel,
    fuel: nat,
    hb: DevToolInfoModel,
    py: DevToolInfoModel,
    nd: DevToolInfoModel,
)
    requires
        fuel >= 2,
        dm == (DevToolsModel {
            homebrew: hb,
            python: py,
            node: nd,
            npx: dm.npx,
            skipped: dm.skipped,
        }),
        p + 40 + npx_text(dm.npx).len() + bool_text(dm.skipped).len() <= t.len(),
        t.subrange(
            p as int,
            (p + 40 + npx_text(dm.npx).len() + bool_text(dm.skipped).len()) as int,
        ) == ",\n      \"npx\": "@ + npx_text(dm.npx) + ",\n      \"skipped\": "@ + bool_text(
            dm.skipped,
        ) + "\n    }"@,
    ensures
        sp_after_member(t, p) == Some((false, p + 8)),
        sp_dev_tools_fields(t, p + 8, fuel, Some(hb), Some(py), Some(nd), None, None) == Some(
            (dm, p + 40 + npx_text(dm.npx).len() + bool_text(dm.skipped).len()),
        ),
{
    reveal_strlit(",\n      \"npx\": ");
    reveal_strlit(",\n      \"skipped\": ");
    reveal_strlit("\n    }");
    reveal_strlit("{\n        \"installed\": ");
    reveal_strlit("homebrew");
    reveal_strlit("python");
    reveal_strlit("node");
    reveal_strlit("npx");
    let l4 = ",\n      \"npx\": "@;
    let nv = npx_text(dm.npx);
    let nl = nv.len();
    let bv = bool_text(dm.skipped);
    let bl = bv.len();
    let tail = ",\n      \"skipped\": "@ + bv + "\n    }"@;
    let w = l4 + nv + ",\n      \"skipped\": "@ + bv + "\n    }"@;
    let lw = w.len();
    assert(l4.len() == 15);
    assert(lw == 40 + nl + bl);
    assert(w =~= l4 + nv + tail);
    lemma_char_at(t, p, w, 0);
    lemma_char_at(t, p, w, 1);
    assert(t[p as int] == ',');
    assert(t[(p + 1) as int] == '\n');
    assert forall|j: int| 0 <= j < 6 implies #[trigger] t[(p + 2) + j] == ' ' by {
        lemma_char_at(t, p, w, (2 + j) as nat);
        assert(w[2 + j] == l4[2 + j]);
    }
    lemma_char_at(t, p, w, 8);
    assert(w[8] == l4[8]);
    assert(t[(p + 8) as int] == '"');
    lemma_after_comma(t, p, 6);
    assert(sp_after_member(t, p) == Some((false, p + 8)));
    let key = "npx"@;
    assert(key.len() == 3);
    lemma_sub_seg(t, p, w, 9, 12);
    assert(w.subrange(9, 12) =~= key);
    assert forall|j: int| 0 <= j < 3 implies plain_char(#[trigger] key[j]) by {}
    lemma_char_at(t, p, w, 12);
    lemma_char_at(t, p, w, 13);
    lemma_char_at(t, p, w, 14);
    lemma_char_at(t, p, w, 15);
    assert(t[(p + 12) as int] == '"');
    assert(t[(p + 13) as int] == ':');
    assert(t[(p + 14) as int] == ' ');
    assert(w[15] == nv[0]);
    assert(nv[0] == '{');
    assert(t[(p + 15) as int] == '{');
    assert(!json_ws(t[(p + 15) as int]));
    lemma_key_member(t, p + 8, key);
    assert(sp_key(t, p + 8) == Some((key, p + 15)));
    lemma_sub_seg(t, p, w, 15, 15 + nl);
    assert(w.subrange(15, (15 + nl) as int) =~= nv);
    lemma_npx_parse(t, p + 15, dm.npx, fuel);
    let p2 = p + 15 + nl;
    assert(sp_npx_value(t, p + 15, fuel) == Some((dm.npx, p2)));
    lemma_sub_seg(t, p, w, 15 + nl, lw);
    assert(w.subrange((15 + nl) as int, lw as int) =~= tail);
    lemma_dev_tools_tail(t, p2, dm, (fuel - 1) as nat, hb, py, nd, dm.npx);
    assert(sp_after_member(t, p2) == Some((false, p2 + 8)));
    assert(key != "homebrew"@ && key != "python"@ && key != "node"@);
    assert(sp_dev_tools_fields(t, p + 8, fuel, Some(hb), Some(py), Some(nd), None, None)
        == sp_dev_tools_fields(
        t,
        p2 + 8,
        (fuel - 1) as nat,
        Some(hb),
        Some(py),
        Some(nd),
        Some(dm.npx),
        None,
    ));
    assert(p2 + 25 + bl == p + lw);
}

/// The third member of a rendered developer-tools object: `node`, then
/// the rest.
#[verifier::rlimit(100)]
proof fn lemma_dt_node(
    t: Seq<char>,
    p: nat,
    dm: DevToolsModel,
    fuel: nat,
    hb: DevToolInfoModel,
    py: DevToolInfoModel,
)
    requires
        fuel >= 3,
        dm == (DevToolsModel {
            homebrew: hb,
            python: py,
            node: dm.node,
            npx: dm.npx,
            skipped: dm.skipped,
        }),
        p + 56 + tool_text(dm.node).len() + npx_text(dm.npx).len() + bool_text(dm.skipped).len()
            <= t.len(),
        t.subrange(
            p as int,
            (p + 56 + tool_text(dm.node).len() + npx_text(dm.npx).len() + bool_text(
                dm.skipped,
            ).len()) as int,
        ) == ",\n      \"node\": "@ + tool_text(dm.node) + ",\n      \"npx\": "@ + npx_text(dm.npx)
            + ",\n      \"skipped\": "@ + bool_text(dm.skipped) + "\n    }"@,
    ensures
        sp_after_member(t, p) == Some((false, p + 8)),
        sp_dev_tools_fields(t, p + 8, fuel, Some(hb), Some(py), None, None, None) == Some(
            (
                dm,
                p + 56 + tool_text(dm.node).len() + npx_text(dm.npx).len() + bool_text(
                    dm.skipped,
                ).len(),
            ),
        ),
{
    reveal_strlit(",\n      \"node\": ");
    reveal_strlit("{\n        \"installed\": ");
    reveal_strlit("homebrew");
    reveal_strlit("python");
    reveal_strlit("node");
    let l3 = ",\n      \"node\": "@;
    let t3 = tool_text(dm.node);
    let t3l = t3.len();
    let rest = ",\n      \"npx\": "@ + npx_text(dm.npx) + ",\n      \"skipped\": "@ + bool_text(
        dm.skipped,
    ) + "\n    }"@;
    let w = l3 + t3 + ",\n      \"npx\": "@ + npx_text(dm.npx) + ",\n      \"skipped\": "@
        + bool_text(dm.skipped) + "\n    }"@;
    let lw = w.len();
    assert(l3.len() == 16);
    assert(rest.len() == 40 + npx_text(dm.npx).len() + bool_text(dm.skipped).len()) by {
        reveal_strlit(",\n      \"npx\": ");
        reveal_strlit(",\n      \"skipped\": ");
        reveal_strlit("\n    }");
    }
    assert(lw == 16 + t3l + rest.len());
    assert(w =~= l3 + t3 + rest);
    lemma_char_at(t, p, w, 0);
    lemma_char_at(t, p, w, 1);
    assert(t[p as int] == ',');
    assert(t[(p + 1) as int] == '\n');
    assert forall|j: int| 0 <= j < 6 implies #[trigger] t[(p + 2) + j] == ' ' by {
        lemma_char_at(t, p, w, (2 + j) as nat);
        assert(w[2 + j] == l3[2 + j]);
    }
    lemma_char_at(t, p, w, 8);
    assert(w[8] == l3[8]);
    assert(t[(p + 8) as int] == '"');
    lemma_after_comma(t, p, 6);
    assert(sp_after_member(t, p) == Some((false, p + 8)));
    let key = "node"@;
    assert(key.len() == 4);
    lemma_sub_seg(t, p, w, 9, 13);
    assert(w.subrange(9, 13) =~= key);
    assert forall|j: int| 0 <= j < 4 implies plain_char(#[trigger] key[j]) by {}
    lemma_char_at(t, p, w, 13);
    lemma_char_at(t, p, w, 14);
    lemma_char_at(t, p, w, 15);
    lemma_char_at(t, p, w, 16);
    assert(t[(p + 13) as int] == '"');
    assert(t[(p + 14) as int] == ':');
    assert(t[(p + 15) as int] == ' ');
    assert(w[16] == t3[0]);
    assert(t3[0] == '{');
    assert(t[(p + 16) as int] == '{');
    assert(!json_ws(t[(p + 16) as int]));
    lemma_key_member(t, p + 8, key);
    assert(sp_key(t, p + 8) == Some((key, p + 16)));
    lemma_sub_seg(t, p, w, 16, 16 + t3l);
    assert(w.subrange(16, (16 + t3l) as int) =~= t3);
    lemma_tool_parse(t, p + 16, dm.node, fuel);
    let p2 = p + 16 + t3l;
    assert(sp_tool_value(t, p + 16, fuel) == Some((dm.node, p2)));
    lemma_sub_seg(t, p, w, 16 + t3l, lw);
    assert(w.subrange((16 + t3l) as int, lw as int) =~= rest);
    lemma_dt_npx(t, p2, dm, (fuel - 1) as nat, hb, py, dm.node);
    assert(sp_after_member(t, p2) == Some((false, p2 + 8)));
    assert(key != "homebrew"@ && key != "python"@);
    assert(sp_dev_tools_fields(t, p + 8, fuel, Some(hb), Some(py), None, None, None)
        == sp_dev_tools_fields(
        t,
        p2 + 8,
        (fuel - 1) as nat,
        Some(hb),
        Some(py),
        Some(dm.node),
        None,
        None,
    ));
}

/// The second member of a rendered developer-tools object: `python`, then
/// the rest.
#[verifier::rlimit(100)]
proof fn lemma_dt_python(t: Seq<char>, p: nat, dm: DevToolsModel, fuel: nat, hb: DevToolInfoModel)
    requires
        fuel >= 4,
        dm == (DevToolsModel {
            homebrew: hb,
            python: dm.python,
            node: dm.node,
            npx: dm.npx,
            skipped: dm.skipped,
        }),
        p + 74 + tool_text(dm.python).len() + tool_text(dm.node).len() + npx_text(dm.npx).len()
            + bool_text(dm.skipped).len() <= t.len(),
        t.subrange(
            p as int,
            (p + 74 + tool_text(dm.python).len() + tool_text(dm.node).len() + npx_text(
                dm.npx,
            ).len() + bool_text(dm.skipped).len()) as int,
        ) == ",\n      \"python\": "@ + tool_text(dm.python) + ",\n      \"node\": "@ + tool_text(
            dm.node,
        ) + ",\n      \"npx\": "@ + npx_text(dm.npx) + ",\n      \"skipped\": "@ + bool_text(
            dm.skipped,
        ) + "\n    }"@,
    ensures
        sp_after_member(t, p) == Some((false, p + 8)),
        sp_dev_tools_fields(t, p + 8, fuel, Some(hb), None, None, None, None) == Some(
            (
                dm,
                p + 74 + tool_text(dm.python).len() + tool_text(dm.node).len() + npx_text(
                    dm.npx,
                ).len() + bool_text(dm.skipped).len(),
            ),
        ),
{
    reveal_strlit(",\n      \"python\": ");
    reveal_strlit("{\n        \"installed\": ");
    reveal_strlit("homebrew");
    reveal_strlit("python");
    let l2 = ",\n      \"python\": "@;
    let t2 = tool_text(dm.python);
    let t2l = t2.len();
    let rest = ",\n      \"node\": "@ + tool_text(dm.node) + ",\n      \"npx\": "@ + npx_text(
        dm.npx,
    ) + ",\n      \"skipped\": "@ + bool_text(dm.skipped) + "\n    }"@;
    let w = l2 + t2 + rest;
    let lw = w.len();
    assert(w =~= l2 + t2 + ",\n      \"node\": "@ + tool_text(dm.node) + ",\n      \"npx\": "@
        + npx_text(dm.npx) + ",\n      \"skipped\": "@ + bool_text(dm.skipped) + "\n    }"@);
    assert(t.subrange(p as int, (p + lw) as int) == w);
    assert(l2.len() == 18);
    assert(rest.len() == 56 + tool_text(dm.node).len() + npx_text(dm.npx).len() + bool_text(
        dm.skipped,
    ).len()) by {
        reveal_strlit(",\n      \"node\": ");
        reveal_strlit(",\n      \"npx\": ");
        reveal_strlit(",\n      \"skipped\": ");
        reveal_strlit("\n    }");
    }
    assert(lw == 18 + t2l + rest.len());
    lemma_char_at(t, p, w, 0);
    lemma_char_at(t, p, w, 1);
    assert(t[p as int] == ',');
    assert(t[(p + 1) as int] == '\n');
    assert forall|j: int| 0 <= j < 6 implies #[trigger] t[(p + 2) + j] == ' ' by {
        lemma_char_at(t, p, w, (2 + j) as nat);
        assert(w[2 + j] == l2[2 + j]);
    }
    lemma_char_at(t, p, w, 8);
    assert(w[8] == l2[8]);
    assert(t[(p + 8) as int] == '"');
    lemma_after_comma(t, p, 6);
    assert(sp_after_member(t, p) == Some((false, p + 8)));
    let key = "python"@;
    assert(key.len() == 6);
    lemma_sub_seg(t, p, w, 9, 15);
    assert(w.subrange(9, 15) =~= key);
    assert forall|j: int| 0 <= j < 6 implies plain_char(#[trigger] key[j]) by {}
    lemma_char_at(t, p, w, 15);
    lemma_char_at(t, p, w, 16);
    lemma_char_at(t, p, w, 17);
    lemma_char_at(t, p, w, 18);
    assert(t[(p + 15) as int] == '"');
    assert(t[(p + 16) as int] == ':');
    assert(t[(p + 17) as int] == ' ');
    assert(w[18] == t2[0]);
    assert(t2[0] == '{');
    assert(t[(p + 18) as int] == '{');
    assert(!json_ws(t[(p + 18) as int]));
    lemma_key_member(t, p + 8, key);
    assert(sp_key(t, p + 8) == Some((key, p + 18)));
    lemma_sub_seg(t, p, w, 18, 18 + t2l);
    assert(w.subrange(18, (18 + t2l) as int) =~= t2);
    lemma_tool_parse(t, p + 18, dm.python, fuel);
    let p2 = p + 18 + t2l;
    assert(sp_tool_value(t, p + 18, fuel) == Some((dm.python, p2)));
    lemma_sub_seg(t, p, w, 18 + t2l, lw);
    assert(w.subrange((18 + t2l) as int, lw as int) =~= rest);
    lemma_dt_node(t, p2, dm, (fuel - 1) as nat, hb, dm.python);
    assert(sp_after_member(t, p2) == Some((false, p2 + 8)));
    assert(key != "homebrew"@);
    assert(sp_dev_tools_fields(t, p + 8, fuel, Some(hb), None, None, None, None)
        == sp_dev_tools_fields(
        t,
        p2 + 8,
        (fuel - 1) as nat,
        Some(hb),
        Some(dm.python),
        None,
        None,
        None,
    ));
}

/// The rendered developer-tools object, split after its first member.
#[verifier::rlimit(100)]
proof fn lemma_dev_tools_text_split(dm: DevToolsModel)
    ensures
        dev_tools_text(dm) == "{\n      \"homebrew\": "@ + tool_text(dm.homebrew) + (
        ",\n      \"python\": "@ + tool_text(dm.python) + ",\n      \"node\": "@ + tool_text(
            dm.node,
        ) + ",\n      \"npx\": "@ + npx_text(dm.npx) + ",\n      \"skipped\": "@ + bool_text(
            dm.skipped,
        ) + "\n    }"@),
        (",\n      \"python\": "@ + tool_text(dm.python) + ",\n      \"node\": "@ + tool_text(
            dm.node,
        ) + ",\n      \"npx\": "@ + npx_text(dm.npx) + ",\n      \"skipped\": "@ + bool_text(
            dm.skipped,
        ) + "\n    }"@).len() == 74 + tool_text(dm.python).len() + tool_text(dm.node).len()
            + npx_text(dm.npx).len() + bool_text(dm.skipped).len(),
{
    reveal_strlit(",\n      \"python\": ");
    reveal_strlit(",\n      \"node\": ");
    reveal_strlit(",\n      \"npx\": ");
    reveal_strlit(",\n      \"skipped\": ");
    reveal_strlit("\n    }");
    assert(dev_tools_text(dm) =~= "{\n      \"homebrew\": "@ + tool_text(dm.homebrew) + (
    ",\n      \"python\": "@ + tool_text(dm.python) + ",\n      \"node\": "@ + tool_text(dm.node)
        + ",\n      \"npx\": "@ + npx_text(dm.npx) + ",\n      \"skipped\": "@ + bool_text(
        dm.skipped,
    ) + "\n    }"@));
}

/// A rendered developer-tools object parses back to exactly its model.
#[verifier::rlimit(100)]
pub proof fn lemma_dev_tools_parse(t: Seq<char>, i: nat, dm: DevToolsModel, fuel: nat)
    requires
        fuel >= 5,
        i + dev_tools_text(dm).len() <= t.len(),
        t.subrange(i as int, (i + dev_tools_text(dm).len()) as int) == dev_tools_text(dm),
    ensures
        sp_dev_tools_value(t, i, fuel) == Some((dm, i + dev_tools_text(dm).len())),
{
    reveal_strlit("{\n      \"homebrew\": ");
    reveal_strlit("{\n        \"installed\": ");
    reveal_strlit("homebrew");
    let w = dev_tools_text(dm);
    let l1 = "{\n      \"homebrew\": "@;
    let t1 = tool_text(dm.homebrew);
    let t1l = t1.len();
    let rest = ",\n      \"python\": "@ + tool_text(dm.python) + ",\n      \"node\": "@ + tool_text(
        dm.node,
    ) + ",\n      \"npx\": "@ + npx_text(dm.npx) + ",\n      \"skipped\": "@ + bool_text(
        dm.skipped,
    ) + "\n    }"@;
    assert(l1.len() == 20);
    lemma_dev_tools_text_split(dm);
    assert(rest.len() == 74 + tool_text(dm.python).len() + tool_text(dm.node).len() + npx_text(
        dm.npx,
    ).len() + bool_text(dm.skipped).len());
    let lw = w.len();
    let w2 = l1 + t1 + rest;
    assert(w == w2);
    assert(t.subrange(i as int, (i + lw) as int) == w2);
    assert(lw == 20 + t1l + rest.len());
    lemma_char_at(t, i, w2, 0);
    assert(t[i as int] == '{');
    assert forall|j: int| 0 <= j < 7 implies json_ws(#[trigger] t[(i + 1) + j]) by {
        lemma_char_at(t, i, w2, (1 + j) as nat);
        assert(w2[1 + j] == l1[1 + j]);
    }
    lemma_char_at(t, i, w2, 8);
    assert(t[(i + 8) as int] == '"');
    lemma_ws_run(t, i + 1, 7);
    assert(sp_ws(t, i + 1) == i + 8);
    let key1 = "homebrew"@;
    assert(key1.len() == 8);
    lemma_sub_seg(t, i, w2, 9, 17);
    assert(w2.subrange(9, 17) =~= key1);
    assert forall|j: int| 0 <= j < 8 implies plain_char(#[trigger] key1[j]) by {}
    lemma_char_at(t, i, w2, 17);
    lemma_char_at(t, i, w2, 18);
    lemma_char_at(t, i, w2, 19);
    lemma_char_at(t, i, w2, 20);
    assert(t[(i + 17) as int] == '"');
    assert(t[(i + 18) as int] == ':');
    assert(t[(i + 19) as int] == ' ');
    assert(w2[20] == t1[0]);
    assert(t1[0] == '{');
    assert(t[(i + 20) as int] == '{');
    assert(!json_ws(t[(i + 20) as int]));
    lemma_key_member(t, i + 8, key1);
    assert(sp_key(t, i + 8) == Some((key1, i + 20)));
    lemma_sub_seg(t, i, w2, 20, 20 + t1l);
    assert(w2.subrange(20, (20 + t1l) as int) =~= t1);
    lemma_tool_parse(t, i + 20, dm.homebrew, fuel);
    let p = i + 20 + t1l;
    assert(sp_tool_value(t, i + 20, fuel) == Some((dm.homebrew, p)));
    lemma_sub_seg(t, i, w2, 20 + t1l, lw);
    assert(w2.subrange((20 + t1l) as int, lw as int) =~= rest);
    lemma_dt_python(t, p, dm, (fuel - 1) as nat, dm.homebrew);
    assert(sp_after_member(t, p) == Some((false, p + 8)));
    assert(sp_dev_tools_fields(t, i + 8, fuel, None, None, None, None, None)
        == sp_dev_tools_fields(
        t,
        p + 8,
        (fuel - 1) as nat,
        Some(dm.homebrew),
        None,
        None,
        None,
        None,
    ));
    assert(dm == (DevToolsModel {
        homebrew: dm.homebrew,
        python: dm.python,
        node: dm.node,
        npx: dm.npx,
        skipped: dm.skipped,
    }));
    assert(t[(i + 8) as int] != '}');
    assert(sp_dev_tools_value(t, i, fuel) == Some((dm, i + lw)));
}

} // verus!
