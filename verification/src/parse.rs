//! Typed parsing of the onboarding document: recursive descent over the
//! JSON grammar, one parser per schema object. Fields may come in any
//! order, unknown fields are skipped, a duplicate field is malformed, and
//! a missing required field is malformed — except `dev_tools`, whose
//! absence means its default. The specification functions define the
//! parse; the executable functions mirror them one to one.

use vstd::prelude::*;
use crate::json::{
    sp_after_member, sp_bool_value, sp_key, sp_skip_value, sp_string_value, sp_uint, sp_ws,
};
use crate::json::{after_member, bool_value, key_at, skip_value, string_value, uint_value, ws_to};
use crate::state::{
    automation_view, ApiKeyData, ApiKeyModel, DataModel, DevToolInfo, DevToolInfoModel,
    DevToolsData, DevToolsModel, NpxInfo, NpxModel, OnboardingData, OnboardingState,
    PermissionsData, PermissionsModel, StateModel, TelegramData, TelegramModel, default_dev_tools,
};

verus! {

/// The view of an optional value.
pub open spec fn opt_view<T: View>(x: Option<T>) -> Option<T::V> {
    match x {
        Some(v) => Some(v@),
        None => None,
    }
}

/// The association-list view of an optional automation vector.
pub open spec fn opt_auto_view(x: Option<Vec<(String, bool)>>) -> Option<Seq<(Seq<char>, bool)>> {
    match x {
        Some(v) => Some(automation_view(v@)),
        None => None,
    }
}

/// `s` with the binding for `k` replaced by `v` in place, or appended,
/// searching from index `i`.
pub open spec fn assoc_set_from(
    s: Seq<(Seq<char>, bool)>,
    i: nat,
    k: Seq<char>,
    v: bool,
) -> Seq<(Seq<char>, bool)>
    decreases s.len() - i,
{
    if i >= s.len() {
        s + seq![(k, v)]
    } else if s[i as int].0 == k {
        s.update(i as int, (k, v))
    } else {
        assoc_set_from(s, i + 1, k, v)
    }
}

/// `s` with the binding for `k` set to `v`: replaced in place when the key
/// is present, appended when it is new (a later duplicate key wins).
pub open spec fn assoc_set(s: Seq<(Seq<char>, bool)>, k: Seq<char>, v: bool) -> Seq<
    (Seq<char>, bool),
> {
    assoc_set_from(s, 0, k, v)
}

pub open spec fn sp_tool_fields(
    t: Seq<char>,
    i: nat,
    fuel: nat,
    inst: Option<bool>,
    ver: Option<Seq<char>>,
) -> Option<(DevToolInfoModel, nat)>
    decreases fuel,
{
    if fuel == 0 {
        None
    } else {
        match sp_key(t, i) {
            None => None,
            Some((key, m)) => {
                let step: Option<(Option<bool>, Option<Seq<char>>, nat)> = if key
                    == "installed"@ {
                    if inst is Some {
                        None
                    } else {
                        match sp_bool_value(t, m) {
                            Some((b, p)) => Some((Some(b), ver, p)),
                            None => None,
                        }
                    }
                } else if key == "version"@ {
                    if ver is Some {
                        None
                    } else {
                        match sp_string_value(t, m) {
                            Some((s, p)) => Some((inst, Some(s), p)),
                            None => None,
                        }
                    }
                } else {
                    match sp_skip_value(t, m, fuel) {
                        Some(p) => Some((inst, ver, p)),
                        None => None,
                    }
                };
                match step {
                    None => None,
                    Some((inst2, ver2, p)) => match sp_after_member(t, p) {
                        None => None,
                        Some((done, q)) => if done {
                            match (inst2, ver2) {
                                (Some(iv), Some(vv)) => Some(
                                    (DevToolInfoModel { installed: iv, version: vv }, q),
                                ),
                                _ => None,
                            }
                        } else {
                            sp_tool_fields(t, q, (fuel - 1) as nat, inst2, ver2)
                        },
                    },
                }
            },
        }
    }
}

pub open spec fn sp_tool_value(t: Seq<char>, i: nat, fuel: nat) -> Option<(DevToolInfoModel, nat)> {
    if i < t.len() && t[i as int] == '{' {
        let j = sp_ws(t, i + 1);
        if j < t.len() && t[j as int] == '}' {
            None
        } else {
            sp_tool_fields(t, j, fuel, None, None)
        }
    } else {
        None
    }
}

pub open spec fn sp_npx_fields(t: Seq<char>, i: nat, fuel: nat, inst: Option<bool>) -> Option<
    (NpxModel, nat),
>
    decreases fuel,
{
    if fuel == 0 {
        None
    } else {
        match sp_key(t, i) {
            None => None,
            Some((key, m)) => {
                let step: Option<(Option<bool>, nat)> = if key == "installed"@ {
                    if inst is Some {
                        None
                    } else {
                        match sp_bool_value(t, m) {
                            Some((b, p)) => Some((Some(b), p)),
                            None => None,
                        }
                    }
                } else {
                    match sp_skip_value(t, m, fuel) {
                        Some(p) => Some((inst, p)),
                        None => None,
                    }
                };
                match step {
                    None => None,
                    Some((inst2, p)) => match sp_after_member(t, p) {
                        None => None,
                        Some((done, q)) => if done {
                            match inst2 {
                                Some(iv) => Some((NpxModel { installed: iv }, q)),
                                None => None,
                            }
                        } else {
                            sp_npx_fields(t, q, (fuel - 1) as nat, inst2)
                        },
                    },
                }
            },
        }
    }
}

pub open spec fn sp_npx_value(t: Seq<char>, i: nat, fuel: nat) -> Option<(NpxModel, nat)> {
    if i < t.len() && t[i as int] == '{' {
        let j = sp_ws(t, i + 1);
        if j < t.len() && t[j as int] == '}' {
            None
        } else {
            sp_npx_fields(t, j, fuel, None)
        }
    } else {
        None
    }
}

pub open spec fn sp_telegram_fields(
    t: Seq<char>,
    i: nat,
    fuel: nat,
    conf: Option<bool>,
    skip: Option<bool>,
) -> Option<(TelegramModel, nat)>
    decreases fuel,
{
    if fuel == 0 {
        None
    } else {
        match sp_key(t, i) {
            None => None,
            Some((key, m)) => {
                let step: Option<(Option<bool>, Option<bool>, nat)> = if key == "configured"@ {
                    if conf is Some {
                        None
                    } else {
                        match sp_bool_value(t, m) {
                            Some((b, p)) => Some((Some(b), skip, p)),
                            None => None,
                        }
                    }
                } else if key == "skipped"@ {
                    if skip is Some {
                        None
                    } else {
                        match sp_bool_value(t, m) {
                            Some((b, p)) => Some((conf, Some(b), p)),
                            None => None,
                        }
                    }
                } else {
                    match sp_skip_value(t, m, fuel) {
                        Some(p) => Some((conf, skip, p)),
                        None => None,
                    }
                };
                match step {
                    None => None,
                    Some((conf2, skip2, p)) => match sp_after_member(t, p) {
                        None => None,
                        Some((done, q)) => if done {
                            match (conf2, skip2) {
                                (Some(cv), Some(sv)) => Some(
                                    (TelegramModel { configured: cv, skipped: sv }, q),
                                ),
                                _ => None,
                            }
                        } else {
                            sp_telegram_fields(t, q, (fuel - 1) as nat, conf2, skip2)
                        },
                    },
                }
            },
        }
    }
}

pub open spec fn sp_telegram_value(t: Seq<char>, i: nat, fuel: nat) -> Option<
    (TelegramModel, nat),
> {
    if i < t.len() && t[i as int] == '{' {
        let j = sp_ws(t, i + 1);
        if j < t.len() && t[j as int] == '}' {
            None
        } else {
            sp_telegram_fields(t, j, fuel, None, None)
        }
    } else {
        None
    }
}

pub open spec fn sp_api_key_fields(
    t: Seq<char>,
    i: nat,
    fuel: nat,
    prov: Option<Seq<char>>,
    conf: Option<bool>,
    verif: Option<bool>,
) -> Option<(ApiKeyModel, nat)>
    decreases fuel,
{
    if fuel == 0 {
        None
    } else {
        match sp_key(t, i) {
            None => None,
            Some((key, m)) => {
                let step: Option<(Option<Seq<char>>, Option<bool>, Option<bool>, nat)> = if key
                    == "provider"@ {
                    if prov is Some {
                        None
                    } else {
                        match sp_string_value(t, m) {
                            Some((s, p)) => Some((Some(s), conf, verif, p)),
                            None => None,
                        }
                    }
                } else if key == "configured"@ {
                    if conf is Some {
                        None
                    } else {
                        match sp_bool_value(t, m) {
                            Some((b, p)) => Some((prov, Some(b), verif, p)),
                            None => None,
                        }
                    }
                } else if key == "verified"@ {
                    if verif is Some {
                        None
                    } else {
                        match sp_bool_value(t, m) {
                            Some((b, p)) => Some((prov, conf, Some(b), p)),
                            None => None,
                        }
                    }
                } else {
                    match sp_skip_value(t, m, fuel) {
                        Some(p) => Some((prov, conf, verif, p)),
                        None => None,
                    }
                };
                match step {
                    None => None,
                    Some((prov2, conf2, verif2, p)) => match sp_after_member(t, p) {
                        None => None,
                        Some((done, q)) => if done {
                            match (prov2, conf2, verif2) {
                                (Some(pv), Some(cv), Some(vv)) => Some(
                                    (ApiKeyModel { provider: pv, configured: cv, verified: vv }, q),
                                ),
                                _ => None,
                            }
                        } else {
                            sp_api_key_fields(t, q, (fuel - 1) as nat, prov2, conf2, verif2)
                        },
                    },
                }
            },
        }
    }
}

pub open spec fn sp_api_key_value(t: Seq<char>, i: nat, fuel: nat) -> Option<(ApiKeyModel, nat)> {
    if i < t.len() && t[i as int] == '{' {
        let j = sp_ws(t, i + 1);
        if j < t.len() && t[j as int] == '}' {
            None
        } else {
            sp_api_key_fields(t, j, fuel, None, None, None)
        }
    } else {
        None
    }
}

pub open spec fn sp_automation_fields(
    t: Seq<char>,
    i: nat,
    fuel: nat,
    acc: Seq<(Seq<char>, bool)>,
) -> Option<(Seq<(Seq<char>, bool)>, nat)>
    decreases fuel,
{
    if fuel == 0 {
        None
    } else {
        match sp_key(t, i) {
            None => None,
            Some((key, m)) => match sp_bool_value(t, m) {
                None => None,
                Some((b, p)) => {
                    let acc2 = assoc_set(acc, key, b);
                    match sp_after_member(t, p) {
                        None => None,
                        Some((done, q)) => if done {
                            Some((acc2, q))
                        } else {
                            sp_automation_fields(t, q, (fuel - 1) as nat, acc2)
                        },
                    }
                },
            },
        }
    }
}

pub open spec fn sp_automation_value(t: Seq<char>, i: nat, fuel: nat) -> Option<
    (Seq<(Seq<char>, bool)>, nat),
> {
    if i < t.len() && t[i as int] == '{' {
        let j = sp_ws(t, i + 1);
        if j < t.len() && t[j as int] == '}' {
            Some((Seq::empty(), j + 1))
        } else {
            sp_automation_fields(t, j, fuel, Seq::empty())
        }
    } else {
        None
    }
}

pub open spec fn sp_dev_tools_fields(
    t: Seq<char>,
    i: nat,
    fuel: nat,
    hb: Option<DevToolInfoModel>,
    py: Option<DevToolInfoModel>,
    nd: Option<DevToolInfoModel>,
    nx: Option<NpxModel>,
    skip: Option<bool>,
) -> Option<(DevToolsModel, nat)>
    decreases fuel,
{
    if fuel == 0 {
        None
    } else {
        match sp_key(t, i) {
            None => None,
            Some((key, m)) => {
                let step: Option<
                    (
                        Option<DevToolInfoModel>,
                        Option<DevToolInfoModel>,
                        Option<DevToolInfoModel>,
                        Option<NpxModel>,
                        Option<bool>,
                        nat,
                    ),
                > = if key == "homebrew"@ {
                    if hb is Some {
                        None
                    } else {
                        match sp_tool_value(t, m, fuel) {
                            Some((v, p)) => Some((Some(v), py, nd, nx, skip, p)),
                            None => None,
                        }
                    }
                } else if key == "python"@ {
                    if py is Some {
                        None
                    } else {
                        match sp_tool_value(t, m, fuel) {
                            Some((v, p)) => Some((hb, Some(v), nd, nx, skip, p)),
                            None => None,
                        }
                    }
                } else if key == "node"@ {
                    if nd is Some {
                        None
                    } else {
                        match sp_tool_value(t, m, fuel) {
                            Some((v, p)) => Some((hb, py, Some(v), nx, skip, p)),
                            None => None,
                        }
                    }
                } else if key == "npx"@ {
                    if nx is Some {
                        None
                    } else {
                        match sp_npx_value(t, m, fuel) {
                            Some((v, p)) => Some((hb, py, nd, Some(v), skip, p)),
                            None => None,
                        }
                    }
                } else if key == "skipped"@ {
                    if skip is Some {
                        None
                    } else {
                        match sp_bool_value(t, m) {
                            Some((b, p)) => Some((hb, py, nd, nx, Some(b), p)),
                            None => None,
                        }
                    }
                } else {
                    match sp_skip_value(t, m, fuel) {
                        Some(p) => Some((hb, py, nd, nx, skip, p)),
                        None => None,
                    }
                };
                match step {
                    None => None,
                    Some((hb2, py2, nd2, nx2, skip2, p)) => match sp_after_member(t, p) {
                        None => None,
                        Some((done, q)) => if done {
                            match (hb2, py2, nd2, nx2, skip2) {
                                (Some(h), Some(pyv), Some(ndv), Some(nxv), Some(sv)) => Some(
                                    (
                                        DevToolsModel {
                                            homebrew: h,
                                            python: pyv,
                                            node: ndv,
                                            npx: nxv,
                                            skipped: sv,
                                        },
                                        q,
                                    ),
                                ),
                                _ => None,
                            }
                        } else {
                            sp_dev_tools_fields(
                                t,
                                q,
                                (fuel - 1) as nat,
                                hb2,
                                py2,
                                nd2,
                                nx2,
                                skip2,
                            )
                        },
                    },
                }
            },
        }
    }
}

pub open spec fn sp_dev_tools_value(t: Seq<char>, i: nat, fuel: nat) -> Option<
    (DevToolsModel, nat),
> {
    if i < t.len() && t[i as int] == '{' {
        let j = sp_ws(t, i + 1);
        if j < t.len() && t[j as int] == '}' {
            None
        } else {
            sp_dev_tools_fields(t, j, fuel, None, None, None, None, None)
        }
    } else {
        None
    }
}

pub open spec fn sp_permissions_fields(
    t: Seq<char>,
    i: nat,
    fuel: nat,
    acc_b: Option<bool>,
    auto: Option<Seq<(Seq<char>, bool)>>,
) -> Option<(PermissionsModel, nat)>
    decreases fuel,
{
    if fuel == 0 {
        None
    } else {
        match sp_key(t, i) {
            None => None,
            Some((key, m)) => {
                let step: Option<(Option<bool>, Option<Seq<(Seq<char>, bool)>>, nat)> = if key
                    == "accessibility"@ {
                    if acc_b is Some {
                        None
                    } else {
                        match sp_bool_value(t, m) {
                            Some((b, p)) => Some((Some(b), auto, p)),
                            None => None,
                        }
                    }
                } else if key == "automation"@ {
                    if auto is Some {
                        None
                    } else {
                        match sp_automation_value(t, m, fuel) {
                            Some((a, p)) => Some((acc_b, Some(a), p)),
                            None => None,
                        }
                    }
                } else {
                    match sp_skip_value(t, m, fuel) {
                        Some(p) => Some((acc_b, auto, p)),
                        None => None,
                    }
                };
                match step {
                    None => None,
                    Some((acc2, auto2, p)) => match sp_after_member(t, p) {
                        None => None,
                        Some((done, q)) => if done {
                            match (acc2, auto2) {
                                (Some(av), Some(mv)) => Some(
                                    (PermissionsModel { accessibility: av, automation: mv }, q),
                                ),
                                _ => None,
                            }
                        } else {
                            sp_permissions_fields(t, q, (fuel - 1) as nat, acc2, auto2)
                        },
                    },
                }
            },
        }
    }
}

pub open spec fn sp_permissions_value(t: Seq<char>, i: nat, fuel: nat) -> Option<
    (PermissionsModel, nat),
> {
    if i < t.len() && t[i as int] == '{' {
        let j = sp_ws(t, i + 1);
        if j < t.len() && t[j as int] == '}' {
            None
        } else {
            sp_permissions_fields(t, j, fuel, None, None)
        }
    } else {
        None
    }
}

pub open spec fn sp_data_fields(
    t: Seq<char>,
    i: nat,
    fuel: nat,
    perm: Option<PermissionsModel>,
    api: Option<ApiKeyModel>,
    tel: Option<TelegramModel>,
    dev: Option<DevToolsModel>,
) -> Option<(DataModel, nat)>
    decreases fuel,
{
    if fuel == 0 {
        None
    } else {
        match sp_key(t, i) {
            None => None,
            Some((key, m)) => {
                let step: Option<
                    (
                        Option<PermissionsModel>,
                        Option<ApiKeyModel>,
                        Option<TelegramModel>,
                        Option<DevToolsModel>,
                        nat,
                    ),
                > = if key == "permissions"@ {
                    if perm is Some {
                        None
                    } else {
                        match sp_permissions_value(t, m, fuel) {
                            Some((v, p)) => Some((Some(v), api, tel, dev, p)),
                            None => None,
                        }
                    }
                } else if key == "api_key"@ {
                    if api is Some {
                        None
                    } else {
                        match sp_api_key_value(t, m, fuel) {
                            Some((v, p)) => Some((perm, Some(v), tel, dev, p)),
                            None => None,
                        }
                    }
                } else if key == "telegram"@ {
                    if tel is Some {
                        None
                    } else {
                        match sp_telegram_value(t, m, fuel) {
                            Some((v, p)) => Some((perm, api, Some(v), dev, p)),
                            None => None,
                        }
                    }
                } else if key == "dev_tools"@ {
                    if dev is Some {
                        None
                    } else {
                        match sp_dev_tools_value(t, m, fuel) {
                            Some((v, p)) => Some((perm, api, tel, Some(v), p)),
                            None => None,
                        }
                    }
                } else {
                    match sp_skip_value(t, m, fuel) {
                        Some(p) => Some((perm, api, tel, dev, p)),
                        None => None,
                    }
                };
                match step {
                    None => None,
                    Some((perm2, api2, tel2, dev2, p)) => match sp_after_member(t, p) {
                        None => None,
                        Some((done, q)) => if done {
                            match (perm2, api2, tel2) {
                                (Some(pv), Some(av), Some(tv)) => Some(
                                    (
                                        DataModel {
                                            permissions: pv,
                                            api_key: av,
                                            telegram: tv,
                                            dev_tools: match dev2 {
                                                Some(dv) => dv,
                                                None => default_dev_tools(),
                                            },
                                        },
                                        q,
                                    ),
                                ),
                                _ => None,
                            }
                        } else {
                            sp_data_fields(t, q, (fuel - 1) as nat, perm2, api2, tel2, dev2)
                        },
                    },
                }
            },
        }
    }
}

pub open spec fn sp_data_value(t: Seq<char>, i: nat, fuel: nat) -> Option<(DataModel, nat)> {
    if i < t.len() && t[i as int] == '{' {
        let j = sp_ws(t, i + 1);
        if j < t.len() && t[j as int] == '}' {
            None
        } else {
            sp_data_fields(t, j, fuel, None, None, None, None)
        }
    } else {
        None
    }
}

pub open spec fn sp_state_fields(
    t: Seq<char>,
    i: nat,
    fuel: nat,
    ver: Option<u32>,
    comp: Option<bool>,
    step_s: Option<Seq<char>>,
    data: Option<DataModel>,
) -> Option<(StateModel, nat)>
    decreases fuel,
{
    if fuel == 0 {
        None
    } else {
        match sp_key(t, i) {
            None => None,
            Some((key, m)) => {
                let step: Option<
                    (Option<u32>, Option<bool>, Option<Seq<char>>, Option<DataModel>, nat),
                > = if key == "version"@ {
                    if ver is Some {
                        None
                    } else {
                        match sp_uint(t, m) {
                            Some((v, p)) => Some((Some(v), comp, step_s, data, p)),
                            None => None,
                        }
                    }
                } else if key == "completed"@ {
                    if comp is Some {
                        None
                    } else {
                        match sp_bool_value(t, m) {
                            Some((b, p)) => Some((ver, Some(b), step_s, data, p)),
                            None => None,
                        }
                    }
                } else if key == "current_step"@ {
                    if step_s is Some {
                        None
                    } else {
                        match sp_string_value(t, m) {
                            Some((s, p)) => Some((ver, comp, Some(s), data, p)),
                            None => None,
                        }
                    }
                } else if key == "data"@ {
                    if data is Some {
                        None
                    } else {
                        match sp_data_value(t, m, fuel) {
                            Some((d, p)) => Some((ver, comp, step_s, Some(d), p)),
                            None => None,
                        }
                    }
                } else {
                    match sp_skip_value(t, m, fuel) {
                        Some(p) => Some((ver, comp, step_s, data, p)),
                        None => None,
                    }
                };
                match step {
                    None => None,
                    Some((ver2, comp2, step2, data2, p)) => match sp_after_member(t, p) {
                        None => None,
                        Some((done, q)) => if done {
                            match (ver2, comp2, step2, data2) {
                                (Some(vv), Some(cv), Some(sv), Some(dv)) => Some(
                                    (
                                        StateModel {
                                            version: vv,
                                            completed: cv,
                                            current_step: sv,
                                            data: dv,
                                        },
                                        q,
                                    ),
                                ),
                                _ => None,
                            }
                        } else {
                            sp_state_fields(t, q, (fuel - 1) as nat, ver2, comp2, step2, data2)
                        },
                    },
                }
            },
        }
    }
}

pub open spec fn sp_state_value(t: Seq<char>, i: nat, fuel: nat) -> Option<(StateModel, nat)> {
    if i < t.len() && t[i as int] == '{' {
        let j = sp_ws(t, i + 1);
        if j < t.len() && t[j as int] == '}' {
            None
        } else {
            sp_state_fields(t, j, fuel, None, None, None, None)
        }
    } else {
        None
    }
}

/// The onboarding document the whole text denotes: optional surrounding
/// whitespace, one state object, nothing after it. `None` when the text is
/// not such a document.
pub open spec fn sp_document(t: Seq<char>) -> Option<StateModel> {
    let i = sp_ws(t, 0);
    match sp_state_value(t, i, t.len()) {
        Some((m, j)) => if sp_ws(t, j) == t.len() {
            Some(m)
        } else {
            None
        },
        None => None,
    }
}

fn assoc_put_from(acc: Vec<(String, bool)>, i: usize, key: String, b: bool) -> (r: Vec<
    (String, bool),
>)
    requires
        i <= acc.len(),
    ensures
        automation_view(r@) == assoc_set_from(automation_view(acc@), i as nat, key@, b),
    decreases acc.len() - i,
{
    let mut acc2 = acc;
    let ghost acc0 = acc2@;
    if i >= acc2.len() {
        acc2.push((key, b));
        proof {
            assert(automation_view(acc2@) =~= automation_view(acc0) + seq![(key@, b)]);
        }
        acc2
    } else {
        let same = {
            let pr = &acc2[i];
            pr.0 == key
        };
        if same {
            acc2.set(i, (key, b));
            proof {
                assert(automation_view(acc2@) =~= automation_view(acc0).update(
                    i as int,
                    (key@, b),
                ));
            }
            acc2
        } else {
            assoc_put_from(acc2, i + 1, key, b)
        }
    }
}

fn assoc_put(acc: Vec<(String, bool)>, key: String, b: bool) -> (r: Vec<(String, bool)>)
    ensures
        automation_view(r@) == assoc_set(automation_view(acc@), key@, b),
{
    assoc_put_from(acc, 0, key, b)
}

#[verifier::rlimit(50)]
fn tool_fields(
    s: &str,
    n: usize,
    i: usize,
    fuel: usize,
    inst: Option<bool>,
    ver: Option<String>,
) -> (r: Option<(DevToolInfo, usize)>)
    requires
        n == s@.len(),
        i <= n,
    ensures
        match r {
            Some((v, j)) => sp_tool_fields(s@, i as nat, fuel as nat, inst, opt_view(ver)) == Some(
                (v@, j as nat),
            ) && j <= n,
            None => sp_tool_fields(s@, i as nat, fuel as nat, inst, opt_view(ver)) is None,
        },
    decreases fuel,
{
    if fuel == 0 {
        return None;
    }
    match key_at(s, n, i) {
        None => None,
        Some((key, m)) => {
            let k_installed = String::from_str("installed");
            let k_version = String::from_str("version");
            let step: Option<(Option<bool>, Option<String>, usize)> = if key == k_installed {
                if inst.is_some() {
                    None
                } else {
                    match bool_value(s, n, m) {
                        Some((b, p)) => Some((Some(b), ver, p)),
                        None => None,
                    }
                }
            } else if key == k_version {
                if ver.is_some() {
                    None
                } else {
                    match string_value(s, n, m) {
                        Some((sv, p)) => Some((inst, Some(sv), p)),
                        None => None,
                    }
                }
            } else {
                match skip_value(s, n, m, fuel) {
                    Some(p) => Some((inst, ver, p)),
                    None => None,
                }
            };
            match step {
                None => None,
                Some((inst2, ver2, p)) => match after_member(s, n, p) {
                    None => None,
                    Some((done, q)) => if done {
                        match (inst2, ver2) {
                            (Some(iv), Some(vv)) => Some(
                                (DevToolInfo { installed: iv, version: vv }, q),
                            ),
                            _ => None,
                        }
                    } else {
                        tool_fields(s, n, q, fuel - 1, inst2, ver2)
                    },
                },
            }
        },
    }
}

fn tool_value(s: &str, n: usize, i: usize, fuel: usize) -> (r: Option<(DevToolInfo, usize)>)
    requires
        n == s@.len(),
        i <= n,
    ensures
        match r {
            Some((v, j)) => sp_tool_value(s@, i as nat, fuel as nat) == Some((v@, j as nat)) && j
                <= n,
            None => sp_tool_value(s@, i as nat, fuel as nat) is None,
        },
{
    if i < n && s.get_char(i) == '{' {
        let j = ws_to(s, n, i + 1);
        if j < n && s.get_char(j) == '}' {
            None
        } else {
            tool_fields(s, n, j, fuel, None, None)
        }
    } else {
        None
    }
}

#[verifier::rlimit(50)]
fn npx_fields(s: &str, n: usize, i: usize, fuel: usize, inst: Option<bool>) -> (r: Option<
    (NpxInfo, usize),
>)
    requires
        n == s@.len(),
        i <= n,
    ensures
        match r {
            Some((v, j)) => sp_npx_fields(s@, i as nat, fuel as nat, inst) == Some((v@, j as nat))
                && j <= n,
            None => sp_npx_fields(s@, i as nat, fuel as nat, inst) is None,
        },
    decreases fuel,
{
    if fuel == 0 {
        return None;
    }
    match key_at(s, n, i) {
        None => None,
        Some((key, m)) => {
            let k_installed = String::from_str("installed");
            let step: Option<(Option<bool>, usize)> = if key == k_installed {
                if inst.is_some() {
                    None
                } else {
                    match bool_value(s, n, m) {
                        Some((b, p)) => Some((Some(b), p)),
                        None => None,
                    }
                }
            } else {
                match skip_value(s, n, m, fuel) {
                    Some(p) => Some((inst, p)),
                    None => None,
                }
            };
            match step {
                None => None,
                Some((inst2, p)) => match after_member(s, n, p) {
                    None => None,
                    Some((done, q)) => if done {
                        match inst2 {
                            Some(iv) => Some((NpxInfo { installed: iv }, q)),
                            None => None,
                        }
                    } else {
                        npx_fields(s, n, q, fuel - 1, inst2)
                    },
                },
            }
        },
    }
}

fn npx_value(s: &str, n: usize, i: usize, fuel: usize) -> (r: Option<(NpxInfo, usize)>)
    requires
        n == s@.len(),
        i <= n,
    ensures
        match r {
            Some((v, j)) => sp_npx_value(s@, i as nat, fuel as nat) == Some((v@, j as nat)) && j
                <= n,
            None => sp_npx_value(s@, i as nat, fuel as nat) is None,
        },
{
    if i < n && s.get_char(i) == '{' {
        let j = ws_to(s, n, i + 1);
        if j < n && s.get_char(j) == '}' {
            None
        } else {
            npx_fields(s, n, j, fuel, None)
        }
    } else {
        None
    }
}

#[verifier::rlimit(50)]
fn telegram_fields(
    s: &str,
    n: usize,
    i: usize,
    fuel: usize,
    conf: Option<bool>,
    skip: Option<bool>,
) -> (r: Option<(TelegramData, usize)>)
    requires
        n == s@.len(),
        i <= n,
    ensures
        match r {
            Some((v, j)) => sp_telegram_fields(s@, i as nat, fuel as nat, conf, skip) == Some(
                (v@, j as nat),
            ) && j <= n,
            None => sp_telegram_fields(s@, i as nat, fuel as nat, conf, skip) is None,
        },
    decreases fuel,
{
    if fuel == 0 {
        return None;
    }
    match key_at(s, n, i) {
        None => None,
        Some((key, m)) => {
            let k_configured = String::from_str("configured");
            let k_skipped = String::from_str("skipped");
            let step: Option<(Option<bool>, Option<bool>, usize)> = if key == k_configured {
                if conf.is_some() {
                    None
                } else {
                    match bool_value(s, n, m) {
                        Some((b, p)) => Some((Some(b), skip, p)),
                        None => None,
                    }
                }
            } else if key == k_skipped {
                if skip.is_some() {
                    None
                } else {
                    match bool_value(s, n, m) {
                        Some((b, p)) => Some((conf, Some(b), p)),
                        None => None,
                    }
                }
            } else {
                match skip_value(s, n, m, fuel) {
                    Some(p) => Some((conf, skip, p)),
                    None => None,
                }
            };
            match step {
                None => None,
                Some((conf2, skip2, p)) => match after_member(s, n, p) {
                    None => None,
                    Some((done, q)) => if done {
                        match (conf2, skip2) {
                            (Some(cv), Some(sv)) => Some(
                                (TelegramData { configured: cv, skipped: sv }, q),
                            ),
                            _ => None,
                        }
                    } else {
                        telegram_fields(s, n, q, fuel - 1, conf2, skip2)
                    },
                },
            }
        },
    }
}

fn telegram_value(s: &str, n: usize, i: usize, fuel: usize) -> (r: Option<(TelegramData, usize)>)
    requires
        n == s@.len(),
        i <= n,
    ensures
        match r {
            Some((v, j)) => sp_telegram_value(s@, i as nat, fuel as nat) == Some((v@, j as nat))
                && j <= n,
            None => sp_telegram_value(s@, i as nat, fuel as nat) is None,
        },
{
    if i < n && s.get_char(i) == '{' {
        let j = ws_to(s, n, i + 1);
        if j < n && s.get_char(j) == '}' {
            None
        } else {
            telegram_fields(s, n, j, fuel, None, None)
        }
    } else {
        None
    }
}

#[verifier::rlimit(80)]
fn api_key_fields(
    s: &str,
    n: usize,
    i: usize,
    fuel: usize,
    prov: Option<String>,
    conf: Option<bool>,
    verif: Option<bool>,
) -> (r: Option<(ApiKeyData, usize)>)
    requires
        n == s@.len(),
        i <= n,
    ensures
        match r {
            Some((v, j)) => sp_api_key_fields(
                s@,
                i as nat,
                fuel as nat,
                opt_view(prov),
                conf,
                verif,
            ) == Some((v@, j as nat)) && j <= n,
            None => sp_api_key_fields(
                s@,
                i as nat,
                fuel as nat,
                opt_view(prov),
                conf,
                verif,
            ) is None,
        },
    decreases fuel,
{
    if fuel == 0 {
        return None;
    }
    match key_at(s, n, i) {
        None => None,
        Some((key, m)) => {
            let k_provider = String::from_str("provider");
            let k_configured = String::from_str("configured");
            let k_verified = String::from_str("verified");
            let step: Option<(Option<String>, Option<bool>, Option<bool>, usize)> = if key
                == k_provider {
                if prov.is_some() {
                    None
                } else {
                    match string_value(s, n, m) {
                        Some((sv, p)) => Some((Some(sv), conf, verif, p)),
                        None => None,
                    }
                }
            } else if key == k_configured {
                if conf.is_some() {
                    None
                } else {
                    match bool_value(s, n, m) {
                        Some((b, p)) => Some((prov, Some(b), verif, p)),
                        None => None,
                    }
                }
            } else if key == k_verified {
                if verif.is_some() {
                    None
                } else {
                    match bool_value(s, n, m) {
                        Some((b, p)) => Some((prov, conf, Some(b), p)),
                        None => None,
                    }
                }
            } else {
                match skip_value(s, n, m, fuel) {
                    Some(p) => Some((prov, conf, verif, p)),
                    None => None,
                }
            };
            match step {
                None => None,
                Some((prov2, conf2, verif2, p)) => match after_member(s, n, p) {
                    None => None,
                    Some((done, q)) => if done {
                        match (prov2, conf2, verif2) {
                            (Some(pv), Some(cv), Some(vv)) => Some(
                                (ApiKeyData { provider: pv, configured: cv, verified: vv }, q),
                            ),
                            _ => None,
                        }
                    } else {
                        api_key_fields(s, n, q, fuel - 1, prov2, conf2, verif2)
                    },
                },
            }
        },
    }
}

fn api_key_value(s: &str, n: usize, i: usize, fuel: usize) -> (r: Option<(ApiKeyData, usize)>)
    requires
        n == s@.len(),
        i <= n,
    ensures
        match r {
            Some((v, j)) => sp_api_key_value(s@, i as nat, fuel as nat) == Some((v@, j as nat))
                && j <= n,
            None => sp_api_key_value(s@, i as nat, fuel as nat) is None,
        },
{
    if i < n && s.get_char(i) == '{' {
        let j = ws_to(s, n, i + 1);
        if j < n && s.get_char(j) == '}' {
            None
        } else {
            api_key_fields(s, n, j, fuel, None, None, None)
        }
    } else {
        None
    }
}

#[verifier::rlimit(50)]
fn automation_fields(s: &str, n: usize, i: usize, fuel: usize, acc: Vec<(String, bool)>) -> (r:
    Option<(Vec<(String, bool)>, usize)>)
    requires
        n == s@.len(),
        i <= n,
    ensures
        match r {
            Some((v, j)) => sp_automation_fields(s@, i as nat, fuel as nat, automation_view(acc@))
                == Some((automation_view(v@), j as nat)) && j <= n,
            None => sp_automation_fields(s@, i as nat, fuel as nat, automation_view(acc@)) is None,
        },
    decreases fuel,
{
    if fuel == 0 {
        return None;
    }
    match key_at(s, n, i) {
        None => None,
        Some((key, m)) => match bool_value(s, n, m) {
            None => None,
            Some((b, p)) => {
                let acc2 = assoc_put(acc, key, b);
                match after_member(s, n, p) {
                    None => None,
                    Some((done, q)) => if done {
                        Some((acc2, q))
                    } else {
                        automation_fields(s, n, q, fuel - 1, acc2)
                    },
                }
            },
        },
    }
}

fn automation_value(s: &str, n: usize, i: usize, fuel: usize) -> (r: Option<
    (Vec<(String, bool)>, usize),
>)
    requires
        n == s@.len(),
        i <= n,
    ensures
        match r {
            Some((v, j)) => sp_automation_value(s@, i as nat, fuel as nat) == Some(
                (automation_view(v@), j as nat),
            ) && j <= n,
            None => sp_automation_value(s@, i as nat, fuel as nat) is None,
        },
{
    if i < n && s.get_char(i) == '{' {
        let j = ws_to(s, n, i + 1);
        if j < n && s.get_char(j) == '}' {
            let v: Vec<(String, bool)> = Vec::new();
            proof {
                assert(automation_view(v@) =~= Seq::<(Seq<char>, bool)>::empty());
            }
            Some((v, j + 1))
        } else {
            let v: Vec<(String, bool)> = Vec::new();
            proof {
                assert(automation_view(v@) =~= Seq::<(Seq<char>, bool)>::empty());
            }
            automation_fields(s, n, j, fuel, v)
        }
    } else {
        None
    }
}

#[verifier::rlimit(100)]
fn dev_tools_fields(
    s: &str,
    n: usize,
    i: usize,
    fuel: usize,
    hb: Option<DevToolInfo>,
    py: Option<DevToolInfo>,
    nd: Option<DevToolInfo>,
    nx: Option<NpxInfo>,
    skip: Option<bool>,
) -> (r: Option<(DevToolsData, usize)>)
    requires
        n == s@.len(),
        i <= n,
    ensures
        match r {
            Some((v, j)) => sp_dev_tools_fields(
                s@,
                i as nat,
                fuel as nat,
                opt_view(hb),
                opt_view(py),
                opt_view(nd),
                opt_view(nx),
                skip,
            ) == Some((v@, j as nat)) && j <= n,
            None => sp_dev_tools_fields(
                s@,
                i as nat,
                fuel as nat,
                opt_view(hb),
                opt_view(py),
                opt_view(nd),
                opt_view(nx),
                skip,
            ) is None,
        },
    decreases fuel,
{
    if fuel == 0 {
        return None;
    }
    match key_at(s, n, i) {
        None => None,
        Some((key, m)) => {
            let k_homebrew = String::from_str("homebrew");
            let k_python = String::from_str("python");
            let k_node = String::from_str("node");
            let k_npx = String::from_str("npx");
            let k_skipped = String::from_str("skipped");
            let step: Option<
                (
                    Option<DevToolInfo>,
                    Option<DevToolInfo>,
                    Option<DevToolInfo>,
                    Option<NpxInfo>,
                    Option<bool>,
                    usize,
                ),
            > = if key == k_homebrew {
                if hb.is_some() {
                    None
                } else {
                    match tool_value(s, n, m, fuel) {
                        Some((v, p)) => Some((Some(v), py, nd, nx, skip, p)),
                        None => None,
                    }
                }
            } else if key == k_python {
                if py.is_some() {
                    None
                } else {
                    match tool_value(s, n, m, fuel) {
                        Some((v, p)) => Some((hb, Some(v), nd, nx, skip, p)),
                        None => None,
                    }
                }
            } else if key == k_node {
                if nd.is_some() {
                    None
                } else {
                    match tool_value(s, n, m, fuel) {
                        Some((v, p)) => Some((hb, py, Some(v), nx, skip, p)),
                        None => None,
                    }
                }
            } else if key == k_npx {
                if nx.is_some() {
                    None
                } else {
                    match npx_value(s, n, m, fuel) {
                        Some((v, p)) => Some((hb, py, nd, Some(v), skip, p)),
                        None => None,
                    }
                }
            } else if key == k_skipped {
                if skip.is_some() {
                    None
                } else {
                    match bool_value(s, n, m) {
                        Some((b, p)) => Some((hb, py, nd, nx, Some(b), p)),
                        None => None,
                    }
                }
            } else {
                match skip_value(s, n, m, fuel) {
                    Some(p) => Some((hb, py, nd, nx, skip, p)),
                    None => None,
                }
            };
            match step {
                None => None,
                Some((hb2, py2, nd2, nx2, skip2, p)) => match after_member(s, n, p) {
                    None => None,
                    Some((done, q)) => if done {
                        match (hb2, py2, nd2, nx2, skip2) {
                            (Some(h), Some(pyv), Some(ndv), Some(nxv), Some(sv)) => Some(
                                (
                                    DevToolsData {
                                        homebrew: h,
                                        python: pyv,
                                        node: ndv,
                                        npx: nxv,
                                        skipped: sv,
                                    },
                                    q,
                                ),
                            ),
                            _ => None,
                        }
                    } else {
                        dev_tools_fields(s, n, q, fuel - 1, hb2, py2, nd2, nx2, skip2)
                    },
                },
            }
        },
    }
}

fn dev_tools_value(s: &str, n: usize, i: usize, fuel: usize) -> (r: Option<(DevToolsData, usize)>)
    requires
        n == s@.len(),
        i <= n,
    ensures
        match r {
            Some((v, j)) => sp_dev_tools_value(s@, i as nat, fuel as nat) == Some((v@, j as nat))
                && j <= n,
            None => sp_dev_tools_value(s@, i as nat, fuel as nat) is None,
        },
{
    if i < n && s.get_char(i) == '{' {
        let j = ws_to(s, n, i + 1);
        if j < n && s.get_char(j) == '}' {
            None
        } else {
            dev_tools_fields(s, n, j, fuel, None, None, None, None, None)
        }
    } else {
        None
    }
}

#[verifier::rlimit(80)]
fn permissions_fields(
    s: &str,
    n: usize,
    i: usize,
    fuel: usize,
    acc_b: Option<bool>,
    auto: Option<Vec<(String, bool)>>,
) -> (r: Option<(PermissionsData, usize)>)
    requires
        n == s@.len(),
        i <= n,
    ensures
        match r {
            Some((v, j)) => sp_permissions_fields(
                s@,
                i as nat,
                fuel as nat,
                acc_b,
                opt_auto_view(auto),
            ) == Some((v@, j as nat)) && j <= n,
            None => sp_permissions_fields(
                s@,
                i as nat,
                fuel as nat,
                acc_b,
                opt_auto_view(auto),
            ) is None,
        },
    decreases fuel,
{
    if fuel == 0 {
        return None;
    }
    match key_at(s, n, i) {
        None => None,
        Some((key, m)) => {
            let k_accessibility = String::from_str("accessibility");
            let k_automation = String::from_str("automation");
            let step: Option<(Option<bool>, Option<Vec<(String, bool)>>, usize)> = if key
                == k_accessibility {
                if acc_b.is_some() {
                    None
                } else {
                    match bool_value(s, n, m) {
                        Some((b, p)) => Some((Some(b), auto, p)),
                        None => None,
                    }
                }
            } else if key == k_automation {
                if auto.is_some() {
                    None
                } else {
                    match automation_value(s, n, m, fuel) {
                        Some((a, p)) => Some((acc_b, Some(a), p)),
                        None => None,
                    }
                }
            } else {
                match skip_value(s, n, m, fuel) {
                    Some(p) => Some((acc_b, auto, p)),
                    None => None,
                }
            };
            match step {
                None => None,
                Some((acc2, auto2, p)) => match after_member(s, n, p) {
                    None => None,
                    Some((done, q)) => if done {
                        match (acc2, auto2) {
                            (Some(av), Some(mv)) => Some(
                                (PermissionsData { accessibility: av, automation: mv }, q),
                            ),
                            _ => None,
                        }
                    } else {
                        permissions_fields(s, n, q, fuel - 1, acc2, auto2)
                    },
                },
            }
        },
    }
}

fn permissions_value(s: &str, n: usize, i: usize, fuel: usize) -> (r: Option<
    (PermissionsData, usize),
>)
    requires
        n == s@.len(),
        i <= n,
    ensures
        match r {
            Some((v, j)) => sp_permissions_value(s@, i as nat, fuel as nat) == Some((v@, j as nat))
                && j <= n,
            None => sp_permissions_value(s@, i as nat, fuel as nat) is None,
        },
{
    if i < n && s.get_char(i) == '{' {
        let j = ws_to(s, n, i + 1);
        if j < n && s.get_char(j) == '}' {
            None
        } else {
            permissions_fields(s, n, j, fuel, None, None)
        }
    } else {
        None
    }
}

#[verifier::rlimit(100)]
fn data_fields(
    s: &str,
    n: usize,
    i: usize,
    fuel: usize,
    perm: Option<PermissionsData>,
    api: Option<ApiKeyData>,
    tel: Option<TelegramData>,
    dev: Option<DevToolsData>,
) -> (r: Option<(OnboardingData, usize)>)
    requires
        n == s@.len(),
        i <= n,
    ensures
        match r {
            Some((v, j)) => sp_data_fields(
                s@,
                i as nat,
                fuel as nat,
                opt_view(perm),
                opt_view(api),
                opt_view(tel),
                opt_view(dev),
            ) == Some((v@, j as nat)) && j <= n,
            None => sp_data_fields(
                s@,
                i as nat,
                fuel as nat,
                opt_view(perm),
                opt_view(api),
                opt_view(tel),
                opt_view(dev),
            ) is None,
        },
    decreases fuel,
{
    if fuel == 0 {
        return None;
    }
    match key_at(s, n, i) {
        None => None,
        Some((key, m)) => {
            let k_permissions = String::from_str("permissions");
            let k_api_key = String::from_str("api_key");
            let k_telegram = String::from_str("telegram");
            let k_dev_tools = String::from_str("dev_tools");
            let step: Option<
                (
                    Option<PermissionsData>,
                    Option<ApiKeyData>,
                    Option<TelegramData>,
                    Option<DevToolsData>,
                    usize,
                ),
            > = if key == k_permissions {
                if perm.is_some() {
                    None
                } else {
                    match permissions_value(s, n, m, fuel) {
                        Some((v, p)) => Some((Some(v), api, tel, dev, p)),
                        None => None,
                    }
                }
            } else if key == k_api_key {
                if api.is_some() {
                    None
                } else {
                    match api_key_value(s, n, m, fuel) {
                        Some((v, p)) => Some((perm, Some(v), tel, dev, p)),
                        None => None,
                    }
                }
            } else if key == k_telegram {
                if tel.is_some() {
                    None
                } else {
                    match telegram_value(s, n, m, fuel) {
                        Some((v, p)) => Some((perm, api, Some(v), dev, p)),
                        None => None,
                    }
                }
            } else if key == k_dev_tools {
                if dev.is_some() {
                    None
                } else {
                    match dev_tools_value(s, n, m, fuel) {
                        Some((v, p)) => Some((perm, api, tel, Some(v), p)),
                        None => None,
                    }
                }
            } else {
                match skip_value(s, n, m, fuel) {
                    Some(p) => Some((perm, api, tel, dev, p)),
                    None => None,
                }
            };
            match step {
                None => None,
                Some((perm2, api2, tel2, dev2, p)) => match after_member(s, n, p) {
                    None => None,
                    Some((done, q)) => if done {
                        match (perm2, api2, tel2) {
                            (Some(pv), Some(av), Some(tv)) => Some(
                                (
                                    OnboardingData {
                                        permissions: pv,
                                        api_key: av,
                                        telegram: tv,
                                        dev_tools: match dev2 {
                                            Some(dv) => dv,
                                            None => DevToolsData::default(),
                                        },
                                    },
                                    q,
                                ),
                            ),
                            _ => None,
                        }
                    } else {
                        data_fields(s, n, q, fuel - 1, perm2, api2, tel2, dev2)
                    },
                },
            }
        },
    }
}

fn data_value(s: &str, n: usize, i: usize, fuel: usize) -> (r: Option<(OnboardingData, usize)>)
    requires
        n == s@.len(),
        i <= n,
    ensures
        match r {
            Some((v, j)) => sp_data_value(s@, i as nat, fuel as nat) == Some((v@, j as nat)) && j
                <= n,
            None => sp_data_value(s@, i as nat, fuel as nat) is None,
        },
{
    if i < n && s.get_char(i) == '{' {
        let j = ws_to(s, n, i + 1);
        if j < n && s.get_char(j) == '}' {
            None
        } else {
            data_fields(s, n, j, fuel, None, None, None, None)
        }
    } else {
        None
    }
}

#[verifier::rlimit(100)]
fn state_fields(
    s: &str,
    n: usize,
    i: usize,
    fuel: usize,
    ver: Option<u32>,
    comp: Option<bool>,
    step_s: Option<String>,
    data: Option<OnboardingData>,
) -> (r: Option<(OnboardingState, usize)>)
    requires
        n == s@.len(),
        i <= n,
    ensures
        match r {
            Some((v, j)) => sp_state_fields(
                s@,
                i as nat,
                fuel as nat,
                ver,
                comp,
                opt_view(step_s),
                opt_view(data),
            ) == Some((v@, j as nat)) && j <= n,
            None => sp_state_fields(
                s@,
                i as nat,
                fuel as nat,
                ver,
                comp,
                opt_view(step_s),
                opt_view(data),
            ) is None,
        },
    decreases fuel,
{
    if fuel == 0 {
        return None;
    }
    match key_at(s, n, i) {
        None => None,
        Some((key, m)) => {
            let k_version = String::from_str("version");
            let k_completed = String::from_str("completed");
            let k_current_step = String::from_str("current_step");
            let k_data = String::from_str("data");
            let step: Option<
                (Option<u32>, Option<bool>, Option<String>, Option<OnboardingData>, usize),
            > = if key == k_version {
                if ver.is_some() {
                    None
                } else {
                    match uint_value(s, n, m) {
                        Some((v, p)) => Some((Some(v), comp, step_s, data, p)),
                        None => None,
                    }
                }
            } else if key == k_completed {
                if comp.is_some() {
                    None
                } else {
                    match bool_value(s, n, m) {
                        Some((b, p)) => Some((ver, Some(b), step_s, data, p)),
                        None => None,
                    }
                }
            } else if key == k_current_step {
                if step_s.is_some() {
                    None
                } else {
                    match string_value(s, n, m) {
                        Some((sv, p)) => Some((ver, comp, Some(sv), data, p)),
                        None => None,
                    }
                }
            } else if key == k_data {
                if data.is_some() {
                    None
                } else {
                    match data_value(s, n, m, fuel) {
                        Some((d, p)) => Some((ver, comp, step_s, Some(d), p)),
                        None => None,
                    }
                }
            } else {
                match skip_value(s, n, m, fuel) {
                    Some(p) => Some((ver, comp, step_s, data, p)),
                    None => None,
                }
            };
            match step {
                None => None,
                Some((ver2, comp2, step2, data2, p)) => match after_member(s, n, p) {
                    None => None,
                    Some((done, q)) => if done {
                        match (ver2, comp2, step2, data2) {
                            (Some(vv), Some(cv), Some(sv), Some(dv)) => Some(
                                (
                                    OnboardingState {
                                        version: vv,
                                        completed: cv,
                                        current_step: sv,
                                        data: dv,
                                    },
                                    q,
                                ),
                            ),
                            _ => None,
                        }
                    } else {
                        state_fields(s, n, q, fuel - 1, ver2, comp2, step2, data2)
                    },
                },
            }
        },
    }
}

fn state_value(s: &str, n: usize, i: usize, fuel: usize) -> (r: Option<(OnboardingState, usize)>)
    requires
        n == s@.len(),
        i <= n,
    ensures
        match r {
            Some((v, j)) => sp_state_value(s@, i as nat, fuel as nat) == Some((v@, j as nat)) && j
                <= n,
            None => sp_state_value(s@, i as nat, fuel as nat) is None,
        },
{
    if i < n && s.get_char(i) == '{' {
        let j = ws_to(s, n, i + 1);
        if j < n && s.get_char(j) == '}' {
            None
        } else {
            state_fields(s, n, j, fuel, None, None, None, None)
        }
    } else {
        None
    }
}

/// The error text carried when the state file exists but does not hold a
/// well-formed onboarding document.
pub open spec fn corrupt_msg() -> Seq<char> {
    "onboarding state file is corrupt"@
}

/// Parse a whole onboarding document: exactly what [`sp_document`] allows
/// succeeds, with its value; anything else is the corruption error.
pub fn parse_document(s: &str) -> (r: Result<OnboardingState, String>)
    ensures
        match r {
            Ok(st) => sp_document(s@) == Some(st@),
            Err(e) => sp_document(s@) is None && e@ == corrupt_msg(),
        },
{
    let n = s.unicode_len();
    let i = ws_to(s, n, 0);
    match state_value(s, n, i, n) {
        Some((st, j)) => {
            let k = ws_to(s, n, j);
            if k == n {
                Ok(st)
            } else {
                Err(String::from_str("onboarding state file is corrupt"))
            }
        },
        None => Err(String::from_str("onboarding state file is corrupt")),
    }
}

} // verus!
