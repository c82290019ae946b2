//! The onboarding progress document: the wizard's persisted state, its
//! mathematical model, and the structural default used on first run.

use vstd::prelude::*;

verus! {

/// Spec-level model of [`OnboardingState`]: strings as character sequences.
pub ghost struct StateModel {
    pub version: u32,
    pub completed: bool,
    pub current_step: Seq<char>,
    pub data: DataModel,
}

/// Spec-level model of [`OnboardingData`].
pub ghost struct DataModel {
    pub permissions: PermissionsModel,
    pub api_key: ApiKeyModel,
    pub telegram: TelegramModel,
    pub dev_tools: DevToolsModel,
}

/// Spec-level model of [`PermissionsData`]. The automation capabilities are
/// an ordered association list from capability name to granted-flag.
pub ghost struct PermissionsModel {
    pub accessibility: bool,
    pub automation: Seq<(Seq<char>, bool)>,
}

/// Spec-level model of [`ApiKeyData`].
pub ghost struct ApiKeyModel {
    pub provider: Seq<char>,
    pub configured: bool,
    pub verified: bool,
}

/// Spec-level model of [`TelegramData`].
pub ghost struct TelegramModel {
    pub configured: bool,
    pub skipped: bool,
}

/// Spec-level model of [`DevToolInfo`].
pub ghost struct DevToolInfoModel {
    pub installed: bool,
    pub version: Seq<char>,
}

/// Spec-level model of [`NpxInfo`].
pub ghost struct NpxModel {
    pub installed: bool,
}

/// Spec-level model of [`DevToolsData`].
pub ghost struct DevToolsModel {
    pub homebrew: DevToolInfoModel,
    pub python: DevToolInfoModel,
    pub node: DevToolInfoModel,
    pub npx: NpxModel,
    pub skipped: bool,
}

/// Root persisted document: the wizard's whole progress, read and written
/// wholesale.
#[derive(Debug, Clone, PartialEq, Eq)]
pub struct OnboardingState {
    pub version: u32,
    pub completed: bool,
    pub current_step: String,
    pub data: OnboardingData,
}

/// Wizard-collected facts.
#[derive(Debug, Clone, PartialEq, Eq)]
pub struct OnboardingData {
    pub permissions: PermissionsData,
    pub api_key: ApiKeyData,
    pub telegram: TelegramData,
    pub dev_tools: DevToolsData,
}

/// OS permission grants. `automation` maps a capability name to whether the
/// grant was obtained; it is kept as an ordered list of pairs whose keys are
/// meant to be distinct (see [`PermissionsData::wf`]).
#[derive(Debug, Clone, PartialEq, Eq)]
pub struct PermissionsData {
    pub accessibility: bool,
    pub automation: Vec<(String, bool)>,
}

/// API key configuration status.
#[derive(Debug, Clone, PartialEq, Eq)]
pub struct ApiKeyData {
    pub provider: String,
    pub configured: bool,
    pub verified: bool,
}

/// Telegram integration status.
#[derive(Debug, Clone, PartialEq, Eq)]
pub struct TelegramData {
    pub configured: bool,
    pub skipped: bool,
}

/// Status of one optional local developer tool.
#[derive(Debug, Clone, PartialEq, Eq)]
pub struct DevToolInfo {
    pub installed: bool,
    pub version: String,
}

/// Status of the npx launcher (no version recorded).
#[derive(Debug, Clone, PartialEq, Eq)]
pub struct NpxInfo {
    pub installed: bool,
}

/// Status of all optional local developer tools.
#[derive(Debug, Clone, PartialEq, Eq)]
pub struct DevToolsData {
    pub homebrew: DevToolInfo,
    pub python: DevToolInfo,
    pub node: DevToolInfo,
    pub npx: NpxInfo,
    pub skipped: bool,
}

/// The association-list view of an automation vector.
pub open spec fn automation_view(v: Seq<(String, bool)>) -> Seq<(Seq<char>, bool)> {
    v.map_values(|p: (String, bool)| (p.0@, p.1))
}

/// Pairwise-distinct automation capability names, as a map's keys are.
pub open spec fn distinct_keys(s: Seq<(Seq<char>, bool)>) -> bool {
    forall|a: int, b: int| 0 <= a < b < s.len() ==> (#[trigger] s[a]).0 != (#[trigger] s[b]).0
}

impl PermissionsModel {
    /// Well-formed: the automation keys are pairwise distinct.
    pub open spec fn wf(&self) -> bool {
        distinct_keys(self.automation)
    }
}

impl PermissionsData {
    /// Well-formed: the automation capability names are pairwise distinct,
    /// as the keys of the map this list stands for.
    pub open spec fn wf(&self) -> bool {
        distinct_keys(automation_view(self.automation@))
    }
}

impl StateModel {
    /// Well-formed document: its automation list has distinct keys, so the
    /// document survives a write and read unchanged.
    pub open spec fn wf(&self) -> bool {
        self.data.permissions.wf()
    }
}

impl View for PermissionsData {
    type V = PermissionsModel;

    open spec fn view(&self) -> PermissionsModel {
        PermissionsModel {
            accessibility: self.accessibility,
            automation: automation_view(self.automation@),
        }
    }
}

impl View for ApiKeyData {
    type V = ApiKeyModel;

    open spec fn view(&self) -> ApiKeyModel {
        ApiKeyModel {
            provider: self.provider@,
            configured: self.configured,
            verified: self.verified,
        }
    }
}

impl View for TelegramData {
    type V = TelegramModel;

    open spec fn view(&self) -> TelegramModel {
        TelegramModel { configured: self.configured, skipped: self.skipped }
    }
}

impl View for DevToolInfo {
    type V = DevToolInfoModel;

    open spec fn view(&self) -> DevToolInfoModel {
        DevToolInfoModel { installed: self.installed, version: self.version@ }
    }
}

impl View for NpxInfo {
    type V = NpxModel;

    open spec fn view(&self) -> NpxModel {
        NpxModel { installed: self.installed }
    }
}

impl View for DevToolsData {
    type V = DevToolsModel;

    open spec fn view(&self) -> DevToolsModel {
        DevToolsModel {
            homebrew: self.homebrew@,
            python: self.python@,
            node: self.node@,
            npx: self.npx@,
            skipped: self.skipped,
        }
    }
}

impl View for OnboardingData {
    type V = DataModel;

    open spec fn view(&self) -> DataModel {
        DataModel {
            permissions: self.permissions@,
            api_key: self.api_key@,
            telegram: self.telegram@,
            dev_tools: self.dev_tools@,
        }
    }
}

impl View for OnboardingState {
    type V = StateModel;

    open spec fn view(&self) -> StateModel {
        StateModel {
            version: self.version,
            completed: self.completed,
            current_step: self.current_step@,
            data: self.data@,
        }
    }
}

/// The automation list of a freshly created document: exactly these five
/// capabilities, none granted.
pub open spec fn default_automation() -> Seq<(Seq<char>, bool)> {
    seq![
        ("Mail"@, false),
        ("Calendar"@, false),
        ("Reminders"@, false),
        ("Notes"@, false),
        ("Safari"@, false),
    ]
}

/// The developer-tools section of a freshly created document: nothing
/// installed, empty version strings, not skipped.
pub open spec fn default_dev_tools() -> DevToolsModel {
    DevToolsModel {
        homebrew: DevToolInfoModel { installed: false, version: Seq::empty() },
        python: DevToolInfoModel { installed: false, version: Seq::empty() },
        node: DevToolInfoModel { installed: false, version: Seq::empty() },
        npx: NpxModel { installed: false },
        skipped: false,
    }
}

/// A freshly created document: version 1, not completed, at the welcome
/// step, with no permission granted, the openai provider unconfigured, the
/// Telegram integration untouched and the developer tools at their default.
pub open spec fn default_state() -> StateModel {
    StateModel {
        version: 1,
        completed: false,
        current_step: "welcome"@,
        data: DataModel {
            permissions: PermissionsModel {
                accessibility: false,
                automation: default_automation(),
            },
            api_key: ApiKeyModel { provider: "openai"@, configured: false, verified: false },
            telegram: TelegramModel { configured: false, skipped: false },
            dev_tools: default_dev_tools(),
        },
    }
}

impl Default for DevToolsData {
    /// The default developer-tools section.
    fn default() -> (r: Self)
        ensures
            r@ == default_dev_tools(),
    {
        DevToolsData {
            homebrew: DevToolInfo { installed: false, version: String::new() },
            python: DevToolInfo { installed: false, version: String::new() },
            node: DevToolInfo { installed: false, version: String::new() },
            npx: NpxInfo { installed: false },
            skipped: false,
        }
    }
}

impl Default for OnboardingState {
    /// The structural default document, returned whenever no state file
    /// exists yet.
    fn default() -> (r: Self)
        ensures
            r@ == default_state(),
    {
        let mut automation: Vec<(String, bool)> = Vec::new();
        automation.push((String::from_str("Mail"), false));
        automation.push((String::from_str("Calendar"), false));
        automation.push((String::from_str("Reminders"), false));
        automation.push((String::from_str("Notes"), false));
        automation.push((String::from_str("Safari"), false));
        let r = OnboardingState {
            version: 1,
            completed: false,
            current_step: String::from_str("welcome"),
            data: OnboardingData {
                permissions: PermissionsData { accessibility: false, automation },
                api_key: ApiKeyData {
                    provider: String::from_str("openai"),
                    configured: false,
                    verified: false,
                },
                telegram: TelegramData { configured: false, skipped: false },
                dev_tools: DevToolsData::default(),
            },
        };
        proof {
            assert(r@.data.permissions.automation =~= default_automation());
            assert(r@ == default_state());
        }
        r
    }
}

} // verus!
