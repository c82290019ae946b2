use macbot_core::lifecycle::{parse_pid, shutdown_action};
use macbot_core::parse::parse_document;
use macbot_core::probe::{accessibility_trusted, Platform};
use macbot_core::state::{
    ApiKeyData, DevToolInfo, DevToolsData, NpxInfo, OnboardingData, OnboardingState,
    PermissionsData, TelegramData,
};
use macbot_core::store::{config_text, read_state, write_state_text};

fn default_state() -> OnboardingState {
    OnboardingState::default()
}

fn sample_state() -> OnboardingState {
    OnboardingState {
        version: 1,
        completed: true,
        current_step: String::from("api_key"),
        data: OnboardingData {
            permissions: PermissionsData {
                accessibility: true,
                automation: vec![
                    (String::from("Mail"), true),
                    (String::from("Calendar"), false),
                ],
            },
            api_key: ApiKeyData {
                provider: String::from("openai"),
                configured: true,
                verified: false,
            },
            telegram: TelegramData {
                configured: false,
                skipped: true,
            },
            dev_tools: DevToolsData {
                homebrew: DevToolInfo {
                    installed: true,
                    version: String::from("4.1.0"),
                },
                python: DevToolInfo {
                    installed: false,
                    version: String::new(),
                },
                node: DevToolInfo {
                    installed: true,
                    version: String::from("v20.1.0"),
                },
                npx: NpxInfo { installed: true },
                skipped: false,
            },
        },
    }
}

#[test]
fn fresh_read_returns_default() {
    let st = read_state(None).expect("a missing file is not an error");
    assert_eq!(st.version, 1);
    assert!(!st.completed);
    assert_eq!(st.current_step, "welcome");
    let auto = &st.data.permissions.automation;
    assert_eq!(auto.len(), 5);
    let names: Vec<&str> = auto.iter().map(|p| p.0.as_str()).collect();
    assert_eq!(names, vec!["Mail", "Calendar", "Reminders", "Notes", "Safari"]);
    assert!(auto.iter().all(|p| !p.1));
    assert!(!st.data.permissions.accessibility);
    assert_eq!(st.data.api_key.provider, "openai");
    assert!(!st.data.api_key.configured);
    assert!(!st.data.api_key.verified);
    assert!(!st.data.telegram.configured);
    assert!(!st.data.telegram.skipped);
    assert_eq!(st.data.dev_tools, DevToolsData::default());
}

#[test]
fn default_dev_tools_fields() {
    let d = DevToolsData::default();
    assert!(!d.homebrew.installed);
    assert_eq!(d.homebrew.version, "");
    assert!(!d.python.installed);
    assert_eq!(d.python.version, "");
    assert!(!d.node.installed);
    assert_eq!(d.node.version, "");
    assert!(!d.npx.installed);
    assert!(!d.skipped);
}

#[test]
fn round_trip_default() {
    let s = default_state();
    let text = write_state_text(&s);
    let back = read_state(Some(&text)).expect("own output parses");
    assert_eq!(back, s);
}

#[test]
fn round_trip_sample() {
    let s = sample_state();
    let text = write_state_text(&s);
    let back = parse_document(&text).expect("own output parses");
    assert_eq!(back, s);
}

#[test]
fn round_trip_escaped_strings() {
    let mut s = sample_state();
    s.current_step = String::from("a\"b\\c\nd\te\rf\u{8}g\u{c}h\u{1}i\u{1f}j/ü漢");
    s.data.api_key.provider = String::from("");
    s.data.permissions.automation = vec![(String::from("we ird \"key\"\n"), true)];
    let text = write_state_text(&s);
    let back = parse_document(&text).expect("own output parses");
    assert_eq!(back, s);
}

#[test]
fn round_trip_empty_automation() {
    let mut s = default_state();
    s.data.permissions.automation = Vec::new();
    let text = write_state_text(&s);
    assert!(text.contains("\"automation\": {}"));
    let back = parse_document(&text).expect("own output parses");
    assert_eq!(back, s);
}

#[test]
fn round_trip_large_version() {
    let mut s = default_state();
    s.version = 4294967295;
    let back = parse_document(&write_state_text(&s)).expect("own output parses");
    assert_eq!(back.version, 4294967295);
}

#[test]
fn rendered_default_is_pretty_and_exact() {
    let text = write_state_text(&default_state());
    let expected = "{\n  \"version\": 1,\n  \"completed\": false,\n  \"current_step\": \"welcome\",\n  \"data\": {\n    \"permissions\": {\n      \"accessibility\": false,\n      \"automation\": {\n        \"Mail\": false,\n        \"Calendar\": false,\n        \"Reminders\": false,\n        \"Notes\": false,\n        \"Safari\": false\n      }\n    },\n    \"api_key\": {\n      \"provider\": \"openai\",\n      \"configured\": false,\n      \"verified\": false\n    },\n    \"telegram\": {\n      \"configured\": false,\n      \"skipped\": false\n    },\n    \"dev_tools\": {\n      \"homebrew\": {\n        \"installed\": false,\n        \"version\": \"\"\n      },\n      \"python\": {\n        \"installed\": false,\n        \"version\": \"\"\n      },\n      \"node\": {\n        \"installed\": false,\n        \"version\": \"\"\n      },\n      \"npx\": {\n        \"installed\": false\n      },\n      \"skipped\": false\n    }\n  }\n}";
    assert_eq!(text, expected);
}

#[test]
fn config_absent_is_empty() {
    assert_eq!(config_text(None), "");
}

#[test]
fn config_verbatim() {
    let content = String::from("API_KEY=abc123\nTELEGRAM=off\n");
    assert_eq!(config_text(Some(content.clone())), content);
}

#[test]
fn corrupt_state_detected() {
    assert!(parse_document("{not json").is_err());
    assert!(read_state(Some("{not json")).is_err());
}

#[test]
fn corrupt_is_not_masked_by_default() {
    let err = read_state(Some("{not json")).unwrap_err();
    assert_eq!(err, "onboarding state file is corrupt");
}

#[test]
fn missing_dev_tools_fills_default() {
    let doc = "{\"version\":1,\"completed\":false,\"current_step\":\"welcome\",\"data\":{\"permissions\":{\"accessibility\":false,\"automation\":{\"Mail\":false}},\"api_key\":{\"provider\":\"openai\",\"configured\":false,\"verified\":false},\"telegram\":{\"configured\":false,\"skipped\":false}}}";
    let st = parse_document(doc).expect("dev_tools is optional");
    assert_eq!(st.data.dev_tools, DevToolsData::default());
}

#[test]
fn scenario_written_document_reads_back() {
    let doc = "{\"version\":1,\"completed\":true,\"current_step\":\"done\",\"data\":{\"permissions\":{\"accessibility\":true,\"automation\":{}},\"api_key\":{\"provider\":\"openai\",\"configured\":true,\"verified\":true},\"telegram\":{\"configured\":false,\"skipped\":true}}}";
    let st = read_state(Some(doc)).expect("the document is well-formed");
    let expected = OnboardingState {
        version: 1,
        completed: true,
        current_step: String::from("done"),
        data: OnboardingData {
            permissions: PermissionsData {
                accessibility: true,
                automation: Vec::new(),
            },
            api_key: ApiKeyData {
                provider: String::from("openai"),
                configured: true,
                verified: true,
            },
            telegram: TelegramData {
                configured: false,
                skipped: true,
            },
            dev_tools: DevToolsData::default(),
        },
    };
    assert_eq!(st, expected);
}

#[test]
fn unknown_fields_are_ignored() {
    let doc = "{\"version\":1,\"completed\":false,\"extra\":[1,2,{\"x\":null}],\"current_step\":\"welcome\",\"data\":{\"permissions\":{\"accessibility\":false,\"automation\":{}},\"api_key\":{\"provider\":\"p\",\"configured\":false,\"verified\":false,\"note\":\"hi\"},\"telegram\":{\"configured\":false,\"skipped\":false}}}";
    let st = parse_document(doc).expect("unknown fields are skipped");
    assert_eq!(st.data.api_key.provider, "p");
}

#[test]
fn duplicate_field_is_corrupt() {
    let doc = "{\"version\":1,\"version\":2,\"completed\":false,\"current_step\":\"welcome\",\"data\":{\"permissions\":{\"accessibility\":false,\"automation\":{}},\"api_key\":{\"provider\":\"p\",\"configured\":false,\"verified\":false},\"telegram\":{\"configured\":false,\"skipped\":false}}}";
    assert!(parse_document(doc).is_err());
}

#[test]
fn duplicate_automation_key_last_wins() {
    let doc = "{\"version\":1,\"completed\":false,\"current_step\":\"welcome\",\"data\":{\"permissions\":{\"accessibility\":false,\"automation\":{\"Mail\":false,\"Mail\":true}},\"api_key\":{\"provider\":\"p\",\"configured\":false,\"verified\":false},\"telegram\":{\"configured\":false,\"skipped\":false}}}";
    let st = parse_document(doc).expect("a repeated map key keeps the last value");
    assert_eq!(st.data.permissions.automation, vec![(String::from("Mail"), true)]);
}

#[test]
fn missing_required_field_is_corrupt() {
    let doc = "{\"version\":1,\"current_step\":\"welcome\",\"data\":{\"permissions\":{\"accessibility\":false,\"automation\":{}},\"api_key\":{\"provider\":\"p\",\"configured\":false,\"verified\":false},\"telegram\":{\"configured\":false,\"skipped\":false}}}";
    assert!(parse_document(doc).is_err());
}

#[test]
fn trailing_text_is_corrupt() {
    let good = write_state_text(&default_state());
    let mut bad = good.clone();
    bad.push('x');
    assert!(parse_document(&good).is_ok());
    assert!(parse_document(&bad).is_err());
}

#[test]
fn version_oddities() {
    let doc = |v: &str| {
        format!("{}{}{}", "{\"version\":", v, ",\"completed\":false,\"current_step\":\"s\",\"data\":{\"permissions\":{\"accessibility\":false,\"automation\":{}},\"api_key\":{\"provider\":\"p\",\"configured\":false,\"verified\":false},\"telegram\":{\"configured\":false,\"skipped\":false}}}")
    };
    assert!(parse_document(&doc("0")).is_ok());
    assert!(parse_document(&doc("01")).is_err());
    assert!(parse_document(&doc("-1")).is_err());
    assert!(parse_document(&doc("1.5")).is_err());
    assert!(parse_document(&doc("4294967295")).is_ok());
    assert!(parse_document(&doc("4294967296")).is_err());
    assert!(parse_document(&doc("true")).is_err());
}

#[test]
fn unicode_escape_in_strings() {
    let doc = "{\"version\":1,\"completed\":false,\"current_step\":\"\\u0041\\u00e9\\n\",\"data\":{\"permissions\":{\"accessibility\":false,\"automation\":{}},\"api_key\":{\"provider\":\"p\",\"configured\":false,\"verified\":false},\"telegram\":{\"configured\":false,\"skipped\":false}}}";
    let st = parse_document(doc).expect("unicode escapes are read");
    assert_eq!(st.current_step, "Aé\n");
}

#[test]
fn raw_control_character_is_corrupt() {
    let doc = "{\"version\":1,\"completed\":false,\"current_step\":\"a\u{1}b\",\"data\":{\"permissions\":{\"accessibility\":false,\"automation\":{}},\"api_key\":{\"provider\":\"p\",\"configured\":false,\"verified\":false},\"telegram\":{\"configured\":false,\"skipped\":false}}}";
    assert!(parse_document(doc).is_err());
}

#[test]
fn whitespace_and_field_order_are_free() {
    let doc = "  {\n \"data\" : {\"api_key\":{\"verified\":false,\"provider\":\"p\",\"configured\":true},\"telegram\":{\"skipped\":false,\"configured\":true},\"permissions\":{\"automation\":{ },\"accessibility\":true}},\n \"current_step\" : \"done\" , \"completed\" : true, \"version\" : 3 }  ";
    let st = parse_document(doc).expect("order and whitespace are free");
    assert_eq!(st.version, 3);
    assert!(st.completed);
    assert!(st.data.api_key.configured);
    assert!(st.data.permissions.accessibility);
}

#[test]
fn shutdown_cleanup_without_pid_file_does_nothing() {
    assert_eq!(shutdown_action(None), None);
}

#[test]
fn shutdown_cleanup_is_idempotent() {
    let first = shutdown_action(Some("123\n"));
    assert_eq!(first, Some(123));
    let second = shutdown_action(None);
    assert_eq!(second, None);
}

#[test]
fn pid_parsing() {
    assert_eq!(parse_pid("42"), Some(42));
    assert_eq!(parse_pid("  42\n"), Some(42));
    assert_eq!(parse_pid("\t-7 "), Some(-7));
    assert_eq!(parse_pid("+8"), Some(8));
    assert_eq!(parse_pid("2147483647"), Some(2147483647));
    assert_eq!(parse_pid("2147483648"), None);
    assert_eq!(parse_pid("-2147483648"), Some(-2147483648));
    assert_eq!(parse_pid("-2147483649"), None);
    assert_eq!(parse_pid(""), None);
    assert_eq!(parse_pid("   "), None);
    assert_eq!(parse_pid("abc"), None);
    assert_eq!(parse_pid("12x"), None);
    assert_eq!(parse_pid("+"), None);
    assert_eq!(parse_pid("1 2"), None);
}

#[test]
fn accessibility_probe() {
    assert!(accessibility_trusted(Platform::WithAccessibilityModel, true));
    assert!(!accessibility_trusted(Platform::WithAccessibilityModel, false));
    assert!(accessibility_trusted(Platform::WithoutAccessibilityModel, true));
    assert!(accessibility_trusted(Platform::WithoutAccessibilityModel, false));
}
