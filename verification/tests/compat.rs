//! Cross-checks against a general-purpose JSON implementation: what the
//! library renders must be JSON that others read the same way, and what
//! others accept of the schema the library reads the same way.

use macbot_core::parse::parse_document;
use macbot_core::state::OnboardingState;
use macbot_core::store::write_state_text;

#[test]
fn rendered_default_is_valid_json_elsewhere() {
    let text = write_state_text(&OnboardingState::default());
    let v: serde_json::Value = serde_json::from_str(&text).expect("valid JSON");
    assert_eq!(v["version"], serde_json::Value::from(1u32));
    assert_eq!(v["completed"], serde_json::Value::Bool(false));
    assert_eq!(v["current_step"], serde_json::Value::from("welcome"));
    let auto = v["data"]["permissions"]["automation"]
        .as_object()
        .expect("an object");
    assert_eq!(auto.len(), 5);
    assert_eq!(auto["Mail"], serde_json::Value::Bool(false));
    assert_eq!(auto["Safari"], serde_json::Value::Bool(false));
    assert_eq!(
        v["data"]["api_key"]["provider"],
        serde_json::Value::from("openai")
    );
    assert_eq!(
        v["data"]["dev_tools"]["npx"]["installed"],
        serde_json::Value::Bool(false)
    );
}

#[test]
fn rendered_escapes_read_back_elsewhere() {
    let mut s = OnboardingState::default();
    s.current_step = String::from("a\"b\\c\nd\te\u{1f}ü");
    let text = write_state_text(&s);
    let v: serde_json::Value = serde_json::from_str(&text).expect("valid JSON");
    assert_eq!(v["current_step"], serde_json::Value::from("a\"b\\c\nd\te\u{1f}ü"));
}

#[test]
fn what_others_reject_we_reject() {
    let corrupt = "{not json";
    assert!(serde_json::from_str::<serde_json::Value>(corrupt).is_err());
    assert!(parse_document(corrupt).is_err());
}
