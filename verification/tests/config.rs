use myo::capabilities::Capabilities;
use myo::config::{default_config_value, load_config_value, merge_defaults, ConfigError, ShellSettings};
use myo::json::Json;

fn j(text: &str) -> Json {
    Json::parse(text).unwrap()
}

fn at<'a>(v: &'a Json, section: &str, key: &str) -> Option<&'a Json> {
    v.get(section).and_then(|s| s.get(key))
}

#[test]
fn defaults_when_absent() {
    let s = ShellSettings::load(None).unwrap();
    assert_eq!(s, ShellSettings::default());
    assert!(s.capabilities.web);
    assert!(!s.capabilities.code);
    assert!(!s.incognito);
}

#[test]
fn round_trips() {
    let mut s = ShellSettings::default();
    s.capabilities.code = true;
    s.incognito = true;
    let doc = s.save(None).to_text();
    let back = ShellSettings::load(Some(&doc)).unwrap();
    assert_eq!(back, s);
}

#[test]
fn save_preserves_foreign_keys() {
    let existing = r#"{ "auto_update": { "enabled": false } }"#;
    let doc = ShellSettings::default().save(Some(existing));
    assert_eq!(
        doc.get("shell").and_then(|s| s.get("capabilities")).and_then(|c| c.get("web")),
        Some(&j("true"))
    );
    assert_eq!(at(&doc, "auto_update", "enabled"), Some(&j("false")));
}

#[test]
fn malformed_shell_section_falls_back_to_default() {
    let s = ShellSettings::load(Some(r#"{ "shell": "not-an-object" }"#)).unwrap();
    assert_eq!(s, ShellSettings::default());
}

#[test]
fn a_file_that_is_not_json_is_an_error() {
    assert_eq!(ShellSettings::load(Some("{not json")), Err(ConfigError::InvalidJson));
}

#[test]
fn missing_toggles_take_their_defaults() {
    let s = ShellSettings::load(Some(r#"{ "shell": { "capabilities": { "code": true } } }"#)).unwrap();
    assert_eq!(
        s.capabilities,
        Capabilities { web: true, files: false, code: true, reach_out: false }
    );
    assert!(!s.incognito);
}

#[test]
fn load_returns_defaults_when_file_absent() {
    let cfg = load_config_value(None).unwrap();
    assert_eq!(at(&cfg, "auto_update", "enabled"), Some(&j("true")));
    assert_eq!(at(&cfg, "auto_update", "channel"), Some(&j(r#""stable""#)));
    assert_eq!(at(&cfg, "auto_update", "auto_apply"), Some(&j(r#""patch""#)));
    assert_eq!(at(&cfg, "auto_update", "check_interval_hours"), Some(&j("6.0")));
}

#[test]
fn merge_defaults_fills_missing_auto_update_keys_only() {
    let user = j(r#"{ "auto_update": { "enabled": false }, "other": 1 }"#);
    let merged = merge_defaults(user);
    assert_eq!(at(&merged, "auto_update", "enabled"), Some(&j("false")));
    assert_eq!(merged.get("other"), Some(&j("1")));
    assert_eq!(at(&merged, "auto_update", "channel"), Some(&j(r#""stable""#)));
    assert_eq!(at(&merged, "auto_update", "auto_apply"), Some(&j(r#""patch""#)));
}

#[test]
fn merge_defaults_replaces_non_object_auto_update() {
    let merged = merge_defaults(j(r#"{ "auto_update": "garbage" }"#));
    assert!(merged.get("auto_update").unwrap().is_object());
    assert_eq!(at(&merged, "auto_update", "enabled"), Some(&j("true")));
}

#[test]
fn a_document_that_is_not_an_object_becomes_the_defaults() {
    assert_eq!(merge_defaults(j("[1,2]")), default_config_value());
    assert_eq!(load_config_value(Some("{oops")), Err(ConfigError::InvalidJson));
    let loaded = load_config_value(Some(r#"{"auto_update":{"channel":"beta"}}"#)).unwrap();
    assert_eq!(at(&loaded, "auto_update", "channel"), Some(&j(r#""beta""#)));
    assert_eq!(at(&loaded, "auto_update", "enabled"), Some(&j("true")));
}
