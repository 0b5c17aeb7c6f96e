use myo::capabilities::Capabilities;

#[test]
fn default_is_web_only() {
    let c = Capabilities::default();
    assert!(c.web && !c.files && !c.code && !c.reach_out);
    assert!(c.allow_web_search());
    assert!(!c.allow_bash());
}

#[test]
fn off_categories_are_disabled() {
    let c = Capabilities::default();
    let disabled = c.disabled_tools();
    assert!(!disabled.iter().any(|t| t == "web_search"));
    assert!(disabled.iter().any(|t| t == "read_file"));
    assert!(disabled.iter().any(|t| t == "bash"));
    assert!(disabled.iter().any(|t| t == "send_email"));
}

#[test]
fn everything_on_still_disables_infra() {
    let c = Capabilities { web: true, files: true, code: true, reach_out: true };
    let disabled = c.disabled_tools();
    assert!(!disabled.iter().any(|t| t == "bash"));
    assert!(!disabled.iter().any(|t| t == "read_file"));
    assert!(disabled.iter().any(|t| t == "vault_unlock"));
    assert!(disabled.iter().any(|t| t == "api_call"));
}

#[test]
fn allow_flags_track_toggles() {
    let c = Capabilities { web: false, files: false, code: true, reach_out: false };
    assert!(!c.allow_web_search());
    assert!(c.allow_bash());
    let disabled = c.disabled_tools();
    assert!(!disabled.iter().any(|t| t == "bash"));
    assert!(disabled.iter().any(|t| t == "web_search"));
}

#[test]
fn disabled_list_is_sorted_and_deduped() {
    let disabled = Capabilities::default().disabled_tools();
    let mut sorted = disabled.clone();
    sorted.sort();
    assert_eq!(disabled, sorted, "must be sorted");
    sorted.dedup();
    assert_eq!(disabled.len(), sorted.len(), "must have no duplicates");
}

#[test]
fn everything_on_disables_exactly_the_infra_set() {
    let c = Capabilities { web: true, files: true, code: true, reach_out: true };
    let mut infra = vec![
        "api_call", "app_api", "vault_search", "vault_get", "vault_unlock", "manage_endpoints",
        "manage_mcp", "manage_webhooks", "manage_tokens", "manage_settings", "download_model",
        "serve_model", "stop_served_model", "cancel_download", "adopt_served_model",
    ];
    infra.sort();
    assert_eq!(c.disabled_tools(), infra);
}

#[test]
fn turning_a_category_on_never_disables_more() {
    let off = Capabilities { web: false, files: false, code: false, reach_out: false };
    let all_off = off.disabled_tools();
    for bits in 0u8..16 {
        let c = Capabilities {
            web: bits & 1 != 0,
            files: bits & 2 != 0,
            code: bits & 4 != 0,
            reach_out: bits & 8 != 0,
        };
        for t in c.disabled_tools() {
            assert!(all_off.contains(&t));
        }
    }
    assert_eq!(all_off.len(), 3 + 7 + 2 + 12 + 15);
}
