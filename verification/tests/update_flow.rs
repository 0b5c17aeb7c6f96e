use myo::json::Json;
use myo::update::{policy_allows, ApplyPolicy};
use myo::update::{
    add_freed, apply_step, auto_apply_setting, auto_update_enabled, check_digest,
    current_version, env_disables_autoupdate, gate_check, is_sidecar_asset, judge_release,
    latest_version, old_binary_leftover, parse_semver, parse_update_command, pending_entry,
    pending_marker, select_release, sha256_hex, staged_leftover, unpack_plan, update_channel,
    verify_download, ApplyStep, CheckOutcome, InstallKind, PendingUpdate, ReleaseError, Unpack,
    UpdateCommand, VerifyError,
};

fn j(text: &str) -> Json {
    Json::parse(text).unwrap()
}

#[test]
fn sha256_of_known_inputs() {
    assert_eq!(sha256_hex(b""), "e3b0c44298fc1c149afbf4c8996fb92427ae41e4649b934ca495991b7852b855");
    assert_eq!(sha256_hex(b"abc"), "ba7816bf8f01cfea414140de5dae2223b00361a396177a9cb410ff61f20015ad");
}

#[test]
fn downloads_are_checked_against_their_sums() {
    let sums = "ba7816bf8f01cfea414140de5dae2223b00361a396177a9cb410ff61f20015ad  myo-linux-x86_64.tar.gz\n";
    assert_eq!(verify_download(b"abc", sums, "myo-linux-x86_64.tar.gz"), Ok(()));
    assert_eq!(verify_download(b"abc", sums, "other.tar.gz"), Err(VerifyError::NoEntry));
    match verify_download(b"abd", sums, "myo-linux-x86_64.tar.gz") {
        Err(VerifyError::Mismatch { expected, actual }) => {
            assert_eq!(expected, "ba7816bf8f01cfea414140de5dae2223b00361a396177a9cb410ff61f20015ad");
            assert_eq!(actual, sha256_hex(b"abd"));
        }
        other => panic!("expected a mismatch, got {other:?}"),
    }
    assert_eq!(check_digest("ABC123", "abc123  x\n", "x"), Ok(()));
}

#[test]
fn archives_extract_and_sidecars_are_refused() {
    assert_eq!(unpack_plan("myo-linux-x86_64.tar.gz"), Unpack::Extract);
    assert_eq!(unpack_plan("myo.tgz"), Unpack::Extract);
    assert_eq!(unpack_plan("myo-windows-x86_64.zip"), Unpack::Extract);
    assert_eq!(unpack_plan("myo"), Unpack::AsIs);
    assert_eq!(unpack_plan("myo-macos-aarch64.tar.gz.sha256"), Unpack::RefuseSidecar);
    assert!(is_sidecar_asset("x.minisig"));
    assert!(!is_sidecar_asset("x.tar.gz"));
}

#[test]
fn auto_update_settings_have_defaults() {
    let au = j("{}");
    assert!(auto_update_enabled(&au));
    assert_eq!(update_channel(&au), "stable");
    assert_eq!(auto_apply_setting(&au), "patch");
    let set = j(r#"{"enabled":false,"channel":"beta","auto_apply":"all"}"#);
    assert!(!auto_update_enabled(&set));
    assert_eq!(update_channel(&set), "beta");
    assert_eq!(auto_apply_setting(&set), "all");
}

#[test]
fn the_environment_can_switch_updates_off() {
    assert!(env_disables_autoupdate(Some("0")));
    assert!(env_disables_autoupdate(Some("FALSE")));
    assert!(!env_disables_autoupdate(Some("1")));
    assert!(!env_disables_autoupdate(None));
}

#[test]
fn gates_come_before_the_network() {
    let on = j("{}");
    let off = j(r#"{"enabled":false}"#);
    assert_eq!(gate_check(&off, false, InstallKind::Raw), Some(CheckOutcome::Disabled));
    assert_eq!(gate_check(&on, true, InstallKind::Raw), Some(CheckOutcome::Disabled));
    assert_eq!(gate_check(&on, false, InstallKind::PackageManager), Some(CheckOutcome::PackageManager));
    assert_eq!(gate_check(&on, false, InstallKind::Raw), None);
}

#[test]
fn releases_are_judged_by_version_and_policy() {
    assert_eq!(
        judge_release("0.2.0", "0.2.0", "patch"),
        CheckOutcome::UpToDate { current: "0.2.0".into(), latest: "0.2.0".into() }
    );
    assert_eq!(judge_release("0.2.0", "0.2.3", "patch"), CheckOutcome::Staged { version: "0.2.3".into() });
    assert_eq!(
        judge_release("0.2.0", "0.3.0", "patch"),
        CheckOutcome::PolicyBlocked { current: "0.2.0".into(), latest: "0.3.0".into(), policy: "patch".into() }
    );
    assert_eq!(judge_release("0.2.0", "1.0.0", "all"), CheckOutcome::Staged { version: "1.0.0".into() });
}

#[test]
fn the_beta_feed_takes_the_first_non_draft() {
    let feed = j(r#"[{"tag_name":"v0.3.0","draft":true},{"tag_name":"v0.2.9"}]"#);
    let r = select_release(&feed, "beta").unwrap();
    assert_eq!(latest_version(r), Some("0.2.9".into()));
    let drafts = j(r#"[{"tag_name":"v0.3.0","draft":true}]"#);
    assert_eq!(select_release(&drafts, "beta").map(|_| ()), Err(ReleaseError::NoUsableRelease));
    assert_eq!(select_release(&j("{}"), "beta").map(|_| ()), Err(ReleaseError::NotAList));
    let stable = j(r#"{"tag_name":"vv1.0.0"}"#);
    assert_eq!(latest_version(select_release(&stable, "stable").unwrap()), Some("1.0.0".into()));
    assert_eq!(latest_version(&j("{}")), None);
}

#[test]
fn pending_markers_only_announce_upgrades() {
    let m = pending_marker("0.2.0", "/tmp/myo-staged", "2026-01-01T00:00:00Z");
    assert_eq!(
        pending_entry(Some(&m), "0.1.5"),
        Some(PendingUpdate { version: "0.2.0".into(), staged_at: "2026-01-01T00:00:00Z".into() })
    );
    assert_eq!(pending_entry(Some(&m), "0.2.0"), None);
    assert_eq!(pending_entry(Some(&m), "0.2.1"), None);
    assert_eq!(pending_entry(None, "0.1.5"), None);
}

#[test]
fn a_stale_marker_is_never_applied() {
    let m = pending_marker("0.2.0", "/tmp/myo-staged", "t");
    assert_eq!(
        apply_step(&m, "0.1.0"),
        ApplyStep::Apply { path: "/tmp/myo-staged".into(), version: "0.2.0".into() }
    );
    assert_eq!(apply_step(&m, "0.2.0"), ApplyStep::Discard);
    assert_eq!(apply_step(&j(r#"{"version":"9.9.9"}"#), "0.1.0"), ApplyStep::MissingPath);
}

#[test]
fn leftovers_skip_the_update_in_flight() {
    assert!(staged_leftover("0.2.0", "/u/0.2.0", 10, Some("0.2.0")).is_none());
    let l = staged_leftover("0.1.9", "/u/0.1.9", 10, Some("0.2.0")).unwrap();
    assert_eq!(l.id, "staged:0.1.9");
    assert_eq!(l.label, "Staged update v0.1.9");
    assert_eq!(l.size_bytes, 10);
    assert_eq!(old_binary_leftover("/bin/myo.old", 5).id, "old-binary");
    assert_eq!(add_freed(u64::MAX, 1), u64::MAX);
    assert_eq!(add_freed(2, 3), 5);
}

#[test]
fn update_subcommands_parse() {
    assert_eq!(parse_update_command(&[]), UpdateCommand::Run);
    assert_eq!(parse_update_command(&["status".to_string()]), UpdateCommand::Status);
    assert_eq!(parse_update_command(&["disable".to_string()]), UpdateCommand::Disable);
    assert_eq!(parse_update_command(&["frobnicate".to_string()]), UpdateCommand::Unknown("frobnicate".into()));
}

#[test]
fn versions_parse_to_triples() {
    assert_eq!(parse_semver("1.2.3-rc.1"), (1, 2, 3));
    assert_eq!(parse_semver("x.y"), (0, 0, 0));
    assert_eq!(current_version(), "0.1.0");
}

#[test]
fn policies_nest() {
    let pairs = [("1.2.0", "1.2.5"), ("1.2.0", "1.3.0"), ("1.2.0", "2.0.0"), ("1.2.0", "1.1.0")];
    for (c, l) in pairs {
        if policy_allows(ApplyPolicy::Patch, c, l) {
            assert!(policy_allows(ApplyPolicy::Minor, c, l));
        }
        if policy_allows(ApplyPolicy::Minor, c, l) {
            assert!(policy_allows(ApplyPolicy::All, c, l));
        }
        assert!(!policy_allows(ApplyPolicy::Never, c, l));
    }
}
