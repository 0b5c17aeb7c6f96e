use std::cmp::Ordering;

use myo::json::Json;
use myo::update::{
    compare_semver, current_target_triple_hint, default_release_api_beta,
    default_release_api_stable, detect_install_kind_from_path, expected_sha_for,
    github_default_release_url, pick_asset, pick_sha_asset, policy_allows, resolve_release_url,
    resolve_release_url_with,
    ApplyPolicy, InstallKind,
};

fn j(text: &str) -> Json {
    Json::parse(text).unwrap()
}

fn named(name: &str) -> Json {
    Json::Object(vec![("name".to_string(), Json::Str(name.to_string()))])
}

fn name_of(a: &Json) -> Option<&str> {
    a.get("name").and_then(|n| n.as_str())
}

#[test]
fn resolve_release_url_falls_back_to_build_default_when_config_empty() {
    let au = j("{}");
    assert_eq!(resolve_release_url(&au, "stable"), default_release_api_stable());
    assert_eq!(resolve_release_url(&au, "beta"), default_release_api_beta());
}

#[test]
fn resolve_release_url_honors_config_override() {
    let au = j(r#"{
        "stable_url": "https://mirror.example/releases/latest",
        "beta_url":   "https://mirror.example/releases"
    }"#);
    assert_eq!(resolve_release_url(&au, "stable"), "https://mirror.example/releases/latest");
    assert_eq!(resolve_release_url(&au, "beta"), "https://mirror.example/releases");
}

#[test]
fn resolve_release_url_treats_unknown_channel_as_stable() {
    let au = j(r#"{ "stable_url": "https://mirror.example/x" }"#);
    assert_eq!(resolve_release_url(&au, "weekly-experimental"), "https://mirror.example/x");
}

#[test]
fn resolve_release_url_ignores_empty_string_override() {
    let au = j(r#"{ "stable_url": "" }"#);
    assert_eq!(resolve_release_url(&au, "stable"), default_release_api_stable());
}

#[test]
fn github_default_release_url_picks_endpoint_by_channel() {
    assert!(github_default_release_url("stable").ends_with("/releases/latest"));
    assert!(github_default_release_url("beta").ends_with("/releases"));
}

#[test]
fn compare_semver_orders_versions() {
    assert_eq!(compare_semver("1.2.3", "1.2.3"), Ordering::Equal);
    assert_eq!(compare_semver("1.2.3", "1.2.4"), Ordering::Less);
    assert_eq!(compare_semver("1.3.0", "1.2.9"), Ordering::Greater);
    assert_eq!(compare_semver("2.0.0", "1.99.99"), Ordering::Greater);
}

#[test]
fn compare_semver_strips_prerelease_suffix() {
    assert_eq!(compare_semver("1.2.3-beta.1", "1.2.3"), Ordering::Equal);
    assert_eq!(compare_semver("1.2.3-rc.1", "1.2.4"), Ordering::Less);
}

#[test]
fn compare_semver_treats_missing_components_as_zero() {
    assert_eq!(compare_semver("1", "1.0.0"), Ordering::Equal);
    assert_eq!(compare_semver("1.2", "1.2.0"), Ordering::Equal);
    assert_eq!(compare_semver("", "0.0.0"), Ordering::Equal);
}

#[test]
fn apply_policy_parse_falls_back_to_patch() {
    assert_eq!(ApplyPolicy::parse("patch"), ApplyPolicy::Patch);
    assert_eq!(ApplyPolicy::parse("minor"), ApplyPolicy::Minor);
    assert_eq!(ApplyPolicy::parse("all"), ApplyPolicy::All);
    assert_eq!(ApplyPolicy::parse("none"), ApplyPolicy::Never);
    assert_eq!(ApplyPolicy::parse("garbage"), ApplyPolicy::Patch);
    assert_eq!(ApplyPolicy::parse(""), ApplyPolicy::Patch);
}

#[test]
fn policy_none_blocks_everything() {
    assert!(!policy_allows(ApplyPolicy::Never, "1.0.0", "1.0.1"));
    assert!(!policy_allows(ApplyPolicy::Never, "1.0.0", "2.0.0"));
}

#[test]
fn policy_all_allows_everything() {
    assert!(policy_allows(ApplyPolicy::All, "1.0.0", "2.0.0"));
    assert!(policy_allows(ApplyPolicy::All, "1.0.0", "1.0.1"));
}

#[test]
fn policy_minor_requires_same_major() {
    assert!(policy_allows(ApplyPolicy::Minor, "1.0.0", "1.5.0"));
    assert!(policy_allows(ApplyPolicy::Minor, "1.0.0", "1.0.1"));
    assert!(!policy_allows(ApplyPolicy::Minor, "1.0.0", "2.0.0"));
}

#[test]
fn policy_patch_requires_same_major_and_minor() {
    assert!(policy_allows(ApplyPolicy::Patch, "1.2.0", "1.2.5"));
    assert!(!policy_allows(ApplyPolicy::Patch, "1.2.0", "1.3.0"));
    assert!(!policy_allows(ApplyPolicy::Patch, "1.2.0", "2.0.0"));
}

#[test]
fn expected_sha_finds_entry_in_sums_file() {
    let sums = "\
abc123  myo-linux-x86_64.tar.gz
def456 *myo-macos-aarch64.tar.gz
";
    assert_eq!(expected_sha_for(sums, "myo-linux-x86_64.tar.gz"), Some("abc123".into()));
    assert_eq!(expected_sha_for(sums, "myo-macos-aarch64.tar.gz"), Some("def456".into()));
}

#[test]
fn expected_sha_returns_none_for_missing_entry() {
    let sums = "abc123  myo-linux-x86_64.tar.gz\n";
    assert_eq!(expected_sha_for(sums, "nope.tar.gz"), None);
}

#[test]
fn expected_sha_matches_when_sums_line_has_path_prefix() {
    let sums = "abc123  dist-bin/myo-windows-x86_64.zip\n";
    assert_eq!(expected_sha_for(sums, "myo-windows-x86_64.zip"), Some("abc123".into()));
    let with_backslash = "abc123  dist-bin\\myo-windows-x86_64.zip\n";
    assert_eq!(expected_sha_for(with_backslash, "myo-windows-x86_64.zip"), Some("abc123".into()));
}

#[test]
fn expected_sha_accepts_bare_64_char_hash() {
    let single = "0".repeat(64);
    assert_eq!(expected_sha_for(&single, "any-name"), Some(single.clone()));
    let with_newline = format!("{single}\n");
    assert_eq!(expected_sha_for(&with_newline, "any-name"), Some(single));
}

#[test]
fn expected_sha_rejects_short_bare_hash() {
    assert_eq!(expected_sha_for("abc123", "any-name"), None);
}

#[test]
fn expected_sha_skips_malformed_lines() {
    let sums = "\
malformed-line-with-only-one-token
abc123  myo-linux-x86_64.tar.gz
";
    assert_eq!(expected_sha_for(sums, "myo-linux-x86_64.tar.gz"), Some("abc123".into()));
}

#[test]
fn expected_sha_skips_blanks_and_comments() {
    let sums = "\
# header

abc123  myo-linux-x86_64.tar.gz
";
    assert_eq!(expected_sha_for(sums, "myo-linux-x86_64.tar.gz"), Some("abc123".into()));
}

#[test]
fn pick_asset_matches_current_platform() {
    let needle = current_target_triple_hint("linux", "x86_64");
    let other = "myo-other-platform.tar.gz".to_string();
    let matching = format!("myo-{needle}.tar.gz");
    let assets = vec![named(&other), named(&matching)];
    let picked = pick_asset(&assets, needle).expect("expected platform match");
    assert_eq!(name_of(picked), Some(matching.as_str()));
}

#[test]
fn pick_asset_returns_none_when_no_platform_match() {
    let assets = vec![named("myo-mystery-platform.tar.gz")];
    assert!(pick_asset(&assets, current_target_triple_hint("linux", "x86_64")).is_none());
}

#[test]
fn pick_asset_skips_sha256_sidecar_listed_before_archive() {
    let needle = current_target_triple_hint("macos", "aarch64");
    let archive = format!("myo-{needle}.tar.gz");
    let sidecar = format!("{archive}.sha256");
    let assets = vec![named(&sidecar), named(&archive)];
    let picked = pick_asset(&assets, needle).expect("expected archive to be picked");
    assert_eq!(name_of(picked), Some(archive.as_str()));
}

#[test]
fn pick_asset_skips_signature_sidecars() {
    let needle = current_target_triple_hint("windows", "x86_64");
    let archive = format!("myo-{needle}.tar.gz");
    for ext in [".sig", ".asc", ".minisig", ".sha512"] {
        let sidecar = format!("{archive}{ext}");
        let assets = vec![named(&sidecar), named(&archive)];
        let picked = pick_asset(&assets, needle).unwrap_or_else(|| panic!("ext {ext}"));
        assert_eq!(name_of(picked), Some(archive.as_str()), "ext {ext}");
    }
}

#[test]
fn pick_sha_asset_prefers_matching_sidecar_over_others() {
    let assets = vec![
        named("myo-linux-x86_64.tar.gz"),
        named("myo-linux-x86_64.tar.gz.sha256"),
        named("myo-macos-aarch64.tar.gz"),
        named("myo-macos-aarch64.tar.gz.sha256"),
    ];
    let picked = pick_sha_asset(&assets, "myo-linux-x86_64.tar.gz").expect("expected sidecar");
    assert_eq!(name_of(picked), Some("myo-linux-x86_64.tar.gz.sha256"));
}

#[test]
fn pick_sha_asset_falls_back_to_sha256sums() {
    let assets = vec![named("myo-linux-x86_64.tar.gz"), named("SHA256SUMS")];
    let picked = pick_sha_asset(&assets, "myo-linux-x86_64.tar.gz").expect("expected SHA256SUMS");
    assert_eq!(name_of(picked), Some("SHA256SUMS"));
}

#[test]
fn pick_sha_asset_returns_none_when_no_match_and_no_sums_file() {
    let assets = vec![named("myo-linux-x86_64.tar.gz"), named("myo-macos-aarch64.tar.gz.sha256")];
    assert!(pick_sha_asset(&assets, "myo-linux-x86_64.tar.gz").is_none());
}

#[test]
fn pick_sha_asset_returns_none_when_assets_empty() {
    let assets: Vec<Json> = vec![];
    assert!(pick_sha_asset(&assets, "myo-linux-x86_64.tar.gz").is_none());
}

#[test]
fn detect_install_kind_flags_homebrew_paths() {
    assert_eq!(detect_install_kind_from_path("/opt/homebrew/bin/myo", "macos"), InstallKind::PackageManager);
    assert_eq!(
        detect_install_kind_from_path("/usr/local/Cellar/myo/0.1.0/bin/myo", "macos"),
        InstallKind::PackageManager
    );
    assert_eq!(
        detect_install_kind_from_path("/home/linuxbrew/.linuxbrew/bin/myo", "linux"),
        InstallKind::PackageManager
    );
}

#[test]
fn detect_install_kind_flags_user_install_as_raw() {
    assert_eq!(detect_install_kind_from_path("/home/alice/.local/bin/myo", "linux"), InstallKind::Raw);
    assert_eq!(detect_install_kind_from_path("/usr/local/bin/myo", "linux"), InstallKind::Raw);
}

#[test]
fn detect_install_kind_flags_linux_system_paths() {
    assert_eq!(detect_install_kind_from_path("/usr/bin/myo", "linux"), InstallKind::PackageManager);
    assert_eq!(detect_install_kind_from_path("/usr/sbin/myo", "linux"), InstallKind::PackageManager);
}

#[test]
fn detect_install_kind_flags_windows_package_paths() {
    assert_eq!(
        detect_install_kind_from_path(r"C:\Program Files\Myo\myo.exe", "windows"),
        InstallKind::PackageManager
    );
    assert_eq!(
        detect_install_kind_from_path(r"C:\Program Files (x86)\Myo\myo.exe", "windows"),
        InstallKind::PackageManager
    );
    assert_eq!(
        detect_install_kind_from_path(r"C:\ProgramData\chocolatey\lib\myo\tools\myo.exe", "windows"),
        InstallKind::PackageManager
    );
    assert_eq!(
        detect_install_kind_from_path(r"C:\Users\me\scoop\apps\myo\current\myo.exe", "windows"),
        InstallKind::PackageManager
    );
}

#[test]
fn system_paths_are_only_package_managed_on_their_os() {
    assert_eq!(detect_install_kind_from_path("/usr/bin/myo", "macos"), InstallKind::Raw);
    assert_eq!(detect_install_kind_from_path(r"C:\Program Files\Myo\myo.exe", "linux"), InstallKind::Raw);
}

#[test]
fn target_hints_follow_the_release_names() {
    assert_eq!(current_target_triple_hint("linux", "aarch64"), "linux-aarch64");
    assert_eq!(current_target_triple_hint("windows", "aarch64"), "windows-x86_64");
    assert_eq!(current_target_triple_hint("freebsd", "x86_64"), "unknown");
}

#[test]
fn a_build_time_feed_stands_between_config_and_the_project_default() {
    let empty = Json::parse("{}").unwrap();
    let vendor = Some("https://vendor.example/latest");
    let vendor_beta = Some("https://vendor.example/all");
    assert_eq!(resolve_release_url_with(&empty, "stable", vendor, vendor_beta), "https://vendor.example/latest");
    assert_eq!(resolve_release_url_with(&empty, "beta", vendor, vendor_beta), "https://vendor.example/all");
    assert_eq!(resolve_release_url_with(&empty, "weekly", vendor, None), "https://vendor.example/latest");
    assert_eq!(resolve_release_url_with(&empty, "beta", vendor, None), default_release_api_beta());
    assert_eq!(resolve_release_url_with(&empty, "stable", None, None), default_release_api_stable());
    let au = Json::parse(r#"{"stable_url":"https://mirror.example/x","beta_url":""}"#).unwrap();
    assert_eq!(resolve_release_url_with(&au, "stable", vendor, vendor_beta), "https://mirror.example/x");
    assert_eq!(resolve_release_url_with(&au, "beta", vendor, vendor_beta), "https://vendor.example/all");
}
