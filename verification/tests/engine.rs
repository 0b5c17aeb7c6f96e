use myo::engine::{
    after_fetch, candidate_meets_pin, fetch_plan, pin_of, plan_engine, EnginePlan, FetchEnd,
    cached_engine_file, check_executable, parse_version_token, release_asset_url,
    release_platform, version_meets, EngineProblem,
};
use myo::event::MyoEvent;

#[test]
fn parses_the_version_token() {
    assert_eq!(parse_version_token("myownllm 0.2.24"), Some("0.2.24"));
    assert_eq!(parse_version_token("0.2.24\n"), Some("0.2.24"));
    assert_eq!(parse_version_token(""), None);
}

#[test]
fn version_meets_is_a_semver_at_least() {
    assert!(version_meets("0.2.24", "0.2.24"));
    assert!(version_meets("0.2.25", "0.2.24"));
    assert!(version_meets("0.3.0", "0.2.24"));
    assert!(version_meets("1.0.0", "0.2.24"));
    assert!(!version_meets("0.2.23", "0.2.24"));
    assert!(!version_meets("0.1.99", "0.2.24"));
}

#[test]
fn version_meets_pads_missing_components() {
    assert!(version_meets("0.2", "0.2.0"));
    assert!(!version_meets("0.2", "0.2.1"));
    assert!(version_meets("0.2.24.1", "0.2.24"));
}

#[test]
fn unparseable_version_is_conservatively_not_met() {
    assert!(!version_meets("nightly", "0.2.24"));
    assert!(!version_meets("0.2.24-rc1", "0.2.24"));
}

#[test]
fn release_platform_maps_known_targets_only() {
    assert_eq!(release_platform("macos", "aarch64"), Some("macos-aarch64"));
    assert_eq!(release_platform("linux", "x86_64"), Some("linux-x86_64"));
    assert_eq!(release_platform("windows", "x86_64"), Some("windows-x86_64"));
    assert_eq!(release_platform("freebsd", "x86_64"), None);
}

#[test]
fn asset_url_picks_the_right_archive_extension() {
    assert_eq!(
        release_asset_url("0.2.24", "macos-aarch64"),
        "https://github.com/mrjeeves/MyOwnLLM/releases/download/0.2.24/myownllm-macos-aarch64.tar.gz"
    );
    assert_eq!(
        release_asset_url("0.2.24", "windows-x86_64"),
        "https://github.com/mrjeeves/MyOwnLLM/releases/download/0.2.24/myownllm-windows-x86_64.zip"
    );
}

#[test]
fn a_version_always_meets_itself() {
    for v in ["0.0.1", "1.2.3", "10.0", "7"] {
        assert!(version_meets(v, v));
    }
}

#[test]
fn version_token_skips_leading_words_and_takes_the_first_line() {
    assert_eq!(parse_version_token("  myownllm   1.4.0  \nbuild abc"), Some("1.4.0"));
    assert_eq!(parse_version_token("   \n0.1"), None);
}

#[test]
fn cached_engine_file_names_carry_the_pin() {
    assert_eq!(cached_engine_file("0.2.24", false), "myownllm-0.2.24");
    assert_eq!(cached_engine_file("0.2.24", true), "myownllm-0.2.24.exe");
}

#[test]
fn executable_check_reads_the_magic_bytes() {
    assert_eq!(check_executable(2_000_000, &[0x7f, b'E', b'L', b'F']), Ok(()));
    assert_eq!(check_executable(2_000_000, &[b'M', b'Z', 0, 0]), Ok(()));
    assert!(check_executable(2_000_000, &[b'<', b'h', b't', b'm']).is_err());
    assert!(matches!(check_executable(10, &[0x7f, b'E', b'L', b'F']), Err(_)));
    let _ = EngineProblem::TooSmall;
}

#[test]
fn any_two_versions_are_ordered() {
    let vs = ["0.1", "0.2.24", "1", "1.0.0.1", "v2.0"];
    for a in vs {
        for b in vs {
            assert!(version_meets(a, b) || version_meets(b, a), "{a} vs {b}");
            if version_meets(a, b) && version_meets(b, a) {
                assert!(version_meets(a, a) && version_meets(b, b));
            }
        }
    }
}


fn engine_ev(status: &str, detail: &str) -> MyoEvent {
    MyoEvent::Engine { name: "myownllm".into(), status: status.into(), detail: Some(detail.into()) }
}

#[test]
fn a_blank_pin_enforces_nothing() {
    assert_eq!(pin_of(None), None);
    assert_eq!(pin_of(Some("  \n")), None);
    assert_eq!(pin_of(Some(" v0.2.24\n")), Some("v0.2.24".to_string()));
}

#[test]
fn the_candidate_meets_the_pin_by_override_or_by_its_version() {
    assert!(candidate_meets_pin(true, None, "v0.2.24"));
    assert!(candidate_meets_pin(false, Some("myownllm 0.2.24\n"), "v0.2.24"));
    assert!(candidate_meets_pin(false, Some("myownllm 0.3.0"), "v0.2.24"));
    assert!(!candidate_meets_pin(false, Some("myownllm 0.2.9"), "v0.2.24"));
    assert!(!candidate_meets_pin(false, Some(""), "v0.2.24"));
    assert!(!candidate_meets_pin(false, None, "v0.2.24"));
}

#[test]
fn the_engine_plan_prefers_candidate_then_cache_then_fetch() {
    assert_eq!(plan_engine(None, false, Some("/c")), EnginePlan::UseCandidate);
    assert_eq!(plan_engine(Some("v1"), true, Some("/c")), EnginePlan::UseCandidate);
    assert_eq!(plan_engine(Some("v1"), false, Some("/c")), EnginePlan::UseCached("/c".into()));
    assert_eq!(
        plan_engine(Some("v1"), false, None),
        EnginePlan::Fetch {
            pin: "v1".into(),
            announce: engine_ev("updating", "the local MyOwnLLM is older than v1 \u{2014} fetching the pinned engine\u{2026}"),
        }
    );
}

#[test]
fn a_failed_fetch_falls_back_to_the_candidate() {
    assert_eq!(
        after_fetch("v1", "/usr/bin/myownllm", FetchEnd::Fetched("/home/u/.myo/engine/myownllm-v1".into())),
        ("/home/u/.myo/engine/myownllm-v1".to_string(), engine_ev("updated", "fetched MyOwnLLM v1"))
    );
    assert_eq!(
        after_fetch("v1", "/usr/bin/myownllm", FetchEnd::Failed("offline".into())),
        (
            "/usr/bin/myownllm".to_string(),
            engine_ev("update-failed", "couldn't fetch MyOwnLLM v1 (offline) \u{2014} using the local copy for now")
        )
    );
    assert_eq!(
        after_fetch("v1", "/usr/bin/myownllm", FetchEnd::TaskFailed("panicked".into())),
        ("/usr/bin/myownllm".to_string(), engine_ev("update-failed", "engine fetch task failed: panicked"))
    );
}

#[test]
fn the_fetch_plan_names_follow_the_host() {
    let p = fetch_plan("v0.2.24", "linux", "x86_64").unwrap();
    assert_eq!(p.url, "https://github.com/mrjeeves/MyOwnLLM/releases/download/v0.2.24/myownllm-linux-x86_64.tar.gz");
    assert_eq!(p.staging, ".staging-v0.2.24");
    assert_eq!(p.archive, "engine.tar.gz");
    assert_eq!(p.binary, "myownllm");
    assert_eq!(p.installed, "myownllm-v0.2.24");
    let w = fetch_plan("v0.2.24", "windows", "x86_64").unwrap();
    assert_eq!(w.archive, "engine.zip");
    assert_eq!(w.binary, "myownllm.exe");
    assert_eq!(w.installed, "myownllm-v0.2.24.exe");
    assert!(w.url.ends_with("myownllm-windows-x86_64.zip"));
    assert_eq!(fetch_plan("v1", "freebsd", "x86_64"), Err("no prebuilt MyOwnLLM for freebsd-x86_64".to_string()));
}
