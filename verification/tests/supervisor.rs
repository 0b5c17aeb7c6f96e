use myo::json::Json;
use myo::supervisor::{
    is_valid_token, myownllm_base_url, myownllm_registered, myownllm_spec, odysseus_base_url,
    odysseus_spec, persistent_token, random_token, url_has_port, token_from_words,
    registration_event, resolve_engine_program, resolve_uvicorn, sidecar_candidates, Engine,
    EngineStart, StartEvent, StartPhase,
};
use myo::event::MyoEvent;

#[test]
fn odysseus_spec_injects_token_and_pins_port() {
    let spec = odysseus_spec("/venv/bin/uvicorn", "/srv/ody", "deadbeef");
    assert_eq!(spec.program, "/venv/bin/uvicorn");
    assert!(spec.args.contains(&"app:app".to_string()));
    assert!(spec.args.contains(&"17000".to_string()));
    assert_eq!(spec.cwd, Some("/srv/ody".to_string()));
    assert!(spec.env.iter().any(|(k, v)| k == "ODYSSEUS_INTERNAL_TOKEN" && v == "deadbeef"));
    assert!(spec.env.iter().any(|(k, v)| k == "AUTH_ENABLED" && v == "true"));
    assert_eq!(spec.health_url, "http://127.0.0.1:17000/api/health");
}

#[test]
fn myownllm_spec_serves_on_myos_private_port() {
    let spec = myownllm_spec("/usr/local/bin/myownllm");
    assert_eq!(spec.args, vec!["serve", "--port", "11473"]);
    assert_eq!(spec.health_url, "http://127.0.0.1:11473/healthz");
    assert!(spec.cwd.is_none());
}

#[test]
fn url_port_match_is_exact_not_substring() {
    assert!(url_has_port("http://127.0.0.1:1473", 1473));
    assert!(url_has_port("http://127.0.0.1:1473/v1", 1473));
    assert!(!url_has_port("http://127.0.0.1:14730", 1473));
    assert!(!url_has_port("http://127.0.0.1:14739/v1", 1473));
    assert!(!url_has_port("http://127.0.0.1:7000", 1473));
}

#[test]
fn token_is_64_hex_chars_and_unique() {
    let a = random_token();
    let b = random_token();
    assert_eq!(a.len(), 64);
    assert!(a.chars().all(|c| c.is_ascii_hexdigit()));
    assert_ne!(a, b, "two mints must differ");
}

#[test]
fn persistent_token_reuses_a_valid_stored_token() {
    let stored = "ab".repeat(32);
    let padded = format!("  {stored}\n");
    let (t, save) = persistent_token(Some(&padded));
    assert_eq!(t, stored);
    assert!(!save);
}

#[test]
fn persistent_token_mints_when_stored_token_is_missing_or_bad() {
    let (t, save) = persistent_token(None);
    assert!(save);
    assert!(is_valid_token(&t));
    let (t2, save2) = persistent_token(Some("not-a-token"));
    assert!(save2);
    assert!(is_valid_token(&t2));
}

#[test]
fn token_validity_is_64_hex_digits() {
    assert!(is_valid_token(&"0123456789abcdef".repeat(4)));
    assert!(!is_valid_token(&"0123456789abcdef".repeat(3)));
    assert!(!is_valid_token(&"g".repeat(64)));
}

#[test]
fn base_urls_are_loopback_on_the_pinned_ports() {
    assert_eq!(odysseus_base_url(), "http://127.0.0.1:17000");
    assert_eq!(myownllm_base_url(), "http://127.0.0.1:11473");
}

#[test]
fn registration_is_detected_by_exact_port() {
    let listed = Json::parse(r#"[{"base_url":"http://127.0.0.1:7000"},{"base_url":"http://localhost:11473/v1"}]"#).unwrap();
    assert!(myownllm_registered(&listed));
    let near = Json::parse(r#"[{"base_url":"http://127.0.0.1:114730"}]"#).unwrap();
    assert!(!myownllm_registered(&near));
    assert!(!myownllm_registered(&Json::parse(r#"{"base_url":"http://127.0.0.1:11473"}"#).unwrap()));
}

#[test]
fn a_minted_token_is_reused_on_the_next_launch() {
    let (minted, save) = persistent_token(None);
    assert!(save);
    let (again, save_again) = persistent_token(Some(&format!("{minted}\n")));
    assert_eq!(again, minted);
    assert!(!save_again);
}

fn ev(name: &str, status: &str, detail: Option<&str>) -> MyoEvent {
    MyoEvent::Engine { name: name.into(), status: status.into(), detail: detail.map(str::to_string) }
}

#[test]
fn sidecars_are_tried_dev_name_first() {
    assert_eq!(
        sidecar_candidates("x86_64-unknown-linux-gnu", false),
        vec!["myownllm-x86_64-unknown-linux-gnu".to_string(), "myownllm".to_string()]
    );
    assert_eq!(
        sidecar_candidates("x86_64-pc-windows-msvc", true),
        vec!["myownllm-x86_64-pc-windows-msvc.exe".to_string(), "myownllm.exe".to_string()]
    );
}

#[test]
fn the_engine_program_is_override_then_real_sidecar_then_path() {
    let sidecars = vec![("/app/myownllm-t".to_string(), Some(0u64)), ("/app/myownllm".to_string(), Some(42))];
    assert_eq!(resolve_engine_program(Some("/dev/engine"), &sidecars), "/dev/engine");
    assert_eq!(resolve_engine_program(None, &sidecars), "/app/myownllm");
    let missing = vec![("/app/myownllm-t".to_string(), None), ("/app/myownllm".to_string(), Some(0))];
    assert_eq!(resolve_engine_program(None, &missing), "myownllm");
    assert_eq!(resolve_engine_program(None, &[]), "myownllm");
}

#[test]
fn uvicorn_is_override_then_managed_venv_then_path() {
    assert_eq!(resolve_uvicorn(Some("/u"), Some("/venv/uvicorn")), "/u");
    assert_eq!(resolve_uvicorn(None, Some("/venv/uvicorn")), "/venv/uvicorn");
    assert_eq!(resolve_uvicorn(None, None), "uvicorn");
}

#[test]
fn an_engine_already_serving_is_left_alone() {
    let (mut s, first) = EngineStart::begin(Engine::MyOwnLlm);
    assert_eq!(first, ev("myownllm", "checking", None));
    assert_eq!(s.on_event(StartEvent::Probed(true)), vec![ev("myownllm", "healthy", None)]);
    assert_eq!(s.current(), StartPhase::Finished);
    assert!(s.on_event(StartEvent::Waited(false)).is_empty());
    assert_eq!(s.current(), StartPhase::Finished);
}

#[test]
fn a_missing_brain_source_is_unavailable() {
    let (mut s, _) = EngineStart::begin(Engine::Odysseus);
    assert!(s.on_event(StartEvent::Probed(false)).is_empty());
    assert_eq!(
        s.on_event(StartEvent::Located(false)),
        vec![ev("odysseus", "unavailable", Some("Odysseus source not found \u{2014} set MYO_ODYSSEUS_DIR to its checkout"))]
    );
    assert_eq!(s.current(), StartPhase::Finished);
}

#[test]
fn a_spawned_engine_ends_healthy_timed_out_or_in_error() {
    let (mut s, _) = EngineStart::begin(Engine::Odysseus);
    s.on_event(StartEvent::Probed(false));
    assert_eq!(s.on_event(StartEvent::Located(true)), vec![ev("odysseus", "starting", None)]);
    assert!(s.on_event(StartEvent::Spawned(Ok(()))).is_empty());
    assert_eq!(s.current(), StartPhase::Waiting);
    assert_eq!(s.on_event(StartEvent::Waited(false)), vec![ev("odysseus", "timeout", Some("did not become healthy in time"))]);

    let (mut m, _) = EngineStart::begin(Engine::MyOwnLlm);
    m.on_event(StartEvent::Probed(false));
    assert_eq!(m.on_event(StartEvent::Located(false)), vec![ev("myownllm", "starting", None)]);
    m.on_event(StartEvent::Spawned(Ok(())));
    assert_eq!(m.on_event(StartEvent::Waited(false)), vec![ev("myownllm", "timeout", Some("did not start serving in time"))]);

    let (mut f, _) = EngineStart::begin(Engine::MyOwnLlm);
    f.on_event(StartEvent::Probed(false));
    f.on_event(StartEvent::Located(true));
    assert_eq!(
        f.on_event(StartEvent::Spawned(Err("spawning myownllm (x): not found".into()))),
        vec![ev("myownllm", "error", Some("spawning myownllm (x): not found"))]
    );
    assert_eq!(f.current(), StartPhase::Finished);
}

#[test]
fn registration_is_reported_on_the_model_channel() {
    assert_eq!(registration_event(Ok(true)), ev("model", "ready", Some("registered MyOwnLLM as the default endpoint")));
    assert_eq!(registration_event(Ok(false)), ev("model", "ready", Some("MyOwnLLM already registered")));
    assert_eq!(registration_event(Err("boom".into())), ev("model", "error", Some("boom")));
}

#[test]
fn a_token_is_four_words_in_lowercase_hex() {
    let t = token_from_words([0, 1, 0xdeadbeef, u64::MAX]);
    assert_eq!(
        t,
        "00000000000000000000000000000001".to_string() + "00000000deadbeef" + "ffffffffffffffff"
    );
    let words = [0x0123456789abcdefu64, 42, 7, 0xfedcba9876543210];
    assert_eq!(token_from_words(words), words.iter().map(|w| format!("{w:016x}")).collect::<String>());
    let r = random_token();
    assert!(r.len() == 64 && r.chars().all(|c| c.is_ascii_digit() || ('a'..='f').contains(&c)));
}
