use myo::brain::check_reply;
use myo::event::{channel, MyoEvent};
use myo::json::Json;
use myo::progress::{active_event, PollAction, ProgressPoller, ACTIVE_POLL_MS, IDLE_POLL_MS};
use myo::update::lock_holder;

fn j(text: &str) -> Json {
    Json::parse(text).unwrap()
}

#[test]
fn active_event_routes_to_progress_with_model_load_kind() {
    let entry = j(r#"{"model":"m","kind":"chat","phase":"downloading","percent":0.5,"completed":1,"total":2,"detail":"d"}"#);
    let emitted = active_event(vec![entry]).emit();
    assert_eq!(emitted.channel, channel::PROGRESS);
    assert_eq!(emitted.payload.get("kind"), Some(&j(r#""model_load""#)));
    let first = &emitted.payload.get("data").and_then(|d| d.get("active")).and_then(|a| a.as_array()).unwrap()[0];
    assert_eq!(first.get("model"), Some(&j(r#""m""#)));
    assert_eq!(first.get("percent"), Some(&j("0.5")));
}

#[test]
fn empty_active_event_clears_the_bar() {
    let emitted = active_event(Vec::new()).emit();
    assert_eq!(emitted.payload.get("data").and_then(|d| d.get("active")), Some(&j("[]")));
    assert!(matches!(active_event(Vec::new()), MyoEvent::Progress { turn: 0, .. }));
}

#[test]
fn the_poller_clears_the_bar_once_after_a_load() {
    let mut p = ProgressPoller::new();
    assert_eq!(p.on_poll(false), (PollAction::Quiet, IDLE_POLL_MS));
    assert_eq!(p.on_poll(true), (PollAction::Publish, ACTIVE_POLL_MS));
    assert_eq!(p.on_poll(true), (PollAction::Publish, ACTIVE_POLL_MS));
    assert_eq!(p.on_poll(false), (PollAction::Clear, IDLE_POLL_MS));
    assert_eq!(p.on_poll(false), (PollAction::Quiet, IDLE_POLL_MS));
}

#[test]
fn lock_files_name_their_holder() {
    assert_eq!(lock_holder("1234\n"), Some(1234));
    assert_eq!(lock_holder("  42 "), Some(42));
    assert_eq!(lock_holder("x"), None);
    assert_eq!(lock_holder("4294967296"), None);
}

#[test]
fn failed_brain_replies_carry_their_status_and_body() {
    assert_eq!(check_reply(200, "200 OK", "whatever"), Ok(()));
    assert_eq!(check_reply(403, "403 Forbidden", "nope"), Err("HTTP 403 Forbidden: nope".to_string()));
    let long = "y".repeat(600);
    assert_eq!(check_reply(500, "500", &long).unwrap_err().len(), "HTTP 500: ".len() + 500);
}
