use myo::event::channel;
use myo::event::MyoEvent;
use myo::json::Json;

fn j(text: &str) -> Json {
    Json::parse(text).unwrap()
}

#[test]
fn assistant_delta_routes_and_serializes() {
    let e = MyoEvent::AssistantDelta { turn: 7, text: "hi".into() }.emit();
    assert_eq!(e.channel, channel::ASSISTANT);
    assert_eq!(e.payload.get("turn"), Some(&j("7")));
    assert_eq!(e.payload.get("kind"), Some(&j(r#""delta""#)));
    assert_eq!(e.payload.get("text"), Some(&j(r#""hi""#)));
}

#[test]
fn activity_output_carries_image() {
    let e = MyoEvent::ActivityOutput {
        turn: 1,
        tool: "bash".into(),
        output: Some("done".into()),
        exit_code: Some(0),
        image_url: Some("data:image/png;base64,AAA".into()),
        round: Some(2),
    }
    .emit();
    assert_eq!(e.channel, channel::ACTIVITY);
    assert_eq!(e.payload.get("phase"), Some(&j(r#""output""#)));
    assert_eq!(e.payload.get("exit_code"), Some(&j("0")));
    assert_eq!(e.payload.get("image_url"), Some(&j(r#""data:image/png;base64,AAA""#)));
}

#[test]
fn engine_event_has_no_turn() {
    let e = MyoEvent::Engine { name: "odysseus".into(), status: "healthy".into(), detail: None }.emit();
    assert_eq!(e.channel, channel::ENGINE);
    assert_eq!(e.payload.get("name"), Some(&j(r#""odysseus""#)));
    assert_eq!(e.payload.get("status"), Some(&j(r#""healthy""#)));
    assert!(e.payload.get("turn").is_none());
}

#[test]
fn channels_use_the_myo_scheme() {
    for c in [
        channel::ASSISTANT,
        channel::TRANSCRIPT,
        channel::ACTIVITY,
        channel::ARTIFACT,
        channel::UI,
        channel::PROGRESS,
        channel::AUDIO,
        channel::ENGINE,
        channel::DREAM,
    ] {
        assert!(c.starts_with("myo://"));
    }
}

#[test]
fn negative_exit_codes_stay_negative() {
    let e = MyoEvent::ActivityOutput {
        turn: 2,
        tool: "shell".into(),
        output: None,
        exit_code: Some(-1),
        image_url: None,
        round: None,
    }
    .emit();
    assert_eq!(e.payload.get("exit_code"), Some(&j("-1")));
    assert_eq!(e.payload.get("output"), Some(&j("null")));
}

#[test]
fn dream_events_route_to_the_dream_channel() {
    let e = MyoEvent::Dream { phase: "forget".into(), note: Some("n".into()) }.emit();
    assert_eq!(e.channel, channel::DREAM);
    assert_eq!(e.payload.get("phase"), Some(&j(r#""forget""#)));
    assert_eq!(e.payload.get("note"), Some(&j(r#""n""#)));
}
