use myo::brain::{
    chat_form, disabled_tools_body, disabled_tools_of, frame_to_events, health_ok, session_id,
    tts_reply, version_of, BrainConfig,
};
use myo::capabilities::Capabilities;
use myo::event::MyoEvent;
use myo::json::Json;

fn j(text: &str) -> Json {
    Json::parse(text).unwrap()
}

#[test]
fn chat_form_carries_the_capability_flags() {
    let caps = Capabilities { web: false, files: true, code: true, reach_out: false };
    let form = chat_form("hello", "s1", caps, true);
    let get = |k: &str| form.iter().find(|(n, _)| n == k).map(|(_, v)| v.as_str());
    assert_eq!(get("message"), Some("hello"));
    assert_eq!(get("session"), Some("s1"));
    assert_eq!(get("mode"), Some("agent"));
    assert_eq!(get("use_rag"), Some("true"));
    assert_eq!(get("allow_bash"), Some("true"));
    assert_eq!(get("allow_web_search"), Some("false"));
    assert_eq!(get("incognito"), Some("true"));
}

#[test]
fn frames_normalize_and_garbage_is_skipped() {
    assert_eq!(
        frame_to_events(r#"{"delta":"hi"}"#, 4),
        vec![MyoEvent::AssistantDelta { turn: 4, text: "hi".into() }]
    );
    assert!(frame_to_events("{not json", 4).is_empty());
}

#[test]
fn brain_replies_are_read() {
    assert!(health_ok(&j(r#"{"status":"healthy"}"#)));
    assert!(!health_ok(&j(r#"{"status":"starting"}"#)));
    assert_eq!(version_of(&j(r#"{"version":"1.2"}"#)), "1.2");
    assert_eq!(version_of(&j("{}")), "");
    assert_eq!(session_id(&j(r#"{"id":"abc"}"#)), Some("abc".into()));
    assert_eq!(session_id(&j("{}")), None);
    let a = tts_reply(&j(r#"{"audio":"AAAA"}"#)).unwrap();
    assert_eq!(a.b64, "AAAA");
    assert_eq!(a.mime, "audio/mpeg");
    assert!(tts_reply(&j("{}")).is_none());
}

#[test]
fn disabled_tools_round_trip_through_the_wire() {
    let v = j(r#"{"tools":[{"id":"bash","enabled":false},{"id":"web_search","enabled":true},{"id":"python","enabled":false}]}"#);
    assert_eq!(disabled_tools_of(&v), vec!["bash".to_string(), "python".to_string()]);
    assert!(disabled_tools_of(&j("{}")).is_empty());
    let body = disabled_tools_body(&["bash".to_string()]);
    assert_eq!(body, j(r#"{"disabled":["bash"]}"#));
}

#[test]
fn brain_config_keeps_its_fields() {
    let c = BrainConfig::new("http://127.0.0.1:17000", "tok", "me");
    assert_eq!(c.base_url, "http://127.0.0.1:17000");
    assert_eq!(c.token, "tok");
    assert_eq!(c.owner, "me");
    let t = BrainConfig::new("http://127.0.0.1:7000/", "tok", "myo");
    assert_eq!(t.base_url, "http://127.0.0.1:7000");
    assert_eq!(BrainConfig::new("http://h//", "t", "o").base_url, "http://h");
}

use myo::brain::BrainStream;

#[test]
fn a_streamed_turn_emits_frames_then_closes_once() {
    let mut s = BrainStream::new(3);
    assert!(s.absorb(b"data: {\"del").is_empty());
    let evs = s.absorb(b"ta\":\"Hi\"}\n\n: ping\n\ndata: {\"delta\":\" there\"}\n\ndata: [DONE]\n\ndata: {\"delta\":\"late\"}\n\n");
    assert_eq!(
        evs,
        vec![
            MyoEvent::AssistantDelta { turn: 3, text: "Hi".into() },
            MyoEvent::AssistantDelta { turn: 3, text: " there".into() },
        ]
    );
    assert!(s.is_done());
    assert!(s.absorb(b"data: {\"delta\":\"ignored\"}\n\n").is_empty());
    assert_eq!(s.close(), vec![MyoEvent::AssistantDone { turn: 3 }]);
}

#[test]
fn a_broken_off_stream_flushes_its_last_frame() {
    let mut s = BrainStream::new(5);
    assert!(s.absorb(b"data: {\"delta\":\"tail\"}").is_empty());
    assert!(!s.is_done());
    assert_eq!(
        s.close(),
        vec![
            MyoEvent::AssistantDelta { turn: 5, text: "tail".into() },
            MyoEvent::AssistantDone { turn: 5 },
        ]
    );
}

#[test]
fn chat_stream_normalizes_and_finishes_with_done() {
    let mut s = BrainStream::new(1);
    let mut events = s.absorb(
        b"data: {\"delta\":\"Hel\"}\n\n\
          data: {\"delta\":\"lo\"}\n\n\
          data: {\"type\":\"tool_start\",\"tool\":\"bash\",\"command\":\"ls\"}\n\n\
          data: [DONE]\n\n",
    );
    events.extend(s.close());
    assert_eq!(
        events,
        vec![
            MyoEvent::AssistantDelta { turn: 1, text: "Hel".into() },
            MyoEvent::AssistantDelta { turn: 1, text: "lo".into() },
            MyoEvent::ActivityStart {
                turn: 1,
                tool: "bash".into(),
                command: Some("ls".into()),
                round: None,
            },
            MyoEvent::AssistantDone { turn: 1 },
        ]
    );
}

#[test]
fn chat_stream_flushes_trailing_frame_and_closes_on_eof() {
    let mut s = BrainStream::new(1);
    let mut events = s.absorb(b"data: {\"delta\":\"bye\"}");
    events.extend(s.close());
    assert_eq!(
        events,
        vec![
            MyoEvent::AssistantDelta { turn: 1, text: "bye".into() },
            MyoEvent::AssistantDone { turn: 1 },
        ]
    );
}
