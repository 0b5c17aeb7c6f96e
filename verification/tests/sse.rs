use myo::event::MyoEvent;
use myo::json::Json;
use myo::sse::normalize::normalize;
use myo::sse::{SseDecoder, SseItem};

fn j(text: &str) -> Json {
    Json::parse(text).unwrap()
}

fn data_strings(items: Vec<SseItem>) -> Vec<String> {
    items
        .into_iter()
        .filter_map(|i| match i {
            SseItem::Data(s) => Some(s),
            SseItem::Done => None,
        })
        .collect()
}

#[test]
fn decodes_single_frame() {
    let mut d = SseDecoder::new();
    let items = d.feed(b"data: {\"delta\":\"hi\"}\n\n");
    assert_eq!(items, vec![SseItem::Data("{\"delta\":\"hi\"}".into())]);
}

#[test]
fn reassembles_across_chunk_boundaries() {
    let mut d = SseDecoder::new();
    assert!(d.feed(b"data: {\"de").is_empty());
    let items = d.feed(b"lta\":\"hi\"}\n\n");
    assert_eq!(data_strings(items), vec!["{\"delta\":\"hi\"}"]);
}

#[test]
fn skips_heartbeat_comments() {
    let mut d = SseDecoder::new();
    let items = d.feed(b": heartbeat 3\n\ndata: {\"type\":\"agent_step\",\"round\":1}\n\n");
    assert_eq!(data_strings(items).len(), 1);
}

#[test]
fn recognizes_done() {
    let mut d = SseDecoder::new();
    let items = d.feed(b"data: [DONE]\n\n");
    assert_eq!(items, vec![SseItem::Done]);
}

#[test]
fn multibyte_split_across_chunks_is_intact() {
    let mut d = SseDecoder::new();
    let payload = "data: {\"delta\":\"café\"}\n\n".as_bytes();
    let split = 19;
    assert!(d.feed(&payload[..split]).is_empty());
    let items = d.feed(&payload[split..]);
    let s = &data_strings(items)[0];
    assert!(s.contains("café"));
}

#[test]
fn normalize_text_delta() {
    let v = j(r#"{ "delta": "hello" }"#);
    assert_eq!(
        normalize(&v, 5),
        vec![MyoEvent::AssistantDelta { turn: 5, text: "hello".into() }]
    );
}

#[test]
fn normalize_thinking_delta_goes_to_progress_not_tts() {
    let v = j(r#"{ "delta": "let me think", "thinking": true }"#);
    match &normalize(&v, 1)[0] {
        MyoEvent::Progress { kind, .. } => assert_eq!(kind, "thinking"),
        other => panic!("expected progress, got {other:?}"),
    }
}

#[test]
fn normalize_tool_start() {
    let v = j(r#"{ "type": "tool_start", "tool": "bash", "command": "ls -la", "round": 2 }"#);
    assert_eq!(
        normalize(&v, 9),
        vec![MyoEvent::ActivityStart {
            turn: 9,
            tool: "bash".into(),
            command: Some("ls -la".into()),
            round: Some(2),
        }]
    );
}

#[test]
fn normalize_tool_output_with_screenshot_and_ui_event() {
    let v = j(r#"{
        "type": "tool_output", "tool": "builtin_browser", "command": "open",
        "output": "ok", "exit_code": 0,
        "screenshot": "data:image/png;base64,AAAA",
        "ui_event": "open_panel", "panel": "gallery"
    }"#);
    let out = normalize(&v, 3);
    match &out[0] {
        MyoEvent::ActivityOutput { image_url, tool, .. } => {
            assert_eq!(tool, "builtin_browser");
            assert_eq!(image_url.as_deref(), Some("data:image/png;base64,AAAA"));
        }
        other => panic!("expected activity output, got {other:?}"),
    }
    match &out[1] {
        MyoEvent::Ui { directive, .. } => assert_eq!(directive, "open_panel"),
        other => panic!("expected ui, got {other:?}"),
    }
}

#[test]
fn normalize_ui_control_extracts_directive() {
    let v = j(r#"{ "type": "ui_control", "data": { "ui_event": "toggle", "toggle_name": "web", "state": true } }"#);
    match &normalize(&v, 1)[0] {
        MyoEvent::Ui { directive, data, .. } => {
            assert_eq!(directive, "toggle");
            assert_eq!(data.get("toggle_name"), Some(&j(r#""web""#)));
            assert_eq!(data.get("state"), Some(&j("true")));
        }
        other => panic!("expected ui, got {other:?}"),
    }
}

#[test]
fn malformed_ui_control_without_event_is_ignored() {
    let v = j(r#"{ "type": "ui_control", "data": { "foo": 1 } }"#);
    assert!(normalize(&v, 1).is_empty());
    let v2 = j(r#"{ "type": "ui_control", "data": { "ui_event": "" } }"#);
    assert!(normalize(&v2, 1).is_empty());
}

#[test]
fn normalize_doc_stream() {
    let open = j(r#"{ "type": "doc_stream_open", "title": "Budget", "language": "markdown" }"#);
    assert_eq!(
        normalize(&open, 1),
        vec![MyoEvent::ArtifactOpen {
            turn: 1,
            title: Some("Budget".into()),
            language: Some("markdown".into()),
        }]
    );
    let delta = j(r##"{ "type": "doc_stream_delta", "content": "# Budget\n" }"##);
    assert_eq!(
        normalize(&delta, 1),
        vec![MyoEvent::ArtifactDelta { turn: 1, content: "# Budget\n".into() }]
    );
}

#[test]
fn normalize_doc_update_keeps_id_and_version() {
    let v = j(r#"{ "type": "doc_update", "doc_id": "d1", "content": "body", "version": 4, "title": "T", "language": "md" }"#);
    assert_eq!(
        normalize(&v, 1),
        vec![MyoEvent::ArtifactUpdate {
            turn: 1,
            doc_id: Some("d1".into()),
            title: Some("T".into()),
            language: Some("md".into()),
            content: Some("body".into()),
            version: Some(4),
        }]
    );
}

#[test]
fn normalize_memories_used_becomes_progress() {
    let v = j(r#"{ "type": "memories_used", "data": [{ "text": "ships Friday", "category": "fact", "type": "recalled" }] }"#);
    match &normalize(&v, 2)[0] {
        MyoEvent::Progress { kind, data, .. } => {
            assert_eq!(kind, "memories_used");
            let first = &data.as_array().unwrap()[0];
            assert_eq!(first.get("text"), Some(&j(r#""ships Friday""#)));
        }
        other => panic!("expected progress, got {other:?}"),
    }
}

#[test]
fn normalize_inline_metadata_keeps_whole_event() {
    let v = j(r#"{ "type": "model_info", "model": "myownllm", "suffix": "Research" }"#);
    match &normalize(&v, 1)[0] {
        MyoEvent::Progress { kind, data, .. } => {
            assert_eq!(kind, "model_info");
            assert_eq!(data.get("model"), Some(&j(r#""myownllm""#)));
            assert_eq!(data.get("suffix"), Some(&j(r#""Research""#)));
        }
        other => panic!("expected progress, got {other:?}"),
    }
}

#[test]
fn unknown_type_is_ignored() {
    let v = j(r#"{ "type": "some_future_event", "whatever": 1 }"#);
    assert!(normalize(&v, 1).is_empty());
}

#[test]
fn empty_object_is_ignored() {
    assert!(normalize(&j("{}"), 1).is_empty());
}

#[test]
fn chunking_a_stream_anywhere_yields_the_same_items() {
    let stream: &[u8] = b": ping\n\ndata: {\"a\":1}\n\ndata: [DONE]\n\n";
    let mut whole = SseDecoder::new();
    let expected = whole.feed(stream);
    for split in 0..stream.len() {
        let mut d = SseDecoder::new();
        let mut got = d.feed(&stream[..split]);
        got.extend(d.feed(&stream[split..]));
        assert_eq!(got, expected, "split at {split}");
    }
    assert_eq!(expected, vec![SseItem::Data("{\"a\":1}".into()), SseItem::Done]);
}

#[test]
fn finish_flushes_an_unterminated_frame() {
    let mut d = SseDecoder::new();
    assert!(d.feed(b"data: tail").is_empty());
    assert_eq!(d.finish(), Some(SseItem::Data("tail".into())));
    assert_eq!(d.finish(), None);
}

#[test]
fn carriage_returns_end_lines_and_multiline_data_joins() {
    let mut d = SseDecoder::new();
    let items = d.feed(b"data: x\r\n\ndata:a\ndata: b\n\n");
    assert_eq!(items, vec![SseItem::Data("x".into()), SseItem::Data("a\nb".into())]);
}
