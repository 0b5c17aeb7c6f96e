use myo::json::Json;
use myo::event::MyoEvent;
use myo::llm::{
    ChatStream, chat_request, check_reply, Exchange, completion_content, engine_url, normalize_base_url, openai_delta, parse_frame,
    ChatMessage, ToolCall, ToolCallAccumulator, ToolCallDelta, ToolStream, TurnOutcome,
    MYO_PERSONA,
};

fn j(text: &str) -> Json {
    Json::parse(text).unwrap()
}

#[test]
fn openai_delta_extracts_content_only() {
    assert_eq!(openai_delta(r#"{"choices":[{"delta":{"content":"Hi"}}]}"#), Some("Hi".into()));
    assert_eq!(openai_delta(r#"{"choices":[{"delta":{"role":"assistant"}}]}"#), None);
    assert_eq!(openai_delta(r#"{"choices":[{"delta":{},"finish_reason":"stop"}]}"#), None);
    assert_eq!(openai_delta("not json at all"), None);
}

#[test]
fn parse_frame_pulls_content_finish_and_tool_fragments() {
    let f = parse_frame(r#"{"choices":[{"delta":{"content":"hi"}}]}"#);
    assert_eq!(f.content.as_deref(), Some("hi"));
    assert!(f.tool_calls.is_empty());

    let f = parse_frame(
        r#"{"choices":[{"delta":{"tool_calls":[{"index":0,"id":"c1","function":{"name":"shell"}}]}}]}"#,
    );
    assert_eq!(f.tool_calls.len(), 1);
    assert_eq!(f.tool_calls[0].index, 0);
    assert_eq!(f.tool_calls[0].id.as_deref(), Some("c1"));
    assert_eq!(f.tool_calls[0].name.as_deref(), Some("shell"));
    assert_eq!(f.tool_calls[0].arguments, None);

    let f = parse_frame(r#"{"choices":[{"delta":{},"finish_reason":"tool_calls"}]}"#);
    assert_eq!(f.finish.as_deref(), Some("tool_calls"));
}

#[test]
fn arguments_assemble_from_string_fragments() {
    let mut acc = ToolCallAccumulator::new();
    acc.feed(ToolCallDelta {
        index: 0,
        id: Some("c1".into()),
        name: Some("shell".into()),
        arguments: Some("{\"comm".into()),
    });
    acc.feed(ToolCallDelta { index: 0, id: None, name: None, arguments: Some("and\":\"ls\"}".into()) });
    let calls = acc.finish();
    assert_eq!(calls.len(), 1);
    assert_eq!(calls[0].id, "c1");
    assert_eq!(calls[0].name, "shell");
    assert_eq!(calls[0].arguments, r#"{"command":"ls"}"#);
}

#[test]
fn arguments_as_whole_object_are_normalized_to_string() {
    let f = parse_frame(
        r#"{"choices":[{"delta":{"tool_calls":[{"index":0,"id":"c1","function":{"name":"web_search","arguments":{"query":"rust"}}}]}}]}"#,
    );
    let mut acc = ToolCallAccumulator::new();
    for d in f.tool_calls {
        acc.feed(d);
    }
    let calls = acc.finish();
    assert_eq!(calls.len(), 1);
    assert_eq!(calls[0].name, "web_search");
    assert_eq!(calls[0].arguments, r#"{"query":"rust"}"#);
}

#[test]
fn parallel_tool_calls_stay_in_first_seen_order() {
    let mut acc = ToolCallAccumulator::new();
    acc.feed(ToolCallDelta {
        index: 0,
        id: Some("a".into()),
        name: Some("shell".into()),
        arguments: Some("{}".into()),
    });
    acc.feed(ToolCallDelta {
        index: 1,
        id: Some("b".into()),
        name: Some("read_file".into()),
        arguments: Some("{".into()),
    });
    acc.feed(ToolCallDelta { index: 1, id: None, name: None, arguments: Some("}".into()) });
    let calls = acc.finish();
    assert_eq!(calls.len(), 2);
    assert_eq!(calls[0].name, "shell");
    assert_eq!(calls[1].name, "read_file");
}

#[test]
fn accumulator_synthesizes_id_and_drops_nameless_rows() {
    let mut acc = ToolCallAccumulator::new();
    acc.feed(ToolCallDelta { index: 2, id: None, name: Some("shell".into()), arguments: Some("{}".into()) });
    acc.feed(ToolCallDelta { index: 9, id: Some("x".into()), name: None, arguments: Some("noise".into()) });
    let calls = acc.finish();
    assert_eq!(calls.len(), 1);
    assert_eq!(calls[0].id, "call_2");
}

#[test]
fn tool_stream_returns_calls_when_the_model_asks_for_tools() {
    let mut s = ToolStream::new();
    assert_eq!(s.absorb(r#"{"choices":[{"delta":{"role":"assistant"}}]}"#), None);
    assert_eq!(
        s.absorb(r#"{"choices":[{"delta":{"tool_calls":[{"index":0,"id":"c1","function":{"name":"shell","arguments":"{\"command\":\"ls\"}"}}]}}]}"#),
        None
    );
    match s.finish() {
        TurnOutcome::ToolCalls(calls) => {
            assert_eq!(calls.len(), 1);
            assert_eq!(calls[0].name, "shell");
            assert_eq!(calls[0].arguments, r#"{"command":"ls"}"#);
        }
        other => panic!("expected tool calls, got {other:?}"),
    }
}

#[test]
fn tool_stream_returns_the_answer_without_calls() {
    let mut s = ToolStream::new();
    assert_eq!(s.absorb(r#"{"choices":[{"delta":{"content":"Hel"}}]}"#), Some("Hel".into()));
    assert_eq!(s.absorb(r#"{"choices":[{"delta":{"content":""}}]}"#), None);
    assert_eq!(s.absorb(r#"{"choices":[{"delta":{"content":"lo"}}]}"#), Some("lo".into()));
    assert_eq!(s.finish(), TurnOutcome::Message("Hello".into()));
}

#[test]
fn messages_carry_their_roles() {
    assert_eq!(ChatMessage::system("s").role, "system");
    assert_eq!(ChatMessage::user("u").content, "u");
    let t = ChatMessage::tool("c1", "out");
    assert_eq!(t.role, "tool");
    assert_eq!(t.tool_call_id.as_deref(), Some("c1"));
    let calls = vec![ToolCall { id: "c1".into(), name: "shell".into(), arguments: "{}".into() }];
    let a = ChatMessage::assistant_calls(&calls);
    assert_eq!(a.role, "assistant");
    assert_eq!(a.tool_calls.len(), 1);
}

#[test]
fn chat_request_holds_model_messages_and_stream_flag() {
    let req = chat_request("m", &[ChatMessage::user("hi")], true, &[]);
    assert_eq!(req.get("model"), Some(&j(r#""m""#)));
    assert_eq!(req.get("stream"), Some(&j("true")));
    let msgs = req.get("messages").and_then(|m| m.as_array()).unwrap();
    assert_eq!(msgs.len(), 1);
    assert_eq!(msgs[0].get("role"), Some(&j(r#""user""#)));
    assert_eq!(msgs[0].get("content"), Some(&j(r#""hi""#)));
}

#[test]
fn completion_content_reads_the_first_choice() {
    let v = j(r#"{"choices":[{"message":{"content":"done"}}]}"#);
    assert_eq!(completion_content(&v), "done");
    assert_eq!(completion_content(&j("{}")), "");
}

#[test]
fn base_urls_lose_trailing_slashes() {
    assert_eq!(normalize_base_url("http://h:1///"), "http://h:1");
    assert_eq!(engine_url("http://h:1", "/v1/models"), "http://h:1/v1/models");
}

#[test]
fn persona_is_spoken_and_nonempty() {
    assert!(MYO_PERSONA.starts_with("You are Myo"));
}

#[test]
fn failed_replies_name_the_exchange_and_quote_the_body() {
    assert_eq!(check_reply(Exchange::Chat, 200, "200 OK", "ignored"), Ok(()));
    assert_eq!(
        check_reply(Exchange::Chat, 500, "500 Internal Server Error", "boom"),
        Err("chat failed (HTTP 500 Internal Server Error): boom".to_string())
    );
    let long = "x".repeat(400);
    let e = check_reply(Exchange::Completion, 404, "404 Not Found", &long).unwrap_err();
    assert_eq!(e, format!("completion failed (HTTP 404 Not Found): {}", "x".repeat(300)));
}

#[test]
fn chat_stream_tools_returns_tool_calls() {
    let mut s = ChatStream::new(1);
    let events = s.absorb(
        b"data: {\"choices\":[{\"delta\":{\"tool_calls\":[{\"index\":0,\"id\":\"c1\",\"function\":{\"name\":\"shell\",\"arguments\":\"{\\\"command\\\":\\\"ls\\\"}\"}}]}}]}\n\n\
          data: {\"choices\":[{\"delta\":{},\"finish_reason\":\"tool_calls\"}]}\n\n\
          data: [DONE]\n\n",
    );
    match s.finish() {
        TurnOutcome::ToolCalls(calls) => {
            assert_eq!(calls.len(), 1);
            assert_eq!(calls[0].name, "shell");
            assert_eq!(calls[0].arguments, r#"{"command":"ls"}"#);
        }
        other => panic!("expected ToolCalls, got {other:?}"),
    }
    assert!(!events.iter().any(|e| matches!(e, MyoEvent::AssistantDone { .. })));
}

#[test]
fn chat_stream_tools_returns_final_message() {
    let mut s = ChatStream::new(1);
    s.absorb(
        b"data: {\"choices\":[{\"delta\":{\"content\":\"All \"}}]}\n\n\
          data: {\"choices\":[{\"delta\":{\"content\":\"done.\"}}]}\n\n\
          data: {\"choices\":[{\"delta\":{},\"finish_reason\":\"stop\"}]}\n\n\
          data: [DONE]\n\n",
    );
    assert_eq!(s.finish(), TurnOutcome::Message("All done.".into()));
}

#[test]
fn a_chat_stream_split_anywhere_emits_each_delta_and_stops_at_done() {
    let mut s = ChatStream::new(4);
    assert!(s.absorb(b"data: {\"choices\":[{\"delta\":{\"con").is_empty());
    let evs = s.absorb(
        b"tent\":\"Hel\"}}]}\n\ndata: {\"choices\":[{\"delta\":{\"role\":\"assistant\"}}]}\n\n\
          data: {\"choices\":[{\"delta\":{\"content\":\"lo\"}}]}\n\ndata: [DONE]\n\n\
          data: {\"choices\":[{\"delta\":{\"content\":\"late\"}}]}\n\n",
    );
    assert_eq!(
        evs,
        vec![
            MyoEvent::AssistantDelta { turn: 4, text: "Hel".into() },
            MyoEvent::AssistantDelta { turn: 4, text: "lo".into() },
        ]
    );
    assert!(s.is_done());
    assert!(s.absorb(b"data: {\"choices\":[{\"delta\":{\"content\":\"x\"}}]}\n\n").is_empty());
    assert_eq!(s.finish(), TurnOutcome::Message("Hello".into()));
}

#[test]
fn where_a_chat_stream_is_split_does_not_matter() {
    let body: &[u8] = b"data: {\"choices\":[{\"delta\":{\"content\":\"A\"}}]}\n\n\
        data: {\"choices\":[{\"delta\":{\"tool_calls\":[{\"index\":0,\"id\":\"c\",\"function\":{\"name\":\"web_search\",\"arguments\":\"{\\\"q\\\"\"}}]}}]}\n\n\
        data: {\"choices\":[{\"delta\":{\"tool_calls\":[{\"index\":0,\"function\":{\"arguments\":\":1}\"}}]}}]}\n\n\
        data: {\"choices\":[{\"delta\":{\"content\":\"B\"}}]}\n\ndata: [DONE]\n\n";
    let mut whole = ChatStream::new(2);
    let all = whole.absorb(body);
    let whole_end = whole.finish();
    for cut in 0..=body.len() {
        let mut s = ChatStream::new(2);
        let mut evs = s.absorb(&body[..cut]);
        evs.extend(s.absorb(&body[cut..]));
        assert_eq!(evs, all, "split at {cut}");
        assert_eq!(s.finish(), whole_end, "split at {cut}");
    }
    match whole_end {
        TurnOutcome::ToolCalls(c) => assert_eq!(c[0].arguments, "{\"q\":1}"),
        other => panic!("expected ToolCalls, got {other:?}"),
    }
}

#[test]
fn streamed_calls_take_last_id_and_name_in_first_seen_order() {
    let d = |index: usize, id: Option<&str>, name: Option<&str>, args: Option<&str>| ToolCallDelta {
        index,
        id: id.map(str::to_string),
        name: name.map(str::to_string),
        arguments: args.map(str::to_string),
    };
    let mut acc = ToolCallAccumulator::new();
    acc.feed(d(1, Some("a"), Some("shell"), Some("{\"c")));
    acc.feed(d(0, None, Some("read_file"), Some("{}")));
    acc.feed(d(7, Some("x"), None, Some("noise")));
    acc.feed(d(1, Some("b"), None, Some("\":1}")));
    acc.feed(d(0, Some("z"), Some("web_search"), None));
    acc.feed(d(0, Some(""), None, None));
    let calls = acc.finish();
    assert_eq!(
        calls,
        vec![
            ToolCall { id: "b".into(), name: "shell".into(), arguments: "{\"c\":1}".into() },
            ToolCall { id: "call_0".into(), name: "web_search".into(), arguments: "{}".into() },
        ]
    );
}
