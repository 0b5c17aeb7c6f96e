use myo::converse::TurnAllocator;

#[test]
fn turn_ids_start_at_one_and_increase() {
    let mut a = TurnAllocator::new();
    assert_eq!(a.allocate(), 1);
    assert_eq!(a.allocate(), 2);
    assert_eq!(a.allocate(), 3);
}

use myo::converse::{
    assemble_context, capture_spoken, collect_results, memories_used, memory_note, offer_tools,
    refuse_call, spoken_text, tool_error_result, tool_output_event, voice_event, MAX_TOOL_ROUNDS,
};
use myo::event::MyoEvent;
use myo::json::Json;
use myo::llm::ChatMessage;
use myo::speech::TtsAudio;
use myo::tools::{ToolResult, TOOL_PREAMBLE};

#[test]
fn context_stacks_persona_memories_window_and_user() {
    let window = vec![ChatMessage::user("earlier"), ChatMessage::assistant("reply")];
    let hits = vec!["likes tea".to_string()];
    let ctx = assemble_context("P", &hits, window, "now", true);
    let roles: Vec<&str> = ctx.iter().map(|m| m.role.as_str()).collect();
    assert_eq!(roles, vec!["system", "system", "system", "user", "assistant", "user"]);
    assert_eq!(ctx[0].content, "P");
    assert_eq!(ctx[1].content, TOOL_PREAMBLE);
    assert!(ctx[2].content.ends_with("- likes tea\n"));
    assert_eq!(ctx[5].content, "now");
    let bare = assemble_context("P", &[], Vec::new(), "now", false);
    assert_eq!(bare.len(), 2);
}

#[test]
fn memory_note_lists_each_hit() {
    let note = memory_note(&["a".to_string(), "b".to_string()]);
    assert!(note.starts_with("Here are some things you remember"));
    assert!(note.ends_with(":\n- a\n- b\n"));
    match memories_used(3, &["a".to_string()]) {
        MyoEvent::Progress { turn, kind, data } => {
            assert_eq!(turn, 3);
            assert_eq!(kind, "memories_used");
            assert_eq!(data, Json::parse(r#"[{"text":"a"}]"#).unwrap());
        }
        other => panic!("expected progress, got {other:?}"),
    }
}

#[test]
fn a_refused_call_reads_as_not_available() {
    let (events, text) = refuse_call(1, 0, "read_file");
    assert_eq!(text, "The tool 'read_file' is not available — its capability is turned off.");
    assert_eq!(events.len(), 2);
    assert!(matches!(&events[0], MyoEvent::ActivityStart { tool, command: None, .. } if tool == "read_file"));
    assert!(matches!(&events[1], MyoEvent::ActivityOutput { output: Some(o), exit_code: None, .. } if *o == text));
}

#[test]
fn tool_rounds_are_bounded() {
    assert!(offer_tools(0));
    assert!(offer_tools(MAX_TOOL_ROUNDS - 1));
    assert!(!offer_tools(MAX_TOOL_ROUNDS));
}

#[test]
fn tool_results_reach_the_model_and_the_pill() {
    assert_eq!(tool_error_result("boom").text, "tool error: boom");
    let r = ToolResult { text: "ok".into(), exit_code: Some(0) };
    assert_eq!(
        tool_output_event(2, 1, "shell", &r),
        MyoEvent::ActivityOutput {
            turn: 2,
            tool: "shell".into(),
            output: Some("ok".into()),
            exit_code: Some(0),
            image_url: None,
            round: Some(1),
        }
    );
    let got = collect_results(vec![Some(("c1".into(), "x".into())), None]);
    assert_eq!(got, vec![("c1".to_string(), "x".to_string()), (String::new(), String::new())]);
}

#[test]
fn voice_prefers_engine_audio_and_still_voices_blank_answers() {
    assert_eq!(voice_event(1, "", None), MyoEvent::AudioSpeak { turn: 1, text: String::new() });
    let audio = TtsAudio { b64: "AAAA".into(), mime: "audio/wav".into() };
    assert_eq!(
        voice_event(1, "hi", Some(audio)),
        MyoEvent::AudioReady { turn: 1, b64: "AAAA".into(), mime: "audio/wav".into() }
    );
    assert_eq!(voice_event(1, "hi", None), MyoEvent::AudioSpeak { turn: 1, text: "hi".into() });
    assert_eq!(spoken_text("  hi there \n"), "hi there");
}

#[test]
fn spoken_text_accumulates_answer_deltas_only() {
    let mut spoken = String::new();
    capture_spoken(&mut spoken, &MyoEvent::AssistantDelta { turn: 1, text: "Hel".into() });
    capture_spoken(&mut spoken, &MyoEvent::AssistantDone { turn: 1 });
    capture_spoken(&mut spoken, &MyoEvent::AssistantDelta { turn: 1, text: "lo".into() });
    assert_eq!(spoken, "Hello");
}

use myo::converse::{plan_call, CallPlan, TurnLoop, TurnStep};
use myo::llm::{ToolCall, TurnOutcome};
use myo::tools::ToolKind;

fn call(id: &str, name: &str, args: &str) -> ToolCall {
    ToolCall { id: id.into(), name: name.into(), arguments: args.into() }
}

#[test]
fn calls_outside_the_kit_are_refused_and_kit_calls_planned() {
    let kit = vec![ToolKind::Shell];
    match plan_call(&kit, &call("c1", "read_file", "{}"), 4, 1) {
        CallPlan::Refused { events, text } => {
            assert_eq!(events.len(), 2);
            assert!(text.contains("read_file"));
        }
        other => panic!("expected a refusal, got {other:?}"),
    }
    match plan_call(&kit, &call("c2", "shell", r#"{"command":"ls"}"#), 4, 1) {
        CallPlan::Run { tool, args, start } => {
            assert_eq!(tool, ToolKind::Shell);
            assert_eq!(args.get_str("command"), Some("ls"));
            assert_eq!(
                start,
                MyoEvent::ActivityStart { turn: 4, tool: "shell".into(), command: Some("ls".into()), round: Some(1) }
            );
        }
        other => panic!("expected a run, got {other:?}"),
    }
    match plan_call(&kit, &call("c3", "shell", "not json"), 4, 1) {
        CallPlan::Run { args, start, .. } => {
            assert_eq!(args, Json::Object(Vec::new()));
            assert!(matches!(start, MyoEvent::ActivityStart { command: None, .. }));
        }
        other => panic!("expected a run, got {other:?}"),
    }
}

#[test]
fn the_turn_loop_runs_tools_then_answers() {
    let mut t = TurnLoop::new(9, vec![ChatMessage::system("P"), ChatMessage::user("list files")]);
    assert_eq!(t.turn(), 9);
    assert!(t.tools_offered());
    let step = t.on_outcome(TurnOutcome::ToolCalls(vec![call("c1", "shell", "{}")]));
    assert_eq!(step, TurnStep::RunCalls { round: 1, calls: vec![call("c1", "shell", "{}")] });
    assert_eq!(t.messages().len(), 3);
    assert_eq!(t.messages()[2].tool_calls.len(), 1);
    t.on_results(vec![("c1".into(), "a.txt".into())]);
    assert_eq!(t.messages().len(), 4);
    assert_eq!(t.messages()[3].role, "tool");
    assert_eq!(t.messages()[3].tool_call_id.as_deref(), Some("c1"));
    let done = t.on_outcome(TurnOutcome::Message("  There is a.txt. ".into()));
    assert_eq!(
        done,
        TurnStep::Done { spoken: "There is a.txt.".into(), done: MyoEvent::AssistantDone { turn: 9 } }
    );
    assert_eq!(t.voice("There is a.txt.", None), MyoEvent::AudioSpeak { turn: 9, text: "There is a.txt.".into() });
    assert_eq!(t.round(), 1);
}

#[test]
fn the_last_round_offers_no_tools() {
    let mut t = TurnLoop::new(1, Vec::new());
    for _ in 0..MAX_TOOL_ROUNDS {
        assert!(t.tools_offered());
        let _ = t.on_outcome(TurnOutcome::ToolCalls(Vec::new()));
    }
    assert!(!t.tools_offered());
    assert_eq!(t.round(), MAX_TOOL_ROUNDS);
}

use myo::capabilities::Capabilities;
use myo::llm::ChatStream;
use myo::tools::registry;

/// Drive one native turn the way the edge does, with the engine's streamed
/// replies given as raw bodies and no audio from synthesis.
fn drive_turn(turn: u64, caps: Capabilities, bodies: &[&[u8]], events: &mut Vec<MyoEvent>) -> String {
    let kit = registry(caps);
    let mut t = TurnLoop::new(turn, vec![ChatMessage::system("You are Myo."), ChatMessage::user("delete everything")]);
    for body in bodies {
        let mut s = ChatStream::new(turn);
        events.extend(s.absorb(body));
        match t.on_outcome(s.finish()) {
            TurnStep::Done { spoken, done } => {
                events.push(done);
                events.push(t.voice(&spoken, None));
                return spoken;
            }
            TurnStep::RunCalls { round, calls } => {
                let mut results = Vec::new();
                for c in &calls {
                    match plan_call(&kit, c, turn, round) {
                        CallPlan::Refused { events: evs, text } => {
                            events.extend(evs);
                            results.push((c.id.clone(), text));
                        }
                        CallPlan::Run { .. } => panic!("a tool outside the kit must not run"),
                    }
                }
                t.on_results(results);
            }
        }
    }
    panic!("the engine never answered");
}

#[test]
fn disabled_tool_is_refused_not_run() {
    let caps = Capabilities { web: false, files: false, code: false, reach_out: false };
    let mut events = Vec::new();
    let reply = drive_turn(
        1,
        caps,
        &[
            b"data: {\"choices\":[{\"delta\":{\"tool_calls\":[{\"index\":0,\"id\":\"c1\",\"function\":{\"name\":\"shell\",\"arguments\":\"{\\\"command\\\":\\\"rm -rf /\\\"}\"}}]}}]}\n\n\
              data: {\"choices\":[{\"delta\":{},\"finish_reason\":\"tool_calls\"}]}\n\n\
              data: [DONE]\n\n",
            b"data: {\"choices\":[{\"delta\":{\"content\":\"I can't run that.\"}}]}\n\n\
              data: {\"choices\":[{\"delta\":{},\"finish_reason\":\"stop\"}]}\n\n\
              data: [DONE]\n\n",
        ],
        &mut events,
    );
    assert_eq!(reply, "I can't run that.");
    assert!(events.iter().any(|e| matches!(
        e,
        MyoEvent::ActivityOutput { output: Some(o), exit_code: None, .. } if o.contains("not available")
    )));
    let dones = events.iter().filter(|e| matches!(e, MyoEvent::AssistantDone { .. })).count();
    assert_eq!(dones, 1);
    let audio = events.iter().filter(|e| matches!(e, MyoEvent::AudioReady { .. } | MyoEvent::AudioSpeak { .. })).count();
    assert_eq!(audio, 1);
    assert!(matches!(events.last(), Some(MyoEvent::AudioSpeak { turn: 1, .. })));
}

#[test]
fn a_blank_answer_still_closes_and_is_voiced_once() {
    let mut events = Vec::new();
    let reply = drive_turn(
        2,
        Capabilities::default(),
        &[b"data: {\"choices\":[{\"delta\":{\"content\":\"   \"}}]}\n\ndata: [DONE]\n\n"],
        &mut events,
    );
    assert_eq!(reply, "");
    assert_eq!(
        events[events.len() - 2..],
        [MyoEvent::AssistantDone { turn: 2 }, MyoEvent::AudioSpeak { turn: 2, text: String::new() }]
    );
}
