use myo::json::Json;
use myo::llm::MYO_PERSONA;
use myo::event::MyoEvent;
use myo::shell::{
    dream_pause_secs, effective_persona, is_idle_at, memory_id, memory_list_json, persona_is_custom,
    persona_override, persona_report, turn_failed, list_memories, MemoryEntry,
};

#[test]
fn a_blank_custom_persona_falls_back_to_the_built_in_one() {
    assert_eq!(effective_persona(None), MYO_PERSONA);
    assert_eq!(effective_persona(Some("   ")), MYO_PERSONA);
    assert_eq!(effective_persona(Some("  Be terse. ")), "Be terse.");
    assert!(!persona_is_custom(Some("\n")));
    assert!(persona_is_custom(Some("x")));
    assert_eq!(persona_override("  "), None);
    assert_eq!(persona_override(" Be kind "), Some(" Be kind ".to_string()));
}

#[test]
fn persona_report_lists_effective_default_and_custom() {
    let r = persona_report(Some("Be terse."));
    assert_eq!(r.get("effective"), Some(&Json::Str("Be terse.".into())));
    assert_eq!(r.get("default"), Some(&Json::Str(MYO_PERSONA.into())));
    assert_eq!(r.get("custom"), Some(&Json::Bool(true)));
}

#[test]
fn downtime_needs_no_running_turn_and_enough_quiet() {
    assert!(is_idle_at(false, 70_000, 10_000, 60));
    assert!(!is_idle_at(false, 69_999, 10_000, 60));
    assert!(!is_idle_at(true, 1_000_000, 0, 60));
    assert!(!is_idle_at(false, i64::MIN, i64::MAX, 0));
    assert_eq!(dream_pause_secs(0), 2);
    assert_eq!(dream_pause_secs(8), 8);
}

#[test]
fn a_failed_turn_reports_the_error_then_closes() {
    let evs = turn_failed(9, "engine unreachable");
    assert_eq!(evs.len(), 2);
    match &evs[0] {
        MyoEvent::Progress { turn, kind, data } => {
            assert_eq!(*turn, 9);
            assert_eq!(kind, "error");
            assert_eq!(data.to_text(), r#"{"message":"engine unreachable"}"#);
        }
        other => panic!("expected Progress, got {other:?}"),
    }
    assert_eq!(evs[1], MyoEvent::AssistantDone { turn: 9 });
}

#[test]
fn memory_ids_are_decimal_i64_text() {
    assert_eq!(memory_id("42"), Ok(42));
    assert_eq!(memory_id("-7"), Ok(-7));
    assert_eq!(memory_id("+3"), Ok(3));
    assert_eq!(memory_id("9223372036854775807"), Ok(i64::MAX));
    assert_eq!(memory_id("-9223372036854775808"), Ok(i64::MIN));
    assert_eq!(memory_id("9223372036854775808"), Err("invalid memory id: 9223372036854775808".to_string()));
    assert_eq!(memory_id(""), Err("invalid memory id: ".to_string()));
    assert_eq!(memory_id("-+1"), Err("invalid memory id: -+1".to_string()));
    assert_eq!(memory_id("1a"), Err("invalid memory id: 1a".to_string()));
    for s in ["0", "-0", "17", "-17", "+0", " 1", "1 ", "--1", "-", "+"] {
        assert_eq!(memory_id(s).ok(), s.parse::<i64>().ok(), "{s:?}");
    }
}

#[test]
fn the_memory_panel_lists_ids_as_text() {
    let entries = vec![
        MemoryEntry { id: 3, text: "likes tea".into(), category: "preference".into(), created_at: 1700000000 },
        MemoryEntry { id: -1, text: "x".into(), category: "fact".into(), created_at: 0 },
    ];
    assert_eq!(
        memory_list_json(&entries).to_text(),
        r#"{"memory":[{"category":"preference","created_at":1700000000,"id":"3","text":"likes tea"},{"category":"fact","created_at":0,"id":"-1","text":"x"}]}"#
    );
    assert_eq!(memory_list_json(&[]).to_text(), r#"{"memory":[]}"#);
}

fn entry(id: i64, text: &str) -> MemoryEntry {
    MemoryEntry { id, text: text.into(), category: "fact".into(), created_at: id * 10 }
}

#[test]
fn the_memory_search_is_case_insensitive_and_keeps_order() {
    let all = vec![entry(3, "Loves Green TEA"), entry(2, "works on Myo"), entry(1, "green thumb")];
    let ids = |v: Vec<MemoryEntry>| v.into_iter().map(|m| m.id).collect::<Vec<_>>();
    assert_eq!(ids(list_memories(&all, None)), vec![3, 2, 1]);
    assert_eq!(ids(list_memories(&all, Some("   "))), vec![3, 2, 1]);
    assert_eq!(ids(list_memories(&all, Some("GREEN"))), vec![3, 1]);
    assert_eq!(ids(list_memories(&all, Some("tea"))), vec![3]);
    assert_eq!(ids(list_memories(&all, Some("coffee"))), Vec::<i64>::new());
    let got = list_memories(&all, Some("myo"));
    assert_eq!(got, vec![entry(2, "works on Myo")]);
}
