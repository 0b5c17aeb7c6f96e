use myo::json::Json;
use myo::memory::{
    consolidate_note, consolidation_messages, consolidation_summary, dream_work, forget_note,
    plural, DreamWork, StepOutcome, WorkingMemory, CONSOLIDATE_INSTRUCTION,
};
use myo::tools::memory::{RecallTool, RememberStep, RememberTool, INCOGNITO_NOTE, RECALL_K};

fn j(text: &str) -> Json {
    Json::parse(text).unwrap()
}

#[test]
fn keeps_order_and_caps_at_max() {
    let mut w = WorkingMemory::new(4);
    w.record_user("u1");
    w.record_assistant("a1");
    w.record_user("u2");
    w.record_assistant("a2");
    w.record_user("u3");
    let win = w.window();
    assert_eq!(win.len(), 4);
    assert_eq!(win.first().unwrap().content, "a1");
    assert_eq!(win.last().unwrap().content, "u3");
}

#[test]
fn empty_assistant_reply_is_skipped() {
    let mut w = WorkingMemory::new(10);
    w.record_user("hi");
    w.record_assistant("   ");
    assert_eq!(w.window().len(), 1);
}

#[test]
fn a_zero_cap_still_keeps_the_latest_turn() {
    let mut w = WorkingMemory::new(0);
    w.record_user("one");
    w.record_user("two");
    let win = w.window();
    assert_eq!(win.len(), 1);
    assert_eq!(win[0].content, "two");
    assert_eq!(win[0].role, "user");
    w.clear();
    assert!(w.window().is_empty());
}

#[test]
fn dream_forgets_before_it_consolidates() {
    assert_eq!(dream_work(3, true), DreamWork::Forget);
    assert_eq!(dream_work(0, true), DreamWork::Consolidate);
    assert_eq!(dream_work(0, false), DreamWork::Rest);
    assert_eq!(DreamWork::Forget.outcome(), StepOutcome::Worked);
    assert_eq!(DreamWork::Consolidate.outcome(), StepOutcome::Worked);
    assert_eq!(DreamWork::Rest.outcome(), StepOutcome::Idle);
}

#[test]
fn dream_notes_read_naturally() {
    assert_eq!(plural(1, "memory", "memories"), "memory");
    assert_eq!(plural(2, "memory", "memories"), "memories");
    assert_eq!(forget_note(1), "let go of 1 aging memory");
    assert_eq!(forget_note(12), "let go of 12 aging memories");
    assert_eq!(consolidate_note(3, "event"), "compacting 3 event memories");
}

#[test]
fn consolidation_request_lists_the_cluster() {
    let texts = vec!["sailed monday".to_string(), "sailed tuesday".to_string()];
    let msgs = consolidation_messages("event", &texts);
    assert_eq!(msgs.len(), 2);
    assert_eq!(msgs[0].role, "system");
    assert_eq!(msgs[0].content, CONSOLIDATE_INSTRUCTION);
    assert_eq!(msgs[1].role, "user");
    assert_eq!(msgs[1].content, "Category: event\nMemories:\n- sailed monday\n- sailed tuesday\n");
}

#[test]
fn an_empty_consolidation_is_an_error() {
    assert_eq!(consolidation_summary("  the gist \n"), Ok("the gist".to_string()));
    assert_eq!(
        consolidation_summary(" \n "),
        Err("consolidation produced an empty summary".to_string())
    );
}

#[test]
fn remember_requires_text() {
    let t = RememberTool;
    assert_eq!(t.step(&j("{}"), false), Err("remember requires a 'text' string".to_string()));
    assert_eq!(
        t.step(&j(r#"{ "text": "   " }"#), false),
        Err("remember requires non-empty 'text'".to_string())
    );
}

#[test]
fn remember_is_paused_in_incognito() {
    let t = RememberTool;
    assert_eq!(t.step(&j(r#"{ "text": "secret" }"#), true), Ok(RememberStep::Paused));
    assert!(INCOGNITO_NOTE.contains("Incognito"));
}

#[test]
fn remember_trims_and_defaults_the_category() {
    let t = RememberTool;
    assert_eq!(
        t.step(&j(r#"{ "text": "  likes tea ", "category": " preference " }"#), false),
        Ok(RememberStep::Save { text: "likes tea".into(), category: "preference".into() })
    );
    assert_eq!(
        t.step(&j(r#"{ "text": "x", "category": "  " }"#), false),
        Ok(RememberStep::Save { text: "x".into(), category: "fact".into() })
    );
    assert_eq!(RememberTool::saved_text(7, "fact"), "Saved to long-term memory (id 7, category fact).");
    assert_eq!(RememberTool::progress_text("x"), "Remembered: x");
    assert_eq!(t.name(), "remember");
    assert_eq!(t.headline(&j(r#"{ "text": "x" }"#)), Some("x".to_string()));
}

#[test]
fn recall_reads_query_and_clamps_limit() {
    let t = RecallTool;
    assert_eq!(t.args(&j(r#"{"query":"tea"}"#)), Ok(("tea".to_string(), RECALL_K)));
    assert_eq!(t.args(&j(r#"{"query":"tea","limit":0}"#)), Ok(("tea".to_string(), 1)));
    assert_eq!(t.args(&j(r#"{"query":"tea","limit":99}"#)), Ok(("tea".to_string(), 10)));
    assert_eq!(t.args(&j(r#"{"limit":3}"#)), Err("recall requires a 'query' string".to_string()));
}

#[test]
fn recall_text_lists_what_was_found() {
    assert_eq!(RecallTool::result_text("tea", &[]), "Nothing in long-term memory about \"tea\".");
    let hits = vec!["likes green tea".to_string(), "no sugar".to_string()];
    assert_eq!(
        RecallTool::result_text("tea", &hits),
        "From long-term memory about \"tea\":\n- likes green tea\n- no sugar\n"
    );
}

#[test]
fn memory_tool_schemas_name_their_functions() {
    let r = RememberTool.schema();
    let f = r.get("function").unwrap();
    assert_eq!(f.get("name"), Some(&j(r#""remember""#)));
    let required = f.get("parameters").and_then(|p| p.get("required")).unwrap();
    assert_eq!(required, &j(r#"["text"]"#));
    let q = RecallTool.schema();
    assert_eq!(q.get("function").and_then(|f| f.get("name")), Some(&j(r#""recall""#)));
}
