use myo::memory::ingest::{extraction_messages, parse_extracted, should_ingest, EXTRACT_INSTRUCTION, MAX_PER_TURN};

#[test]
fn parse_none_yields_nothing() {
    assert!(parse_extracted("NONE").is_empty());
    assert!(parse_extracted("  none  ").is_empty());
    assert!(parse_extracted("").is_empty());
}

#[test]
fn parse_categorized_lines() {
    let out = parse_extracted("preference: the user takes coffee black\nfact: the user lives in Berlin");
    assert_eq!(out.len(), 2);
    assert_eq!(out[0], ("preference".to_string(), "the user takes coffee black".to_string()));
    assert_eq!(out[1].0, "fact");
}

#[test]
fn parse_tolerates_bullets_and_missing_category() {
    let out = parse_extracted("- the user has a dog named Pip\n* project: writing a novel");
    assert_eq!(out.len(), 2);
    assert_eq!(out[0].0, "fact");
    assert!(out[0].1.contains("Pip"));
    assert_eq!(out[1].0, "project");
}

#[test]
fn parse_caps_per_turn_and_skips_trailing_none() {
    let many = "fact: a\nfact: b\nfact: c\nfact: d\nNONE";
    assert_eq!(parse_extracted(many).len(), MAX_PER_TURN);
}

#[test]
fn parse_does_not_treat_a_sentence_colon_as_category() {
    let out = parse_extracted("the user said: I love hiking on weekends");
    assert_eq!(out.len(), 1);
    assert_eq!(out[0].0, "fact");
    assert!(out[0].1.contains("I love hiking"));
}

#[test]
fn labels_are_lowercased_and_bounded() {
    let out = parse_extracted("• Preference: tea\r\nabcdefghijklmnopqrstu: too long\nÉvent: trip\nproject:   \n");
    assert_eq!(
        out,
        vec![
            ("preference".to_string(), "tea".to_string()),
            ("fact".to_string(), "abcdefghijklmnopqrstu: too long".to_string()),
            ("évent".to_string(), "trip".to_string()),
        ]
    );
}

#[test]
fn incognito_and_silent_turns_are_not_read() {
    assert!(!should_ingest("hello", true));
    assert!(!should_ingest("  \n", false));
    assert!(should_ingest("hello", false));
    let msgs = extraction_messages("I like tea", "Noted.");
    assert_eq!(msgs[0].content, EXTRACT_INSTRUCTION);
    assert_eq!(msgs[1].content, "User: I like tea\nAssistant: Noted.");
}
