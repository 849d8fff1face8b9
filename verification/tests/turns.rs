use prompt_window::conversation::Conversation;
use prompt_window::correspondence::Correspondence;
use prompt_window::turn::{
    accumulate_fragments, EngineError, Fragment, FragmentKind, StreamAccumulator, StreamSignal,
};

fn entry(user: &str, assistant: &str) -> Correspondence {
    Correspondence::new(user.to_string(), assistant.to_string())
}

#[test]
fn scenario_empty_history() {
    let conv = Conversation::new(
        "You're a helpful assistant.".to_string(),
        "".to_string(),
        500,
    );
    assert_eq!(conv.context_window_len("Hi"), 0);
    assert!(conv.selected_entries("Hi").is_empty());
    let p = conv.begin_turn("Hi");
    assert!(p.starts_with("Correspondence History:\n\n\nSystem Prompt:\n"));
    assert!(p.ends_with("User Input:\nHi"));
}

#[test]
fn scenario_one_entry_fits() {
    let mut conv = Conversation::new(
        "You're a helpful assistant.".to_string(),
        "".to_string(),
        500,
    );
    conv.append_correspondence(entry("Hey there!", "Hi! What can I help you with?"));
    let input = "What is 1 + 1?";
    assert_eq!(conv.context_window_len(input), 1);
    let sel = conv.selected_entries(input);
    assert_eq!(sel.len(), 1);
    assert_eq!(sel[0].user, "Hey there!");
    assert_eq!(sel[0].assistant, "Hi! What can I help you with?");
    let p = conv.begin_turn(input);
    assert!(p.contains("user:\nHey there!\nassistant:\nHi! What can I help you with?"));
}

#[test]
fn scenario_base_fills_budget() {
    // The fixed parts alone reach the budget of 10: system prompt 8 words,
    // user input 2 words. The 5-word history entry is rejected, but the
    // fixed parts still go out untrimmed.
    let mut conv = Conversation::new(
        "w1 w2 w3 w4 w5 w6 w7 w8".to_string(),
        "".to_string(),
        10,
    );
    conv.append_correspondence(entry("a b", "c"));
    assert_eq!(count_entry_words(&conv.history[0]), 5);
    assert_eq!(conv.context_window_len("x y"), 0);
    let p = conv.begin_turn("x y");
    assert!(p.contains("System Prompt:\nw1 w2 w3 w4 w5 w6 w7 w8"));
    assert!(p.contains("Correspondence History:\n\n\n"));
}

fn count_entry_words(c: &Correspondence) -> usize {
    prompt_window::words::count_words(&c.to_string())
}

#[test]
fn scenario_stop_on_first_miss() {
    // Rendered entry sizes, oldest first: A = 50 words, B = 5, C = 5. The
    // budget leaves room for 12 words after the (empty) base. The walk takes
    // C then B, rejects A, and stops.
    let a_user = (1..=24).map(|i| format!("a{i}")).collect::<Vec<_>>().join(" ");
    let a_asst = (25..=48).map(|i| format!("a{i}")).collect::<Vec<_>>().join(" ");
    let mut conv = Conversation::new("".to_string(), "".to_string(), 12);
    conv.append_correspondence(entry(&a_user, &a_asst));
    conv.append_correspondence(entry("b1 b2", "b3"));
    conv.append_correspondence(entry("c1 c2", "c3"));
    assert_eq!(count_entry_words(&conv.history[0]), 50);
    assert_eq!(count_entry_words(&conv.history[1]), 5);
    assert_eq!(count_entry_words(&conv.history[2]), 5);
    assert_eq!(conv.context_window_len(""), 2);
    let sel = conv.selected_entries("");
    assert_eq!(sel.len(), 2);
    assert_eq!(sel[0].user, "b1 b2");
    assert_eq!(sel[1].user, "c1 c2");
    let p = conv.begin_turn("");
    assert!(!p.contains("a1 "));
    assert!(p.contains("b1 b2"));
    assert!(p.contains("c1 c2"));
}

#[test]
fn stop_even_when_older_would_fit() {
    // Oldest first: small (2-word user making 5 rendered words), huge, small.
    // The huge middle entry is rejected and the walk stops, so the small
    // oldest entry is excluded even though it would fit on its own.
    let big: String = (0..40).map(|i| format!("x{i}")).collect::<Vec<_>>().join(" ");
    let mut conv = Conversation::new("".to_string(), "".to_string(), 12);
    conv.append_correspondence(entry("old1 old2", "old3"));
    conv.append_correspondence(entry(&big, "y"));
    conv.append_correspondence(entry("new1 new2", "new3"));
    assert_eq!(conv.context_window_len("q"), 1);
    let sel = conv.selected_entries("q");
    assert_eq!(sel.len(), 1);
    assert_eq!(sel[0].user, "new1 new2");
}

#[test]
fn budget_exactly_met_accepts() {
    // base 2 + entry 5 == budget 7: the <= rule accepts the entry.
    let mut conv = Conversation::new("s1 s2".to_string(), "".to_string(), 7);
    conv.append_correspondence(entry("u1 u2", "a1"));
    assert_eq!(conv.context_window_len(""), 1);
    // One word less of budget and the entry no longer fits.
    conv.max_context_length_words = 6;
    assert_eq!(conv.context_window_len(""), 0);
}

#[test]
fn accumulate_generated_only() {
    let frags = vec![
        Fragment { kind: FragmentKind::PromptEcho, text: "System".to_string() },
        Fragment { kind: FragmentKind::Generated, text: "Hel".to_string() },
        Fragment { kind: FragmentKind::PromptEcho, text: " Prompt:".to_string() },
        Fragment { kind: FragmentKind::Generated, text: "lo".to_string() },
    ];
    assert_eq!(accumulate_fragments(&frags), "Hello");
}

#[test]
fn accumulator_signals_continue() {
    let mut acc = StreamAccumulator::new();
    assert_eq!(
        acc.push_fragment(FragmentKind::PromptEcho, "echoed"),
        StreamSignal::Continue
    );
    assert_eq!(
        acc.push_fragment(FragmentKind::Generated, "kept"),
        StreamSignal::Continue
    );
    assert_eq!(acc.text, "kept");
}

#[test]
fn completed_turn_appends_once() {
    let mut conv = Conversation::new("S".to_string(), "".to_string(), 500);
    conv.append_correspondence(entry("u1", "a1"));
    let r = conv.finish_turn("What is 1 + 1?", Ok("2".to_string()));
    assert_eq!(r, Ok(()));
    assert_eq!(conv.history.len(), 2);
    assert_eq!(conv.history[1].user, "What is 1 + 1?");
    assert_eq!(conv.history[1].assistant, "2");
    assert_eq!(conv.history[0].user, "u1");
}

#[test]
fn scenario_failed_stream_changes_nothing() {
    let mut conv = Conversation::new("S".to_string(), "".to_string(), 500);
    conv.append_correspondence(entry("u1", "a1"));
    // Three fragments arrived before the engine failed; the partial reply is
    // discarded rather than appended.
    let mut acc = StreamAccumulator::new();
    acc.push_fragment(FragmentKind::Generated, "par");
    acc.push_fragment(FragmentKind::Generated, "ti");
    acc.push_fragment(FragmentKind::Generated, "al");
    assert_eq!(acc.text, "partial");
    let before = conv.display_string();
    let r = conv.finish_turn("lost input", Err(EngineError::GenerationFailure));
    assert_eq!(r, Err(EngineError::GenerationFailure));
    assert_eq!(conv.history.len(), 1);
    assert_eq!(conv.display_string(), before);
}

#[test]
fn start_failure_surfaces() {
    let mut conv = Conversation::new("S".to_string(), "".to_string(), 500);
    let r = conv.finish_turn("input", Err(EngineError::StartFailure));
    assert_eq!(r, Err(EngineError::StartFailure));
    assert!(conv.history.is_empty());
    assert_ne!(EngineError::StartFailure, EngineError::GenerationFailure);
}
