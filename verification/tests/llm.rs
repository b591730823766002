use firefly::llm::{completion_text, routed_event, ReplyStream, StreamEvent, StreamStep};
use firefly::router::{Route, Tier};

fn emitted(step: StreamStep) -> Vec<StreamEvent> {
    match step {
        StreamStep::Emit(events) => events,
        StreamStep::Finished => panic!("finished"),
        StreamStep::Skipped => panic!("skipped"),
    }
}

#[test]
fn stream_accumulates_content_and_emits_reasoning() {
    let mut s = ReplyStream::new();
    let ev = emitted(s.on_data(r#"{"choices":[{"delta":{"reasoning_content":"hmm"}}]}"#));
    assert_eq!(ev, vec![StreamEvent::Reasoning { text: "hmm".into() }]);
    let ev = emitted(s.on_data(r#"{"choices":[{"delta":{"content":"Hel"}}]}"#));
    assert_eq!(ev, vec![StreamEvent::Token { text: "Hel".into() }]);
    let ev = emitted(s.on_data(r#"{"choices":[{"delta":{"content":"lo","reasoning_content":""}}]}"#));
    assert_eq!(ev, vec![StreamEvent::Token { text: "lo".into() }]);
    let ev = emitted(s.on_data(r#"{"choices":[{"delta":{"content":""}}]}"#));
    assert!(ev.is_empty());
    assert!(matches!(s.on_data("not json"), StreamStep::Skipped));
    assert!(matches!(s.on_data("[DONE]"), StreamStep::Finished));
    assert_eq!(s.accumulated, "Hello");
}

#[test]
fn delta_with_both_texts_gives_reasoning_then_token() {
    let mut s = ReplyStream::new();
    let ev = s.on_delta(Some("think".into()), Some("say".into()));
    assert_eq!(
        ev,
        vec![StreamEvent::Reasoning { text: "think".into() }, StreamEvent::Token { text: "say".into() }]
    );
    assert_eq!(s.accumulated, "say");
    assert!(s.on_delta(None, None).is_empty());
    assert_eq!(s.accumulated, "say");
}

#[test]
fn routed_event_carries_tier_name() {
    let r = Route {
        tier: Tier::HomeBase,
        endpoint: "http://f:4000".into(),
        model: "chat-heavy".into(),
        use_token: true,
        degraded: false,
    };
    assert_eq!(
        routed_event(&r),
        StreamEvent::Routed { tier: "home-base".into(), model: "chat-heavy".into(), degraded: false }
    );
}

#[test]
fn whole_stream_reply_is_content_before_done() {
    let items = [
        r#"{"choices":[{"delta":{"content":"Hi"}}]}"#,
        "keep-alive",
        r#"{"choices":[{"delta":{"reasoning_content":"think"}}]}"#,
        r#"{"choices":[{"delta":{"content":" there"}}]}"#,
        "[DONE]",
        r#"{"choices":[{"delta":{"content":"late"}}]}"#,
    ];
    let mut s = ReplyStream::new();
    for data in items {
        if matches!(s.on_data(data), StreamStep::Finished) {
            break;
        }
    }
    assert_eq!(s.accumulated, "Hi there");
}

#[test]
fn completion_text_reads_first_choice_content() {
    assert_eq!(
        completion_text(r#"{"choices":[{"message":{"role":"assistant","content":"Trip to Rome"}}]}"#).as_deref(),
        Some("Trip to Rome")
    );
    assert_eq!(completion_text(r#"{"choices":[]}"#).as_deref(), Some(""));
    assert_eq!(completion_text(r#"{"choices":[{"message":{"content":null}}]}"#).as_deref(), Some(""));
    assert_eq!(completion_text("not json"), None);
}
