use firefly::memory::build_memory_message;
use firefly::store::MemRow;

fn mem(text: &str) -> MemRow {
    MemRow {
        id: "id".into(),
        user_id: "u".into(),
        text: text.into(),
        source_conversation: None,
        updated_at: "2026-06-08T00:00:00.000Z".into(),
    }
}

#[test]
fn none_when_empty() {
    assert!(build_memory_message(&[]).is_none());
}

#[test]
fn none_when_all_blank() {
    assert!(build_memory_message(&[mem("   "), mem("")]).is_none());
}

#[test]
fn builds_system_message_in_order() {
    let msg = build_memory_message(&[mem("likes tea"), mem("lives in Berlin")]).unwrap();
    assert_eq!(msg.role, "system");
    assert!(msg.content.contains("- likes tea"));
    assert!(msg.content.contains("- lives in Berlin"));
    // order preserved (best-first)
    assert!(msg.content.find("likes tea").unwrap() < msg.content.find("Berlin").unwrap());
}

#[test]
fn exact_memory_message_skips_blank_and_trims() {
    let msg = build_memory_message(&[mem("  a  "), mem(" \t"), mem("b")]).unwrap();
    assert_eq!(
        msg.content,
        "Relevant context about the user, retrieved from saved memories. Use it only if helpful and ignore anything irrelevant to the question.\n- a\n- b"
    );
}
