use firefly::commands::{
    progress_lines, pull_progress, PullProgress,
    chat_history, check_owner, flag_text, message_ids, naming_messages, needs_generated_title,
    normalized_title, on_device_base, on_device_hint, parse_flag, profile_for_models, profile_list,
    profile_of, pulled_count, readiness_from_tags, resolve_settings, route_failure,
    should_inject_memories, with_memory, OnDevice, StoredSettings, SyncSummary, SyncTally,
    plan_send, profiles_gate, summarize_sync, sync_gate, UserSync, SYNC_BUSY, SYNC_NO_PROFILES, SYNC_OFFLINE,
};
use firefly::error::AppError;
use firefly::llm::ChatMsg;
use firefly::naming::NAMING_SYSTEM_PROMPT;
use firefly::router::{Profile, RouteError, RouteInputs, TaskHint, Tier};
use firefly::store::{Message, MsgRow, User};
use firefly::sync::PullResponse;

fn nothing_stored() -> StoredSettings {
    StoredSettings {
        firefly_endpoint: None,
        on_device_endpoint: None,
        on_device_model: None,
        model_code: None,
        model_chat_heavy: None,
        model_frontier: None,
        sync_endpoint: None,
        device_name: None,
        memory_enabled: None,
    }
}

#[test]
fn settings_fall_back_to_defaults() {
    let s = resolve_settings(nothing_stored());
    assert_eq!(s.firefly_endpoint, "http://firefly.taild9c345.ts.net:4000");
    assert_eq!(s.on_device_endpoint, "http://localhost:11434");
    assert_eq!(s.on_device_model, "qwen3.6:27b");
    assert_eq!(s.model_code, "code");
    assert_eq!(s.model_chat_heavy, "chat-heavy");
    assert_eq!(s.model_frontier, "frontier");
    assert_eq!(s.sync_endpoint, "http://firefly.taild9c345.ts.net:8788");
    assert_eq!(s.device_name, "firefly-device");
    assert!(s.memory_enabled);
}

#[test]
fn stored_settings_win() {
    let mut st = nothing_stored();
    st.model_code = Some("coder".into());
    st.memory_enabled = Some("false".into());
    let s = resolve_settings(st);
    assert_eq!(s.model_code, "coder");
    assert!(!s.memory_enabled);
}

#[test]
fn flags_parse_like_bool() {
    assert!(parse_flag("true"));
    assert!(!parse_flag("false"));
    assert!(parse_flag("garbage"));
    assert_eq!(flag_text(true), "true");
    assert_eq!(flag_text(false), "false");
}

#[test]
fn on_device_base_strips_slashes_and_v1() {
    assert_eq!(on_device_base("localhost:11434/v1/"), "http://localhost:11434");
    assert_eq!(on_device_base("http://host/v1/v1"), "http://host");
    assert_eq!(on_device_base("https://host"), "https://host");
}

#[test]
fn readiness_checks_the_model_list() {
    let body = r#"{"models":[{"name":"a"},{"name":"qwen3.6:27b"},{"name":3}]}"#;
    assert_eq!(
        readiness_from_tags("qwen3.6:27b", body),
        OnDevice::Ready { model: "qwen3.6:27b".into() }
    );
    assert_eq!(readiness_from_tags("x", "not json"), OnDevice::ModelMissing { model: "x".into() });
    assert_eq!(readiness_from_tags("a", r#"{"models":[]}"#), OnDevice::ModelMissing { model: "a".into() });
    assert_eq!(readiness_from_tags("3", body), OnDevice::ModelMissing { model: "3".into() });
}

#[test]
fn hints_for_each_state() {
    assert_eq!(
        on_device_hint(&OnDevice::Unreachable, false).as_deref(),
        Some("the on-device model server isn't running. Start it (e.g. `ollama serve`) and try again.")
    );
    assert_eq!(
        on_device_hint(&OnDevice::ModelMissing { model: "m".into() }, false).as_deref(),
        Some("the on-device model \"m\" isn't downloaded yet. Pull it before using on-device chat.")
    );
    assert_eq!(on_device_hint(&OnDevice::Ready { model: "m".into() }, false), None);
    assert_eq!(on_device_hint(&OnDevice::Unreachable, true), None);
}

#[test]
fn route_failures_become_messages() {
    assert!(matches!(
        route_failure(RouteError::Refused("no".into()), Some("hint".into())),
        AppError::Other(m) if m == "no"
    ));
    assert!(matches!(
        route_failure(RouteError::NotConfigured("nc".into()), Some("hint".into())),
        AppError::Other(m) if m == "hint"
    ));
    assert!(matches!(
        route_failure(RouteError::NotConfigured("nc".into()), None),
        AppError::Other(m) if m == "nc"
    ));
}

#[test]
fn profile_follows_allowed_models() {
    let kid = vec!["fast".to_string(), "chat-heavy".to_string()];
    let adult = vec!["fast".to_string(), "code".to_string()];
    assert_eq!(profile_for_models(&kid, "code", "frontier"), "kid");
    assert_eq!(profile_for_models(&adult, "code", "frontier"), "adult");
    assert_eq!(profile_for_models(&vec!["frontier".to_string()], "code", "frontier"), "adult");
    assert_eq!(profile_of("adult"), Profile::Adult);
    assert_eq!(profile_of("kid"), Profile::Kid);
    assert_eq!(profile_of("Adult"), Profile::Kid);
}

#[test]
fn only_the_owner_may_use_a_conversation() {
    assert!(check_owner(Some("u1".into()), "u1").is_ok());
    assert!(matches!(
        check_owner(Some("u2".into()), "u1"),
        Err(AppError::Other(m)) if m == "conversation not found for this profile"
    ));
    assert!(check_owner(None, "u1").is_err());
}

#[test]
fn titles_are_trimmed_and_not_blank() {
    assert_eq!(normalized_title("  Trip  ").unwrap(), "Trip");
    assert!(matches!(normalized_title("   "), Err(AppError::Other(m)) if m == "title cannot be empty"));
    assert!(needs_generated_title("New conversation"));
    assert!(!needs_generated_title("Taxes"));
}

#[test]
fn naming_prompt_has_system_then_user() {
    let m = naming_messages("plan a trip".into());
    assert_eq!(m.len(), 2);
    assert_eq!(m[0].role, "system");
    assert_eq!(m[0].content, NAMING_SYSTEM_PROMPT);
    assert_eq!(m[1].role, "user");
    assert_eq!(m[1].content, "plan a trip");
}

fn msg(role: &str, content: &str) -> Message {
    Message {
        id: "i".into(),
        conversation_id: "c".into(),
        role: role.into(),
        content: content.into(),
        created_at: "t".into(),
        tier: None,
        served_model: None,
    }
}

#[test]
fn history_and_memory_order() {
    let h = chat_history(&vec![msg("user", "hi"), msg("assistant", "hello")]);
    assert_eq!(h.len(), 2);
    assert_eq!(h[1].role, "assistant");
    assert_eq!(h[1].content, "hello");
    let sys = ChatMsg { role: "system".into(), content: "mem".into() };
    let with = with_memory(h.clone(), Some(sys.clone()));
    assert_eq!(with[0], sys);
    assert_eq!(with.len(), 3);
    assert_eq!(with_memory(h.clone(), None), h);
    assert!(should_inject_memories(true, Tier::HomeBase));
    assert!(!should_inject_memories(true, Tier::Cloud));
    assert!(!should_inject_memories(false, Tier::HomeBase));
}

fn user(id: &str) -> User {
    User {
        user_id: id.into(),
        device_id: "d".into(),
        display_name: format!("name {id}"),
        profile: "kid".into(),
        cursor: String::new(),
    }
}

#[test]
fn profile_list_marks_the_active_user() {
    let list = profile_list(&vec![user("a"), user("b")], &Some("b".into()));
    assert_eq!(list.len(), 2);
    assert!(!list[0].active);
    assert!(list[1].active);
    assert_eq!(list[1].display_name, "name b");
    assert!(profile_list(&vec![user("a")], &None).iter().all(|p| !p.active));
}

#[test]
fn sync_tally_summarizes() {
    let mut t = SyncTally::new();
    t.add_success(2, 3);
    t.add_success(1, 0);
    let s = t.finish();
    assert_eq!(s, SyncSummary { ok: true, pushed: 3, pulled: 3, cursor: String::new(), message: None });

    let mut t = SyncTally::new();
    t.add_success(1, 1);
    t.add_failure("u1", "network error");
    t.add_failure("u2", "boom");
    let s = t.finish();
    assert!(!s.ok);
    assert_eq!(s.pushed, 1);
    assert_eq!(s.message.as_deref(), Some("u1: network error; u2: boom"));

    let off = SyncSummary::skipped("offline");
    assert!(!off.ok);
    assert_eq!(off.message.as_deref(), Some("offline"));
}

#[test]
fn counts_and_ids() {
    let m = MsgRow {
        id: "m1".into(),
        conversation_id: "c".into(),
        role: "user".into(),
        content: "x".into(),
        model: None,
        created_at: "t".into(),
    };
    assert_eq!(message_ids(&vec![m.clone()]), vec!["m1".to_string()]);
    let p = PullResponse { conversations: vec![], messages: vec![m.clone(), m], memories: vec![], cursor: "c".into() };
    assert_eq!(pulled_count(&p), 2);
}

#[test]
fn pull_progress_reads_each_json_line() {
    let chunk = b"{\"status\":\"pulling\",\"completed\":5,\"total\":10}\n\nnot json\n{\"total\":3}";
    assert_eq!(progress_lines(chunk).len(), 3);
    assert_eq!(
        pull_progress(chunk),
        vec![
            PullProgress { status: "pulling".into(), completed: Some(5), total: Some(10) },
            PullProgress { status: String::new(), completed: None, total: Some(3) },
        ]
    );
    assert!(pull_progress(b"\n\n").is_empty());
}

#[test]
fn sync_skips_when_busy_then_offline() {
    let busy = sync_gate(false, true).unwrap();
    assert!(!busy.ok);
    assert_eq!(busy.message.as_deref(), Some(SYNC_BUSY));
    assert_eq!(sync_gate(false, false).unwrap().message.as_deref(), Some(SYNC_BUSY));
    let off = sync_gate(true, false).unwrap();
    assert_eq!((off.ok, off.pushed, off.pulled, off.cursor.as_str()), (false, 0, 0, ""));
    assert_eq!(off.message.as_deref(), Some(SYNC_OFFLINE));
    assert!(sync_gate(true, true).is_none());
}

#[test]
fn sync_needs_a_profile() {
    assert_eq!(profiles_gate(0).unwrap().message.as_deref(), Some(SYNC_NO_PROFILES));
    assert!(profiles_gate(2).is_none());
}

#[test]
fn sync_run_adds_up_users_and_skips_tokenless_ones() {
    let all_ok = summarize_sync(&vec![
        UserSync::Synced(2, 3),
        UserSync::NoToken,
        UserSync::Synced(1, 0),
    ]);
    assert!(all_ok.ok);
    assert_eq!((all_ok.pushed, all_ok.pulled), (3, 3));
    assert_eq!(all_ok.message, None);
    assert_eq!(all_ok.cursor, "");

    let one_failed = summarize_sync(&vec![
        UserSync::Failed("u1".to_string(), "boom".to_string()),
        UserSync::Synced(4, 5),
        UserSync::Failed("u2".to_string(), "down".to_string()),
    ]);
    assert!(!one_failed.ok);
    assert_eq!((one_failed.pushed, one_failed.pulled), (4, 5));
    assert_eq!(one_failed.message.as_deref(), Some("u1: boom; u2: down"));

    let nobody = summarize_sync(&vec![UserSync::NoToken]);
    assert!(nobody.ok);
    assert_eq!((nobody.pushed, nobody.pulled), (0, 0));
}

fn send_inputs(reachable: bool, profile: Profile) -> RouteInputs<'static> {
    RouteInputs {
        firefly_endpoint: "firefly.local:4000",
        on_device_endpoint: "http://localhost:11434/",
        on_device_model: "small",
        model_code: "code",
        model_chat_heavy: "chat-heavy",
        model_frontier: "frontier",
        firefly_reachable: reachable,
        profile,
    }
}

#[test]
fn private_message_plan_stays_on_device() {
    let plan = plan_send(TaskHint::Private, &send_inputs(true, Profile::Adult), true).unwrap();
    assert!(plan.local_only);
    assert_eq!(plan.route.tier, Tier::OnDevice);
    assert_eq!(plan.route.endpoint, "http://localhost:11434/");
    assert!(!plan.read_key);
    assert!(!plan.inject_memories);
}

#[test]
fn home_base_plan_reads_the_key_and_memories() {
    let plan = plan_send(TaskHint::Agentic, &send_inputs(true, Profile::Adult), true).unwrap();
    assert!(!plan.local_only);
    assert_eq!(plan.route.tier, Tier::HomeBase);
    assert_eq!(plan.route.model, "chat-heavy");
    assert!(plan.read_key);
    assert!(plan.inject_memories);
    let no_memory = plan_send(TaskHint::Agentic, &send_inputs(true, Profile::Adult), false).unwrap();
    assert!(!no_memory.inject_memories);
    let offline = plan_send(TaskHint::Agentic, &send_inputs(false, Profile::Adult), true).unwrap();
    assert_eq!(offline.route.tier, Tier::OnDevice);
    assert!(offline.route.degraded && !offline.read_key && !offline.inject_memories);
}

#[test]
fn refused_plan_carries_the_routing_error() {
    assert!(matches!(
        plan_send(TaskHint::Best, &send_inputs(true, Profile::Kid), true),
        Err(RouteError::Refused(_))
    ));
}
