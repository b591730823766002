use firefly::router::{
    is_fresh, resolve_endpoint, resolve_route, within_ttl, Profile, RouteError, RouteInputs, TaskHint,
    Tier,
};
use std::time::{Duration, Instant};

#[test]
fn cache_is_stale_when_never_checked() {
    let now = Instant::now();
    assert!(!is_fresh(None, now, Duration::from_secs(5)));
}

#[test]
fn cache_is_fresh_within_ttl() {
    let t0 = Instant::now();
    assert!(is_fresh(Some(t0), t0 + Duration::from_secs(2), Duration::from_secs(5)));
}

#[test]
fn cache_is_stale_past_ttl() {
    let t0 = Instant::now();
    assert!(!is_fresh(Some(t0), t0 + Duration::from_secs(6), Duration::from_secs(5)));
}

fn inputs(reachable: bool) -> RouteInputs<'static> {
    RouteInputs {
        firefly_endpoint: "firefly.taild9c345.ts.net:4000",
        on_device_endpoint: "http://localhost:11434",
        on_device_model: "qwen3.6:27b",
        model_code: "code",
        model_chat_heavy: "chat-heavy",
        model_frontier: "frontier",
        firefly_reachable: reachable,
        profile: Profile::Adult,
    }
}

#[test]
fn private_stays_on_device_even_when_firefly_up() {
    let r = resolve_route(TaskHint::Private, &inputs(true)).unwrap();
    assert_eq!(r.tier, Tier::OnDevice);
    assert_eq!(r.endpoint, "http://localhost:11434");
    assert_eq!(r.model, "qwen3.6:27b");
    assert!(!r.use_token);
    assert!(!r.degraded);
}

#[test]
fn quick_is_always_on_device() {
    assert_eq!(resolve_route(TaskHint::Quick, &inputs(true)).unwrap().tier, Tier::OnDevice);
    assert_eq!(resolve_route(TaskHint::Quick, &inputs(false)).unwrap().tier, Tier::OnDevice);
}

#[test]
fn agentic_hits_home_base_when_up() {
    let r = resolve_route(TaskHint::Agentic, &inputs(true)).unwrap();
    assert_eq!(r.tier, Tier::HomeBase);
    assert_eq!(r.endpoint, "http://firefly.taild9c345.ts.net:4000");
    assert_eq!(r.model, "chat-heavy");
    assert!(r.use_token);
    assert!(!r.degraded);
}

#[test]
fn agentic_degrades_to_on_device_when_down() {
    let r = resolve_route(TaskHint::Agentic, &inputs(false)).unwrap();
    assert_eq!(r.tier, Tier::OnDevice);
    assert_eq!(r.model, "qwen3.6:27b");
    assert!(!r.use_token);
    assert!(r.degraded);
}

#[test]
fn write_uses_code_model_on_home_base() {
    let r = resolve_route(TaskHint::Write, &inputs(true)).unwrap();
    assert_eq!(r.tier, Tier::HomeBase);
    assert_eq!(r.model, "code");
}

#[test]
fn explain_file_degrades_when_down() {
    let r = resolve_route(TaskHint::ExplainFile, &inputs(false)).unwrap();
    assert_eq!(r.tier, Tier::OnDevice);
    assert!(r.degraded);
}

#[test]
fn code_complete_prefers_on_device_when_configured() {
    let r = resolve_route(TaskHint::CodeComplete, &inputs(true)).unwrap();
    assert_eq!(r.tier, Tier::OnDevice);
    assert!(!r.degraded);
}

#[test]
fn code_complete_uses_home_base_when_no_on_device_and_reachable() {
    let mut i = inputs(true);
    i.on_device_endpoint = "";
    let r = resolve_route(TaskHint::CodeComplete, &i).unwrap();
    assert_eq!(r.tier, Tier::HomeBase);
    assert_eq!(r.model, "code");
}

#[test]
fn code_complete_errors_when_no_on_device_and_unreachable() {
    let mut i = inputs(false);
    i.on_device_endpoint = "";
    assert!(matches!(
        resolve_route(TaskHint::CodeComplete, &i),
        Err(RouteError::NotConfigured(_))
    ));
}

#[test]
fn best_uses_cloud_when_up() {
    let r = resolve_route(TaskHint::Best, &inputs(true)).unwrap();
    assert_eq!(r.tier, Tier::Cloud);
    assert_eq!(r.endpoint, "http://firefly.taild9c345.ts.net:4000");
    assert_eq!(r.model, "frontier");
    assert!(r.use_token);
}

#[test]
fn best_refuses_when_down() {
    assert!(matches!(
        resolve_route(TaskHint::Best, &inputs(false)),
        Err(RouteError::Refused(_))
    ));
}

#[test]
fn kid_is_refused_code_on_home_base() {
    let mut i = inputs(true);
    i.profile = Profile::Kid;
    assert!(matches!(resolve_route(TaskHint::Write, &i), Err(RouteError::Refused(_))));
    assert!(matches!(resolve_route(TaskHint::ExplainFile, &i), Err(RouteError::Refused(_))));
}

#[test]
fn kid_is_refused_frontier() {
    let mut i = inputs(true);
    i.profile = Profile::Kid;
    assert!(matches!(resolve_route(TaskHint::Best, &i), Err(RouteError::Refused(_))));
}

#[test]
fn kid_is_refused_code_complete_home_base_fallback() {
    let mut i = inputs(true);
    i.profile = Profile::Kid;
    i.on_device_endpoint = ""; // forces home-base `code`
    assert!(matches!(resolve_route(TaskHint::CodeComplete, &i), Err(RouteError::Refused(_))));
}

#[test]
fn kid_keeps_agentic_quick_private_and_on_device_code_complete() {
    let mut i = inputs(true);
    i.profile = Profile::Kid;
    assert_eq!(resolve_route(TaskHint::Agentic, &i).unwrap().model, "chat-heavy");
    assert_eq!(resolve_route(TaskHint::Quick, &i).unwrap().tier, Tier::OnDevice);
    assert_eq!(resolve_route(TaskHint::Private, &i).unwrap().tier, Tier::OnDevice);
    // code-complete with an on-device endpoint stays local — allowed for kids
    assert_eq!(resolve_route(TaskHint::CodeComplete, &i).unwrap().tier, Tier::OnDevice);
}

#[test]
fn refusal_messages_are_exact() {
    let mut i = inputs(true);
    i.profile = Profile::Kid;
    assert_eq!(
        resolve_route(TaskHint::Best, &i),
        Err(RouteError::Refused(
            "frontier is not available for a kid profile; ask an adult".to_string()
        ))
    );
    assert_eq!(
        resolve_route(TaskHint::Write, &i),
        Err(RouteError::Refused("code is not available for a kid profile; ask an adult".to_string()))
    );
    assert_eq!(
        resolve_route(TaskHint::Best, &inputs(false)),
        Err(RouteError::Refused(
            "best/frontier requires Firefly (cloud via home-base); it is unreachable".to_string()
        ))
    );
    let mut j = inputs(false);
    j.on_device_endpoint = "   ";
    assert_eq!(
        resolve_route(TaskHint::CodeComplete, &j),
        Err(RouteError::NotConfigured(
            "code-complete needs an on-device endpoint, and Firefly is unreachable".to_string()
        ))
    );
}

#[test]
fn unreachable_never_leaves_the_device() {
    for task in [
        TaskHint::Quick,
        TaskHint::CodeComplete,
        TaskHint::Write,
        TaskHint::ExplainFile,
        TaskHint::Agentic,
        TaskHint::Private,
        TaskHint::Best,
    ] {
        if let Ok(r) = resolve_route(task, &inputs(false)) {
            assert_eq!(r.tier, Tier::OnDevice);
            assert!(!r.use_token);
        }
    }
}

#[test]
fn resolve_endpoint_adds_scheme_and_trims() {
    assert_eq!(resolve_endpoint("  host:4000 "), "http://host:4000");
    assert_eq!(resolve_endpoint("https://secure"), "https://secure");
    assert_eq!(resolve_endpoint("http://plain"), "http://plain");
    assert_eq!(resolve_endpoint(""), "http://");
    assert_eq!(resolve_endpoint(&resolve_endpoint(" x ")), resolve_endpoint(" x "));
}

#[test]
fn tier_names() {
    assert_eq!(Tier::OnDevice.as_str(), "on-device");
    assert_eq!(Tier::HomeBase.as_str(), "home-base");
    assert_eq!(Tier::Cloud.as_str(), "cloud");
}

#[test]
fn ttl_is_a_strict_bound() {
    assert!(within_ttl(0, 1));
    assert!(!within_ttl(5, 5));
    assert!(!within_ttl(6, 5));
    let t0 = Instant::now();
    assert!(!is_fresh(Some(t0), t0 + Duration::from_secs(5), Duration::from_secs(5)));
    assert!(is_fresh(Some(t0), t0, Duration::from_nanos(1)));
}
