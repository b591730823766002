use firefly::sync::{
    base, claim_device_url, error_text, extract_error, memories_search_url, pull_url, urlencoding,
};

#[test]
fn memories_url_encodes_query_and_omits_empty_user() {
    let u = memories_search_url("http://firefly:8788", "what is my dog's name?", "", 8);
    assert_eq!(
        u,
        "http://firefly:8788/memories/search?q=what%20is%20my%20dog%27s%20name%3F&k=8"
    );
}

#[test]
fn memories_url_includes_user_when_present() {
    let u = memories_search_url("http://firefly:8788", "hi", "user-1", 8);
    assert_eq!(u, "http://firefly:8788/memories/search?q=hi&k=8&user=user-1");
}

#[test]
fn extract_error_prefers_json_error_field() {
    let s = "409 Conflict";
    assert_eq!(extract_error(s, r#"{"error":"username taken"}"#), "username taken");
    assert_eq!(extract_error(s, "boom"), "sync HTTP 409 Conflict: boom");
}

#[test]
fn extract_error_falls_back_when_error_is_not_a_string() {
    assert_eq!(
        extract_error("500 Internal Server Error", r#"{"error":42}"#),
        "sync HTTP 500 Internal Server Error: {\"error\":42}"
    );
}

#[test]
fn error_text_uses_the_field_or_the_status() {
    assert_eq!(error_text(Some("bad".to_string()), "400 Bad Request", "x"), "bad");
    assert_eq!(error_text(None, "404 Not Found", ""), "sync HTTP 404 Not Found: ");
}

#[test]
fn urlencoding_encodes_reserved_and_multibyte() {
    assert_eq!(urlencoding("2026-06-06T14:03:21.118Z"), "2026-06-06T14%3A03%3A21.118Z");
    assert_eq!(urlencoding("a~b_c.d-e"), "a~b_c.d-e");
    assert_eq!(urlencoding("é"), "%C3%A9");
    assert_eq!(urlencoding("a b&c"), "a%20b%26c");
}

#[test]
fn base_normalizes_and_drops_trailing_slashes() {
    assert_eq!(base(" firefly:8788// "), "http://firefly:8788");
    assert_eq!(base("https://host/"), "https://host");
}

#[test]
fn pull_url_params_only_when_present() {
    assert_eq!(pull_url("http://f", "", ""), "http://f/sync/pull");
    assert_eq!(
        pull_url("http://f", "2026-01-01T00:00:00.000Z", ""),
        "http://f/sync/pull?since=2026-01-01T00%3A00%3A00.000Z"
    );
    assert_eq!(pull_url("http://f", "", "u 1"), "http://f/sync/pull?user=u%201");
    assert_eq!(pull_url("http://f", "c", "u"), "http://f/sync/pull?since=c&user=u");
}

#[test]
fn claim_url_encodes_device_id() {
    assert_eq!(claim_device_url("http://f", "d/1"), "http://f/devices/d%2F1/claim");
}

#[test]
fn memories_url_k_is_decimal() {
    assert_eq!(
        memories_search_url("b", "q", "", 4294967295),
        "b/memories/search?q=q&k=4294967295"
    );
    assert_eq!(memories_search_url("b", "q", "", 0), "b/memories/search?q=q&k=0");
}

#[test]
fn urlencoding_keeps_distinct_texts_distinct() {
    let texts = ["a b", "a+b", "a%20b", "a%2520b", "é", "%C3%A9", ""];
    for (i, s) in texts.iter().enumerate() {
        for (j, t) in texts.iter().enumerate() {
            assert_eq!(urlencoding(s) == urlencoding(t), i == j, "{s:?} vs {t:?}");
        }
    }
}
