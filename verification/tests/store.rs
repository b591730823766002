use firefly::llm::gateway_url;
use chrono::{Datelike, Timelike, Utc};
use firefly::commands::pulled_count;
use firefly::store::{iso_millis, mark_pushed_sql, ConvRow};
use firefly::sync::PullResponse;

#[test]
fn mark_pushed_binds_one_placeholder_per_id() {
    assert_eq!(mark_pushed_sql("messages", 1), "UPDATE messages SET pending_push = 0 WHERE id IN (?)");
    assert_eq!(
        mark_pushed_sql("messages", 3),
        "UPDATE messages SET pending_push = 0 WHERE id IN (?,?,?)"
    );
}

#[test]
fn gateway_urls_drop_trailing_slashes() {
    assert_eq!(gateway_url("http://f:4000//", "/v1/models"), "http://f:4000/v1/models");
    assert_eq!(gateway_url("http://f:4000", "/v1/chat/completions"), "http://f:4000/v1/chat/completions");
}

fn iso_now() -> String {
    let now = Utc::now();
    let (date, time) = (now.date_naive(), now.time());
    iso_millis(
        date.year() as u32,
        date.month(),
        date.day(),
        time.hour(),
        time.minute(),
        time.second() + time.nanosecond() / 1_000_000_000,
        time.nanosecond() / 1_000_000 % 1000,
    )
}

#[test]
fn now_iso_is_millisecond_z() {
    let ts = iso_now();
    assert!(ts.ends_with('Z'), "must end with Z: {ts}");
    assert!(ts.contains('T'), "must contain T: {ts}");
    let dot = ts.as_bytes()[ts.len() - 5];
    assert_eq!(dot, b'.', "expected ms precision in {ts}");
    chrono::DateTime::parse_from_rfc3339(&ts).expect("parseable");
}

#[test]
fn iso_millis_pads_every_field() {
    assert_eq!(iso_millis(2026, 6, 6, 14, 3, 21, 118), "2026-06-06T14:03:21.118Z");
    assert_eq!(iso_millis(7, 1, 2, 3, 4, 5, 6), "0007-01-02T03:04:05.006Z");
    assert_eq!(iso_millis(9999, 12, 31, 23, 59, 60, 999), "9999-12-31T23:59:60.999Z");
}

#[test]
fn iso_millis_matches_chrono_format() {
    assert_eq!(iso_now().len(), 24);
    let fixed = chrono::DateTime::parse_from_rfc3339("2026-06-06T00:00:00.000Z").unwrap();
    let d = fixed.naive_utc();
    assert_eq!(
        iso_millis(d.year() as u32, d.month(), d.day(), d.hour(), d.minute(), d.second(), 0),
        fixed.format("%Y-%m-%dT%H:%M:%S%.3fZ").to_string()
    );
}

#[test]
fn iso_millis_sorts_as_text_in_time_order() {
    let earlier = iso_millis(2026, 6, 6, 9, 59, 59, 999);
    let later = iso_millis(2026, 6, 6, 10, 0, 0, 0);
    assert!(earlier < later);
    assert!(iso_millis(2025, 12, 31, 23, 59, 59, 999) < iso_millis(2026, 1, 1, 0, 0, 0, 0));
    assert!(iso_millis(2026, 6, 6, 14, 3, 21, 118) < iso_millis(2026, 6, 6, 14, 3, 21, 119));
    assert_eq!(iso_millis(2026, 6, 6, 14, 3, 21, 118), iso_millis(2026, 6, 6, 14, 3, 21, 118));
}

#[test]
fn pulled_rows_keep_their_tombstone() {
    let pull = PullResponse {
        conversations: vec![ConvRow {
            id: "c1".into(),
            user_id: "u1".into(),
            title: Some("t".into()),
            created_at: "2026-01-01T00:00:00.000Z".into(),
            updated_at: "2026-01-02T00:00:00.000Z".into(),
            deleted_at: Some("2026-01-02T00:00:00.000Z".into()),
        }],
        messages: vec![],
        memories: vec![],
        cursor: "2026-01-02T00:00:00.000Z".into(),
    };
    assert_eq!(pulled_count(&pull), 1);
    assert_eq!(pull.conversations[0].deleted_at.as_deref(), Some("2026-01-02T00:00:00.000Z"));
}
