use firefly::naming::clean_title;

#[test]
fn strips_surrounding_quotes() {
    assert_eq!(clean_title("\"Tax filing help\"").as_deref(), Some("Tax filing help"));
    assert_eq!(clean_title("'Dinner ideas'").as_deref(), Some("Dinner ideas"));
}

#[test]
fn takes_first_nonempty_line_and_drops_trailing_period() {
    assert_eq!(clean_title("\n  Trip to Japan.\nextra").as_deref(), Some("Trip to Japan"));
}

#[test]
fn collapses_whitespace_and_caps_words() {
    assert_eq!(
        clean_title("one   two three four five six seven eight").as_deref(),
        Some("one two three four five six")
    );
}

#[test]
fn empty_or_whitespace_is_none() {
    assert_eq!(clean_title("   \n  "), None);
    assert_eq!(clean_title(""), None);
}

#[test]
fn strips_nested_and_curly_quotes() {
    assert_eq!(clean_title("\u{201c} 'Budget plan' \u{201d}").as_deref(), Some("Budget plan"));
    assert_eq!(clean_title("\"\"").as_deref(), None);
}

#[test]
fn mismatched_quotes_are_kept() {
    assert_eq!(clean_title("\"Half quoted").as_deref(), Some("\"Half quoted"));
}

#[test]
fn caps_length_on_a_word_boundary() {
    let raw = "Supercalifragilistic expialidocious antidisestablishmentarianism words";
    // 4 words; first 48 chars end mid-word, so the cut falls back to the last space.
    assert_eq!(
        clean_title(raw).as_deref(),
        Some("Supercalifragilistic expialidocious")
    );
}

#[test]
fn long_single_word_is_cut_at_the_limit() {
    let raw = "x".repeat(60);
    assert_eq!(clean_title(&raw), Some("x".repeat(48)));
}

#[test]
fn only_periods_is_none() {
    assert_eq!(clean_title("..."), None);
    assert_eq!(clean_title("'  .  '"), None);
}

#[test]
fn crlf_lines_and_tabs() {
    assert_eq!(clean_title("\r\n\tHello\t world..\r\nnext").as_deref(), Some("Hello world"));
}

#[test]
fn keeps_question_and_exclamation_marks() {
    assert_eq!(clean_title("Why is the sky blue?").as_deref(), Some("Why is the sky blue?"));
    assert_eq!(clean_title("Wow!").as_deref(), Some("Wow!"));
}

#[test]
fn short_single_line_label() {
    for raw in [
        "a b c d e f g h i j",
        "\"quoted title with many many many many many many words\"",
        "   spaced\u{3000}out\u{00a0}text   ",
    ] {
        if let Some(t) = clean_title(raw) {
            assert!(!t.is_empty());
            assert!(t.chars().count() <= 48);
            assert!(!t.contains('\n'));
            assert!(t.split(' ').count() <= 6);
        }
    }
}

#[test]
fn later_lines_never_change_the_title() {
    let first = clean_title("  \n \"Trip  to   Rome.\"\n");
    assert_eq!(first.as_deref(), Some("Trip to Rome"));
    assert_eq!(clean_title("  \n \"Trip  to   Rome.\"\nSecond line\nthird"), first);
    assert_eq!(clean_title("Trip to Rome\n\n\nanything else"), clean_title("Trip to Rome"));
    let t = clean_title("a   b\tc  d  e  f  g  h").unwrap();
    assert!(!t.contains("  "));
}
