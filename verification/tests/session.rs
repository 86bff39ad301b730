//! Identifiers, titles, plans and text.

use moh::client::ui::fuzzy::{fuzzy_subsequence_score, normalize_fuzzy_text};
use moh::client::ui::widgets::sanitize_line;
use moh::session::{PlanItem, PlanStatus, ReasoningLevel, SessionId, SessionTitle, Timestamp};

#[test]
fn session_identifiers_have_one_spelling() {
    assert_eq!(SessionId::parse("session-0"), Some(SessionId { number: 0 }));
    assert_eq!(
        SessionId::parse("session-18446744073709551615"),
        Some(SessionId { number: u64::MAX })
    );
    assert_eq!(SessionId { number: 42 }.text(), "session-42");
    for text in ["session-", "session-007", "session-18446744073709551616", "Session-1", "1"] {
        assert_eq!(SessionId::parse(text), None, "{text}");
    }
}

#[test]
fn titles_are_trimmed_lines_of_bounded_length() {
    assert_eq!(SessionTitle::parse("  a title  ").unwrap().as_str(), "a title");
    assert!(SessionTitle::parse(&"界".repeat(64)).is_ok());
    assert!(SessionTitle::parse(&"a".repeat(65)).is_err());
    assert!(SessionTitle::parse(" \t ").is_err());
    assert!(SessionTitle::parse("a\u{1b}b").is_err());
}

#[test]
fn plan_steps_are_trimmed_lines_of_bounded_length() {
    let item = PlanItem::parse("write tests", PlanStatus::Pending).unwrap();
    assert_eq!(item.step(), "write tests");
    assert_eq!(item.status(), PlanStatus::Pending);
    for step in ["", " write tests", "write tests ", "\u{3000}write", "a\tb", " "] {
        assert!(PlanItem::parse(step, PlanStatus::Pending).is_err(), "{step:?}");
    }
    assert!(PlanItem::parse(&"a".repeat(256), PlanStatus::Pending).is_ok());
    assert!(PlanItem::parse(&"a".repeat(257), PlanStatus::Pending).is_err());
}

#[test]
fn reasoning_levels_have_names() {
    for (level, name) in [
        (ReasoningLevel::NoReasoning, "none"),
        (ReasoningLevel::Minimal, "minimal"),
        (ReasoningLevel::Low, "low"),
        (ReasoningLevel::Medium, "medium"),
        (ReasoningLevel::High, "high"),
        (ReasoningLevel::Xhigh, "xhigh"),
        (ReasoningLevel::Max, "max"),
    ] {
        assert_eq!(level.as_str(), name);
        assert_eq!(ReasoningLevel::parse(name), Some(level));
    }
    assert_eq!(ReasoningLevel::parse("High"), None);
}

#[test]
fn instants_are_ordered() {
    let early = Timestamp { seconds: 1, nanoseconds: 5 };
    let late = Timestamp { seconds: 1, nanoseconds: 6 };
    assert!(early.before(late));
    assert!(!late.before(early));
    assert!(!early.before(early));
}

#[test]
fn fuzzy_queries_ignore_case_and_punctuation() {
    assert_eq!(normalize_fuzzy_text("GPT-5.6 Luna"), "gpt56luna");
    assert!(fuzzy_subsequence_score("gl", "gpt56luna").is_some());
    assert!(fuzzy_subsequence_score("lg", "gpt56luna").is_none());
    assert!(
        fuzzy_subsequence_score("gpt", "gpt56luna") > fuzzy_subsequence_score("gpt", "gap56luntz")
    );
}

#[test]
fn lines_lose_controls_and_breaks_become_blanks() {
    assert_eq!(sanitize_line("  a\n\tb\u{1b}[2J  c "), "  a b[2J  c ");
    assert_eq!(sanitize_line("a\r\n\u{85}b\u{7f}"), "a b");
}
