//! Markdown on the screen.

use moh::client::ui::markdown::{markdown_text, sanitize_markdown_source};
use moh::client::ui::style::{Color, Line};

fn rendered(text: &[Line]) -> String {
    text.iter().map(|line| line.text()).collect()
}

#[test]
fn markdown_maps_inline_and_block_styles_to_spans() {
    let source = format!(
        "# Heading\n\n**bold** and {}code{}",
        char::from(96),
        char::from(96),
    );
    let text = markdown_text(&source);
    assert_eq!(text.len(), 3);
    assert!(
        text[0].spans[0]
            .style.bold
    );
    assert!(
        text[2]
            .spans
            .iter()
            .any(|span| span.content == "bold"
                && span.style.bold)
    );
    assert!(
        text[2]
            .spans
            .iter()
            .any(|span| span.content == "code" && span.style.fg == Some(Color::Yellow))
    );
}

#[test]
fn links_keep_a_visible_destination_without_terminal_escapes() {
    let text = markdown_text("[Ratatui](https://ratatui.rs)");
    let rendered = text
        .iter()
        .flat_map(|line| &line.spans)
        .map(|span| span.content.as_str())
        .collect::<String>();
    assert_eq!(rendered, "Ratatui (https://ratatui.rs)");
    assert!(!rendered.contains('\u{1b}'));
}

#[test]
fn markdown_sanitization_preserves_lines_and_removes_terminal_controls() {
    assert_eq!(
        sanitize_markdown_source("# title\r\n\nbody\t\x1b[31mred\x1b[0m"),
        "# title\n\nbody    red"
    );
}

#[test]
fn markdown_preserves_inline_semantics_without_ansi_output() {
    let text = markdown_text(
        "This is **bold**, *italic*, ~~removed~~, `code`, and [docs](https://example.test).",
    );
    let line = &text[0];

    assert!(line.spans.iter().any(|span| {
        span.content == "bold" && span.style.bold
    }));
    assert!(line.spans.iter().any(|span| {
        span.content == "italic" && span.style.italic
    }));
    assert!(line.spans.iter().any(|span| {
        span.content == "removed" && span.style.crossed_out
    }));
    assert!(
        line.spans
            .iter()
            .any(|span| { span.content == "code" && span.style.fg == Some(Color::Yellow) })
    );
    assert!(line.spans.iter().any(|span| {
        span.content == "docs" && span.style.underlined
    }));
    assert_eq!(
        rendered(&text),
        "This is bold, italic, removed, code, and docs (https://example.test)."
    );
    assert!(!rendered(&text).contains('\u{1b}'));
}

#[test]
fn markdown_preserves_block_list_quote_and_code_structure() {
    let text = markdown_text(
        "# Heading\n\n> quoted\n\n- first\n- second\n\n1. one\n2. two\n\n```rust\nlet x = 1;\n```\n\n---",
    );
    let rendered = rendered(&text);

    assert!(
        text[0].spans[0]
            .style.bold
    );
    assert!(rendered.contains("│ quoted"));
    assert!(rendered.contains("• first"));
    assert!(rendered.contains("• second"));
    assert!(rendered.contains("1. one"));
    assert!(rendered.contains("2. two"));
    assert!(text.iter().flat_map(|line| &line.spans).any(|span| {
        span.content == "rust"
            && span.style.fg == Some(Color::Yellow)
            && span.style.dim
    }));
    assert!(
        text.iter().flat_map(|line| &line.spans).any(|span| {
            span.content == "let x = 1;" && span.style.fg == Some(Color::Yellow)
        })
    );
    assert!(text.iter().flat_map(|line| &line.spans).any(|span| {
        span.content == "───" && span.style.dim
    }));
}

#[test]
fn markdown_keeps_task_markers_and_nested_list_indentation() {
    let text = markdown_text("- [x] done\n  - [ ] queued");
    let rendered = rendered(&text);

    assert!(rendered.contains("• [x] done"));
    assert!(rendered.contains("  • [ ] queued"));
}

#[test]
fn incomplete_streamed_markdown_remains_readable() {
    let text = markdown_text("Starting **bold and `code\n\n```rust\nfn main() {");
    let rendered = rendered(&text);

    assert!(rendered.contains("Starting"));
    assert!(rendered.contains("fn main() {"));
    assert!(!rendered.contains('\u{1b}'));
}

#[test]
fn unicode_content_is_retained_without_width_or_ansi_processing() {
    let text = markdown_text("界 and e\u{301} and 👩‍💻");

    assert_eq!(rendered(&text), "界 and e\u{301} and 👩‍💻");
}

#[test]
fn sanitization_removes_csi_osc_and_apc_sequences() {
    let source = "a\x1b[2Jb\x1b]8;;https://example.test\x07c\x1b_payload\x1b\\de";

    assert_eq!(sanitize_markdown_source(source), "abcde");
    assert_eq!(sanitize_markdown_source("a\x1b[31"), "a[31");
}

#[test]
fn sanitization_removes_c1_csi_osc_and_apc_sequences() {
    assert_eq!(sanitize_markdown_source("a\u{009b}31mb"), "ab");
    assert_eq!(
        sanitize_markdown_source("a\u{009d}8;;https://example.test\x07b"),
        "ab"
    );
    assert_eq!(
        sanitize_markdown_source("a\u{009d}8;;https://example.test\x1b\\b"),
        "ab"
    );
    assert_eq!(sanitize_markdown_source("a\u{009f}payload\u{009c}b"), "ab");
    assert_eq!(sanitize_markdown_source("a\u{009f}payload\x07b"), "ab");
}

#[test]
fn links_avoid_repeating_an_identical_destination() {
    let text = markdown_text("<https://ratatui.rs>");

    assert_eq!(rendered(&text), "https://ratatui.rs");
    assert!(
        text[0].spans[0]
            .style.underlined
    );
}

#[test]
fn soft_and_hard_breaks_become_spaces_and_lines() {
    let text = markdown_text("first\nsecond  \nthird");

    assert_eq!(rendered(&text), "first secondthird");
    assert_eq!(text.len(), 2);
    assert_eq!(
        text[0]
            .spans
            .iter()
            .map(|span| span.content.as_str())
            .collect::<String>(),
        "first second"
    );
    assert_eq!(
        text[1]
            .spans
            .iter()
            .map(|span| span.content.as_str())
            .collect::<String>(),
        "third"
    );
}

#[test]
fn raw_html_is_shown_as_written() {
    let text = markdown_text("a <b>bold</b> word");
    assert_eq!(text[0].text(), "a <b>bold</b> word");
    let text = markdown_text("<div>\nblock\n</div>");
    let shown: String = text.iter().map(|line| line.text()).collect();
    assert!(shown.starts_with("<div>") && shown.contains("block") && shown.contains("</div>"));
}
