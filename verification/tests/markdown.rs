use velotype::markdown_display::{
    ensure_blank_line, ensure_line_end, ensure_line_start, push_heading_prefix,
    render_display_text, Block, DisplayEvent,
};
use velotype::markdown_to_display_text;

fn chars(s: &str) -> Vec<char> {
    s.chars().collect()
}

fn text(s: &str) -> DisplayEvent {
    DisplayEvent::Text(s.to_string())
}

#[test]
fn renders_basic_markdown_as_display_text() {
    assert_eq!(
        markdown_to_display_text("# Title\n\n- one\n- **two**"),
        "# Title\n\n• one\n• two"
    );
}

#[test]
fn renders_ordered_lists_and_code_text() {
    assert_eq!(
        markdown_to_display_text("1. `alpha`\n2. beta"),
        "1. alpha\n2. beta"
    );
}

#[test]
fn ordered_list_starts_where_it_says() {
    assert_eq!(markdown_to_display_text("7. a\n8. b"), "7. a\n8. b");
}

#[test]
fn empty_document_has_no_text() {
    assert_eq!(markdown_to_display_text(""), "");
}

#[test]
fn result_has_no_line_breaks_at_its_ends() {
    let shown = markdown_to_display_text("\n\nfirst\n\nsecond\n\n");
    assert_eq!(shown, "first\n\nsecond");
}

#[test]
fn text_events_are_kept_in_order() {
    let events = vec![
        DisplayEvent::Start(Block::Paragraph),
        text("one "),
        DisplayEvent::Code("two".to_string()),
        DisplayEvent::End(Block::Paragraph),
    ];
    assert_eq!(render_display_text(&events), "one two");
}

#[test]
fn nested_lists_are_numbered_apart() {
    assert_eq!(
        markdown_to_display_text("1. a\n   - x\n2. b"),
        "1. a\n\n• x\n2. b"
    );
    let events = vec![
        DisplayEvent::ListStart(Some(3)),
        DisplayEvent::Start(Block::Item),
        text("a"),
        DisplayEvent::End(Block::Item),
        DisplayEvent::Start(Block::Item),
        text("b"),
        DisplayEvent::End(Block::Item),
        DisplayEvent::End(Block::List),
    ];
    assert_eq!(render_display_text(&events), "3. a\n4. b");
}

#[test]
fn line_helpers() {
    let mut out = chars("ab");
    ensure_line_end(&mut out);
    assert_eq!(out, chars("ab\n"));
    ensure_line_start(&mut out);
    assert_eq!(out, chars("ab\n"));
    ensure_blank_line(&mut out);
    assert_eq!(out, chars("ab\n\n"));
    ensure_blank_line(&mut out);
    assert_eq!(out, chars("ab\n\n"));
}

#[test]
fn heading_prefix_has_one_mark_for_each_level() {
    let mut out: Vec<char> = Vec::new();
    push_heading_prefix(&mut out, 3);
    assert_eq!(out, chars("### "));
}
