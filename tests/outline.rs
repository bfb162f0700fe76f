use markd::event::{BlockKind, StructuralEvent};
use markd::markdown::{outline, parse_markdown, MarkdownItem};
use markd::pango::{escape_markup_text, markdown_to_pango};

#[test]
fn outline_of_a_document() {
    let items = parse_markdown("# Title\n\nSome `code` here\n\n- one\n- two\n\n```rs\nx\n```\n");
    assert_eq!(
        items,
        vec![
            MarkdownItem::Heading(1, "Title".to_string()),
            MarkdownItem::Paragraph("Some `code` here".to_string()),
            MarkdownItem::List(vec!["one".to_string(), "two".to_string()]),
            MarkdownItem::CodeBlock { lang: "rs".to_string(), code: "x\n".to_string() },
        ]
    );
}

#[test]
fn outline_skips_paragraphs_inside_items() {
    let events = vec![
        StructuralEvent::Start(BlockKind::List(false)),
        StructuralEvent::Start(BlockKind::ListItem),
        StructuralEvent::Start(BlockKind::Paragraph),
        StructuralEvent::Text("loose".to_string()),
        StructuralEvent::End(BlockKind::Paragraph),
        StructuralEvent::End(BlockKind::ListItem),
        StructuralEvent::End(BlockKind::List(false)),
    ];
    assert_eq!(outline(&events), vec![MarkdownItem::List(vec![String::new()])]);
}

#[test]
fn outline_of_nothing() {
    assert!(parse_markdown("").is_empty());
    assert!(outline(&vec![StructuralEvent::End(BlockKind::Heading(2))]).is_empty());
}

#[test]
fn pango_heading_and_paragraph() {
    assert_eq!(
        markdown_to_pango("# Hi\n\nthere"),
        "<span weight='bold' size='xx-large'>Hi</span>\n\n<span>there</span>\n\n"
    );
}

#[test]
fn pango_escapes_and_code() {
    assert_eq!(
        markdown_to_pango("a &lt; `<b>` **c**"),
        "<span>a &lt; <tt>&lt;b&gt;</tt> <b>c</b></span>\n\n"
    );
    assert_eq!(escape_markup_text("x<y & 'q' \"r\">"), "x&lt;y &amp; &#39;q&#39; &quot;r&quot;&gt;");
    assert_eq!(escape_markup_text("plain é"), "plain é");
}

#[test]
fn pango_list_items_are_indented_bullets() {
    assert_eq!(
        markdown_to_pango("- a\n  - b\n"),
        "\n  \u{2022} a\n    \u{2022} b\n"
    );
}

#[test]
fn outline_reads_strikethrough_and_attributes_as_text() {
    assert_eq!(parse_markdown("a ~~b~~ c"), vec![MarkdownItem::Paragraph("a ~~b~~ c".to_string())]);
    assert_eq!(parse_markdown("# T {#id}"), vec![MarkdownItem::Heading(1, "T {#id}".to_string())]);
}

#[test]
fn outline_heading_levels() {
    let items = parse_markdown("###### six\n\n####### seven");
    assert_eq!(items[0], MarkdownItem::Heading(6, "six".to_string()));
    assert_eq!(items[1], MarkdownItem::Paragraph("####### seven".to_string()));
}

#[test]
fn pango_strikethrough() {
    assert_eq!(markdown_to_pango("~~x~~"), "<span><s>x</s></span>\n\n");
}

#[test]
fn escape_control_characters_in_hex() {
    assert_eq!(
        escape_markup_text("a\u{1}b\u{8}\t\n\u{b}\u{1f}\u{7f}\u{85}\u{9f}\u{a0}"),
        "a&#x1;b&#x8;\t\n&#xb;&#x1f;&#x7f;\u{85}&#x9f;\u{a0}"
    );
}
