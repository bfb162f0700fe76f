use markd::highlight::split_lines;
use markd::builder::build;
use markd::event::{BlockKind, StructuralEvent};
use markd::renderer::{MarkdownRenderer, Preview};
use markd::style::Theme;
use markd::tree::{Role, StyledBlock};

fn text(node: &StyledBlock) -> String {
    node.text()
}

fn find_all<'a>(node: &'a StyledBlock, role: &Role, out: &mut Vec<&'a StyledBlock>) {
    if node.role == *role {
        out.push(node);
    }
    for child in &node.children {
        find_all(child, role, out);
    }
}

#[test]
fn heading_then_paragraph() {
    let tree = MarkdownRenderer::new("# Hello\n\nWorld".to_string()).render(&Theme::dark());
    assert_eq!(tree.role, Role::Root);
    assert_eq!(tree.children.len(), 2);
    assert_eq!(tree.children[0].role, Role::Block(BlockKind::Heading(1)));
    assert_eq!(text(&tree.children[0]), "Hello");
    assert_eq!(tree.children[1].role, Role::Block(BlockKind::Paragraph));
    assert_eq!(text(&tree.children[1]), "World");
}

#[test]
fn heading_is_styled_by_level() {
    let theme = Theme::dark();
    let tree = MarkdownRenderer::new("# Big\n\n#### Small".to_string()).render(&theme);
    assert_eq!(tree.children[0].attrs.size, 32);
    assert!(tree.children[0].attrs.bold);
    assert_eq!(tree.children[0].attrs.color, Some(theme.heading_color));
    assert_eq!(tree.children[1].attrs.size, 16);
}

#[test]
fn fenced_rust_block_is_highlighted() {
    let tree = MarkdownRenderer::new("```rust\nfn main() {}\n```".to_string()).render(&Theme::dark());
    assert_eq!(tree.children.len(), 1);
    let block = &tree.children[0];
    assert_eq!(block.role, Role::Block(BlockKind::CodeBlock(Some("rust".to_string()))));
    assert!(!block.children.is_empty());
    for leaf in &block.children {
        assert_eq!(leaf.role, Role::CodeLine);
        assert!(leaf.children.is_empty());
    }
    assert_eq!(text(block), "fn main() {}\n");
    let colored = block.children.iter().flat_map(|l| l.spans.iter()).filter(|s| s.color.is_some()).count();
    assert!(colored >= 2, "the rust code was not split into coloured spans");
}

#[test]
fn code_block_events_with_rust_body() {
    let events = vec![
        StructuralEvent::Start(BlockKind::CodeBlock(Some("rust".to_string()))),
        StructuralEvent::Text("fn main() {}".to_string()),
        StructuralEvent::End(BlockKind::CodeBlock(None)),
    ];
    let tree = build(&events, &Theme::dark());
    assert_eq!(tree.children.len(), 1);
    let block = &tree.children[0];
    assert!(matches!(block.role, Role::Block(BlockKind::CodeBlock(_))));
    let joined: String = block
        .children
        .iter()
        .flat_map(|l| l.spans.iter())
        .map(|s| s.text.as_str())
        .collect();
    assert_eq!(joined, "fn main() {}");
    assert!(block.children.iter().flat_map(|l| l.spans.iter()).any(|s| s.color.is_some()));
}

#[test]
fn unknown_language_falls_back_to_one_plain_span() {
    let events = vec![
        StructuralEvent::Start(BlockKind::CodeBlock(Some("no-such-language".to_string()))),
        StructuralEvent::Text("a\nb\n".to_string()),
        StructuralEvent::End(BlockKind::CodeBlock(None)),
    ];
    let tree = build(&events, &Theme::dark());
    let block = &tree.children[0];
    assert_eq!(block.children.len(), 1);
    assert_eq!(block.children[0].role, Role::CodeLine);
    assert_eq!(block.children[0].spans.len(), 1);
    assert_eq!(block.children[0].spans[0].color, None);
    assert_eq!(block.children[0].spans[0].text, "a\nb\n");
}

#[test]
fn indented_code_block_keeps_plain_text() {
    let tree = MarkdownRenderer::new("    let x = 1;\n".to_string()).render(&Theme::dark());
    let block = &tree.children[0];
    assert_eq!(block.role, Role::Block(BlockKind::CodeBlock(None)));
    assert_eq!(block.children[0].role, Role::Text);
    assert_eq!(text(block), "let x = 1;\n");
}

#[test]
fn ordered_list_inside_unordered_list_counts_one_two_three() {
    let source = "- outer\n  1. a\n  2. b\n  3. c\n";
    let tree = MarkdownRenderer::new(source.to_string()).render(&Theme::dark());
    let mut items = Vec::new();
    find_all(&tree, &Role::Block(BlockKind::ListItem), &mut items);
    assert_eq!(items.len(), 4);
    let outer = items[0].marker.unwrap();
    assert_eq!(outer.depth, 1);
    assert_eq!(outer.number, None);
    let numbers: Vec<Option<usize>> = items[1..].iter().map(|i| i.marker.unwrap().number).collect();
    assert_eq!(numbers, vec![Some(1), Some(2), Some(3)]);
    for item in &items[1..] {
        assert_eq!(item.marker.unwrap().depth, 2);
    }
}

#[test]
fn ordered_list_events_count_items() {
    let mut events = vec![StructuralEvent::Start(BlockKind::List(true))];
    for word in ["x", "y", "z"] {
        events.push(StructuralEvent::Start(BlockKind::ListItem));
        events.push(StructuralEvent::Text(word.to_string()));
        events.push(StructuralEvent::End(BlockKind::ListItem));
    }
    events.push(StructuralEvent::End(BlockKind::List(true)));
    let tree = build(&events, &Theme::dark());
    let list = &tree.children[0];
    assert_eq!(list.attrs.indent, 1);
    let numbers: Vec<Option<usize>> = list.children.iter().map(|c| c.marker.unwrap().number).collect();
    assert_eq!(numbers, vec![Some(1), Some(2), Some(3)]);
}

#[test]
fn unclosed_paragraph_stays_under_root() {
    let events = vec![
        StructuralEvent::Start(BlockKind::Paragraph),
        StructuralEvent::Text("left open".to_string()),
        StructuralEvent::SoftBreak,
        StructuralEvent::Text("still here".to_string()),
    ];
    let tree = build(&events, &Theme::dark());
    assert_eq!(tree.role, Role::Root);
    assert_eq!(tree.children.len(), 1);
    let paragraph = &tree.children[0];
    assert_eq!(paragraph.role, Role::Block(BlockKind::Paragraph));
    assert_eq!(paragraph.children.len(), 3);
    assert_eq!(paragraph.children[1].role, Role::SoftBreak);
    assert_eq!(text(paragraph), "left openstill here");
}

#[test]
fn empty_input_gives_empty_root() {
    let tree = build(&Vec::new(), &Theme::dark());
    assert_eq!(tree.role, Role::Root);
    assert!(tree.children.is_empty());
    let rendered = MarkdownRenderer::new(String::new()).render(&Theme::dark());
    assert_eq!(rendered.role, Role::Root);
    assert!(rendered.children.is_empty());
}

#[test]
fn stray_and_mismatched_ends_are_ignored() {
    let events = vec![
        StructuralEvent::End(BlockKind::Paragraph),
        StructuralEvent::Start(BlockKind::Strong),
        StructuralEvent::Text("bold".to_string()),
        StructuralEvent::End(BlockKind::Emphasis),
        StructuralEvent::End(BlockKind::Strong),
        StructuralEvent::End(BlockKind::Strong),
    ];
    let tree = build(&events, &Theme::dark());
    assert_eq!(tree.children.len(), 1);
    assert_eq!(tree.children[0].role, Role::Block(BlockKind::Strong));
    assert!(tree.children[0].attrs.bold);
    assert_eq!(text(&tree), "bold");
}

#[test]
fn leaf_text_is_the_payload_text() {
    let events = vec![
        StructuralEvent::Start(BlockKind::Paragraph),
        StructuralEvent::Text("a ".to_string()),
        StructuralEvent::Start(BlockKind::Emphasis),
        StructuralEvent::Text("b".to_string()),
        StructuralEvent::End(BlockKind::Emphasis),
        StructuralEvent::HardBreak,
        StructuralEvent::InlineCode("c()".to_string()),
        StructuralEvent::Rule,
        StructuralEvent::Other,
        StructuralEvent::End(BlockKind::Paragraph),
    ];
    let tree = build(&events, &Theme::dark());
    assert_eq!(text(&tree), "a bc()");
    let paragraph = &tree.children[0];
    assert_eq!(paragraph.children.len(), 5);
    assert_eq!(paragraph.children[3].role, Role::InlineCode);
    assert!(paragraph.children[3].attrs.monospace);
    assert_eq!(paragraph.children[4].role, Role::Rule);
}

#[test]
fn building_twice_gives_the_same_tree() {
    let source = "# T\n\n- a\n- *b*\n\n```rust\nlet x = 1;\n```\n\n> quote with [link](http://x)\n";
    let theme = Theme::dark();
    let first = MarkdownRenderer::new(source.to_string()).render(&theme);
    let second = MarkdownRenderer::new(source.to_string()).render(&theme);
    assert_eq!(first, second);
}

#[test]
fn start_inside_code_block_is_ignored() {
    let events = vec![
        StructuralEvent::Start(BlockKind::CodeBlock(None)),
        StructuralEvent::Start(BlockKind::Paragraph),
        StructuralEvent::Text("x".to_string()),
        StructuralEvent::End(BlockKind::Paragraph),
        StructuralEvent::End(BlockKind::CodeBlock(None)),
    ];
    let tree = build(&events, &Theme::dark());
    let block = &tree.children[0];
    assert_eq!(block.children.len(), 1);
    assert_eq!(block.children[0].role, Role::Text);
}

#[test]
fn link_and_table_markdown() {
    let theme = Theme::dark();
    let tree = MarkdownRenderer::new("[go](http://a.b)\n\n| h |\n|---|\n| c |\n".to_string()).render(&theme);
    let mut links = Vec::new();
    find_all(&tree, &Role::Block(BlockKind::Link("http://a.b".to_string())), &mut links);
    assert_eq!(links.len(), 1);
    assert!(links[0].attrs.underline);
    assert_eq!(links[0].attrs.color, Some(theme.accent_color));
    let mut cells = Vec::new();
    find_all(&tree, &Role::Block(BlockKind::TableCell), &mut cells);
    assert_eq!(cells.len(), 2);
    assert_eq!(text(&cells[1]), "c");
}

#[test]
fn preview_renders_published_text() {
    let mut preview = Preview::new();
    assert_eq!(preview.text(), "");
    preview.set_text("*hi*".to_string());
    assert_eq!(preview.text(), "*hi*");
    let tree = preview.render(&Theme::dark());
    assert_eq!(tree.children[0].children[0].role, Role::Block(BlockKind::Emphasis));
    assert_eq!(text(&tree), "hi");
}

#[test]
fn split_lines_keeps_line_breaks() {
    assert_eq!(split_lines("a\nbc\n\nd"), vec!["a\n", "bc\n", "\n", "d"]);
    assert_eq!(split_lines("x\n"), vec!["x\n"]);
    assert!(split_lines("").is_empty());
}

#[test]
fn highlighted_leaves_follow_source_lines() {
    let source = "let a = 1;\nlet b = \"two\";\n";
    let events = vec![
        StructuralEvent::Start(BlockKind::CodeBlock(Some("rust".to_string()))),
        StructuralEvent::Text(source.to_string()),
        StructuralEvent::End(BlockKind::CodeBlock(None)),
    ];
    let tree = build(&events, &Theme::dark());
    let block = &tree.children[0];
    let lines: Vec<String> = block.children.iter().map(|leaf| leaf.text()).collect();
    assert_eq!(lines, vec!["let a = 1;\n".to_string(), "let b = \"two\";\n".to_string()]);
}
