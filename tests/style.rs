use markd::event::BlockKind;
use markd::style::{resolve, Color, Theme};

#[test]
fn dark_theme_colours() {
    let theme = Theme::dark();
    assert_eq!(theme.background, Color { r: 0x18, g: 0x18, b: 0x18, a: 0xff });
    assert_eq!(theme.heading_color, Color { r: 0x56, g: 0x9c, b: 0xd6, a: 0xff });
    assert_eq!(theme.accent_color, Color { r: 0x00, g: 0x7a, b: 0xcc, a: 0xff });
    assert_eq!(theme.status_bar_background, Color::rgb(0x1e, 0x1e, 0x1e));
}

#[test]
fn heading_sizes_shrink_then_share_a_bucket() {
    let theme = Theme::dark();
    let sizes: Vec<u16> = (1..=6).map(|l| resolve(&BlockKind::Heading(l), &theme).size).collect();
    assert_eq!(sizes, vec![32, 24, 20, 16, 16, 16]);
}

#[test]
fn resolve_styles_by_kind() {
    let theme = Theme::dark();
    assert!(resolve(&BlockKind::Strong, &theme).bold);
    assert!(resolve(&BlockKind::Emphasis, &theme).italic);
    assert!(resolve(&BlockKind::Strikethrough, &theme).strikethrough);
    let code = resolve(&BlockKind::CodeBlock(None), &theme);
    assert!(code.monospace);
    assert_eq!(code.background, Some(theme.editor_background));
    let quote = resolve(&BlockKind::BlockQuote, &theme);
    assert_eq!(quote.indent, 1);
    assert_eq!(quote.color, Some(Color { r: 0xcc, g: 0xcc, b: 0xcc, a: 179 }));
    let other = resolve(&BlockKind::Other, &theme);
    assert_eq!(other.size, 16);
    assert!(!other.bold && !other.italic && other.color.is_none());
    assert_eq!(resolve(&BlockKind::Paragraph, &theme), other);
}
