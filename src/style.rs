use vstd::prelude::*;

use crate::event::BlockKind;

verus! {

/// An RGBA colour, one byte per channel.
#[derive(Clone, Copy, Debug, PartialEq, Eq, Structural)]
pub struct Color {
    pub r: u8,
    pub g: u8,
    pub b: u8,
    pub a: u8,
}

/// The palette of the user interface, fixed for the lifetime of the process.
#[derive(Clone, Copy, Debug, PartialEq, Eq, Structural)]
pub struct Theme {
    pub background: Color,
    pub foreground: Color,
    pub editor_background: Color,
    pub preview_background: Color,
    pub border: Color,
    pub toolbar_background: Color,
    pub status_bar_background: Color,
    pub text_color: Color,
    pub heading_color: Color,
    pub accent_color: Color,
}

/// The concrete look of one node of the rendered tree.
#[derive(Clone, Copy, Debug, PartialEq, Eq, Structural)]
pub struct VisualAttributes {
    /// Text size in pixels.
    pub size: u16,
    pub bold: bool,
    pub italic: bool,
    pub strikethrough: bool,
    pub underline: bool,
    pub monospace: bool,
    pub color: Option<Color>,
    pub background: Option<Color>,
    pub border: Option<Color>,
    /// Indentation steps that this node adds to its content.
    pub indent: u8,
}

/// Body text size in pixels; also the shared size of headings of level four and below.
pub const BODY_SIZE: u16 = 16;

/// Alpha of the dimmed text inside a block quote.
pub const QUOTE_ALPHA: u8 = 179;

pub open spec fn opaque_rgb(r: u8, g: u8, b: u8) -> Color {
    Color { r, g, b, a: 255 }
}

impl Color {
    /// A fully opaque colour.
    pub fn rgb(r: u8, g: u8, b: u8) -> (c: Color)
        ensures
            c == opaque_rgb(r, g, b),
    {
        Color { r, g, b, a: 255 }
    }
}

impl Theme {
    /// The dark palette.
    pub fn dark() -> (t: Theme)
        ensures
            t.background == opaque_rgb(0x18, 0x18, 0x18),
            t.foreground == opaque_rgb(0xcc, 0xcc, 0xcc),
            t.editor_background == opaque_rgb(0x18, 0x18, 0x18),
            t.preview_background == opaque_rgb(0x18, 0x18, 0x18),
            t.border == opaque_rgb(0x33, 0x33, 0x33),
            t.toolbar_background == opaque_rgb(0x24, 0x24, 0x24),
            t.status_bar_background == opaque_rgb(0x1e, 0x1e, 0x1e),
            t.text_color == opaque_rgb(0xcc, 0xcc, 0xcc),
            t.heading_color == opaque_rgb(0x56, 0x9c, 0xd6),
            t.accent_color == opaque_rgb(0x00, 0x7a, 0xcc),
    {
        Theme {
            background: Color::rgb(0x18, 0x18, 0x18),
            foreground: Color::rgb(0xcc, 0xcc, 0xcc),
            editor_background: Color::rgb(0x18, 0x18, 0x18),
            preview_background: Color::rgb(0x18, 0x18, 0x18),
            border: Color::rgb(0x33, 0x33, 0x33),
            toolbar_background: Color::rgb(0x24, 0x24, 0x24),
            status_bar_background: Color::rgb(0x1e, 0x1e, 0x1e),
            text_color: Color::rgb(0xcc, 0xcc, 0xcc),
            heading_color: Color::rgb(0x56, 0x9c, 0xd6),
            accent_color: Color::rgb(0x00, 0x7a, 0xcc),
        }
    }
}

/// Body text with nothing added: the look of anything without a style of its own.
pub open spec fn plain_style() -> VisualAttributes {
    VisualAttributes {
        size: BODY_SIZE,
        bold: false,
        italic: false,
        strikethrough: false,
        underline: false,
        monospace: false,
        color: None,
        background: None,
        border: None,
        indent: 0,
    }
}

/// Text size of a heading: level 1 is the largest, levels from 4 on share the body size.
pub open spec fn heading_size(level: u8) -> u16 {
    if level == 1 {
        32
    } else if level == 2 {
        24
    } else if level == 3 {
        20
    } else {
        BODY_SIZE
    }
}

/// The look of each block kind under a theme.
pub open spec fn kind_style(kind: BlockKind, theme: Theme) -> VisualAttributes {
    let p = plain_style();
    match kind {
        BlockKind::Heading(level) => VisualAttributes {
            size: heading_size(level),
            bold: true,
            color: Some(theme.heading_color),
            ..p
        },
        BlockKind::Strong => VisualAttributes { bold: true, ..p },
        BlockKind::Emphasis => VisualAttributes { italic: true, ..p },
        BlockKind::Strikethrough => VisualAttributes { strikethrough: true, ..p },
        BlockKind::BlockQuote => VisualAttributes {
            color: Some(Color { a: QUOTE_ALPHA, ..theme.text_color }),
            border: Some(theme.border),
            indent: 1,
            ..p
        },
        BlockKind::CodeBlock(_) => VisualAttributes {
            monospace: true,
            background: Some(theme.editor_background),
            ..p
        },
        BlockKind::List(_) => VisualAttributes { indent: 1, ..p },
        BlockKind::Table => VisualAttributes { border: Some(theme.border), ..p },
        BlockKind::TableHead => VisualAttributes {
            bold: true,
            background: Some(theme.toolbar_background),
            ..p
        },
        BlockKind::TableRow => VisualAttributes { border: Some(theme.border), ..p },
        BlockKind::Link(_) => VisualAttributes {
            color: Some(theme.accent_color),
            underline: true,
            ..p
        },
        _ => p,
    }
}

/// Monospace on the editor background: the look of inline code.
pub open spec fn inline_code_style(theme: Theme) -> VisualAttributes {
    VisualAttributes {
        monospace: true,
        background: Some(theme.editor_background),
        ..plain_style()
    }
}

/// Monospace: the look of one highlighted line of a code block.
pub open spec fn code_line_style() -> VisualAttributes {
    VisualAttributes { monospace: true, ..plain_style() }
}

/// A horizontal rule is drawn in the border colour.
pub open spec fn rule_style(theme: Theme) -> VisualAttributes {
    VisualAttributes { border: Some(theme.border), ..plain_style() }
}

pub fn plain() -> (r: VisualAttributes)
    ensures
        r == plain_style(),
{
    VisualAttributes {
        size: BODY_SIZE,
        bold: false,
        italic: false,
        strikethrough: false,
        underline: false,
        monospace: false,
        color: None,
        background: None,
        border: None,
        indent: 0,
    }
}

/// Resolves the look of a block kind; every kind has one.
pub fn resolve(kind: &BlockKind, theme: &Theme) -> (r: VisualAttributes)
    ensures
        r == kind_style(*kind, *theme),
{
    let p = plain();
    match kind {
        BlockKind::Heading(level) => {
            let size: u16 = if *level == 1 {
                32
            } else if *level == 2 {
                24
            } else if *level == 3 {
                20
            } else {
                BODY_SIZE
            };
            VisualAttributes { size, bold: true, color: Some(theme.heading_color), ..p }
        },
        BlockKind::Strong => VisualAttributes { bold: true, ..p },
        BlockKind::Emphasis => VisualAttributes { italic: true, ..p },
        BlockKind::Strikethrough => VisualAttributes { strikethrough: true, ..p },
        BlockKind::BlockQuote => VisualAttributes {
            color: Some(Color { a: QUOTE_ALPHA, ..theme.text_color }),
            border: Some(theme.border),
            indent: 1,
            ..p
        },
        BlockKind::CodeBlock(_) => VisualAttributes {
            monospace: true,
            background: Some(theme.editor_background),
            ..p
        },
        BlockKind::List(_) => VisualAttributes { indent: 1, ..p },
        BlockKind::Table => VisualAttributes { border: Some(theme.border), ..p },
        BlockKind::TableHead => VisualAttributes {
            bold: true,
            background: Some(theme.toolbar_background),
            ..p
        },
        BlockKind::TableRow => VisualAttributes { border: Some(theme.border), ..p },
        BlockKind::Link(_) => VisualAttributes {
            color: Some(theme.accent_color),
            underline: true,
            ..p
        },
        _ => p,
    }
}

pub fn inline_code(theme: &Theme) -> (r: VisualAttributes)
    ensures
        r == inline_code_style(*theme),
{
    VisualAttributes { monospace: true, background: Some(theme.editor_background), ..plain() }
}

pub fn code_line() -> (r: VisualAttributes)
    ensures
        r == code_line_style(),
{
    VisualAttributes { monospace: true, ..plain() }
}

pub fn rule(theme: &Theme) -> (r: VisualAttributes)
    ensures
        r == rule_style(*theme),
{
    VisualAttributes { border: Some(theme.border), ..plain() }
}

} // verus!
