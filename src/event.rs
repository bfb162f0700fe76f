use vstd::prelude::*;

verus! {

/// The semantic category of a structural element of a markdown document.
#[derive(Clone, Debug, PartialEq, Eq)]
pub enum BlockKind {
    /// A heading; its level runs from 1 to 6.
    Heading(u8),
    Paragraph,
    Emphasis,
    Strong,
    Strikethrough,
    BlockQuote,
    /// A code block with its language tag, if it has one.
    CodeBlock(Option<String>),
    /// A list; `true` when its items are numbered.
    List(bool),
    ListItem,
    Table,
    TableHead,
    TableRow,
    TableCell,
    /// A link with its destination.
    Link(String),
    /// Any other element (an image, a footnote definition, raw HTML...).
    Other,
}

/// One token of a markdown parse.
#[derive(Clone, Debug, PartialEq, Eq)]
pub enum StructuralEvent {
    Start(BlockKind),
    End(BlockKind),
    Text(String),
    InlineCode(String),
    SoftBreak,
    HardBreak,
    Rule,
    /// A token that carries nothing for the rendered view (inline HTML, a task marker...).
    Other,
}

/// Two kinds are of the same category; payloads (level, language, destination) are not compared.
pub open spec fn same_category(a: BlockKind, b: BlockKind) -> bool {
    match (a, b) {
        (BlockKind::Heading(_), BlockKind::Heading(_)) => true,
        (BlockKind::Paragraph, BlockKind::Paragraph) => true,
        (BlockKind::Emphasis, BlockKind::Emphasis) => true,
        (BlockKind::Strong, BlockKind::Strong) => true,
        (BlockKind::Strikethrough, BlockKind::Strikethrough) => true,
        (BlockKind::BlockQuote, BlockKind::BlockQuote) => true,
        (BlockKind::CodeBlock(_), BlockKind::CodeBlock(_)) => true,
        (BlockKind::List(_), BlockKind::List(_)) => true,
        (BlockKind::ListItem, BlockKind::ListItem) => true,
        (BlockKind::Table, BlockKind::Table) => true,
        (BlockKind::TableHead, BlockKind::TableHead) => true,
        (BlockKind::TableRow, BlockKind::TableRow) => true,
        (BlockKind::TableCell, BlockKind::TableCell) => true,
        (BlockKind::Link(_), BlockKind::Link(_)) => true,
        (BlockKind::Other, BlockKind::Other) => true,
        _ => false,
    }
}

impl BlockKind {
    /// Whether `self` closes an element opened as `other`.
    pub fn same_category_as(&self, other: &BlockKind) -> (r: bool)
        ensures
            r == same_category(*self, *other),
    {
        match (self, other) {
            (BlockKind::Heading(_), BlockKind::Heading(_)) => true,
            (BlockKind::Paragraph, BlockKind::Paragraph) => true,
            (BlockKind::Emphasis, BlockKind::Emphasis) => true,
            (BlockKind::Strong, BlockKind::Strong) => true,
            (BlockKind::Strikethrough, BlockKind::Strikethrough) => true,
            (BlockKind::BlockQuote, BlockKind::BlockQuote) => true,
            (BlockKind::CodeBlock(_), BlockKind::CodeBlock(_)) => true,
            (BlockKind::List(_), BlockKind::List(_)) => true,
            (BlockKind::ListItem, BlockKind::ListItem) => true,
            (BlockKind::Table, BlockKind::Table) => true,
            (BlockKind::TableHead, BlockKind::TableHead) => true,
            (BlockKind::TableRow, BlockKind::TableRow) => true,
            (BlockKind::TableCell, BlockKind::TableCell) => true,
            (BlockKind::Link(_), BlockKind::Link(_)) => true,
            (BlockKind::Other, BlockKind::Other) => true,
            _ => false,
        }
    }

    /// An identical copy of the kind.
    pub fn duplicate(&self) -> (r: BlockKind)
        ensures
            r == *self,
    {
        match self {
            BlockKind::Heading(level) => BlockKind::Heading(*level),
            BlockKind::Paragraph => BlockKind::Paragraph,
            BlockKind::Emphasis => BlockKind::Emphasis,
            BlockKind::Strong => BlockKind::Strong,
            BlockKind::Strikethrough => BlockKind::Strikethrough,
            BlockKind::BlockQuote => BlockKind::BlockQuote,
            BlockKind::CodeBlock(None) => BlockKind::CodeBlock(None),
            BlockKind::CodeBlock(Some(lang)) => BlockKind::CodeBlock(Some(lang.clone())),
            BlockKind::List(ordered) => BlockKind::List(*ordered),
            BlockKind::ListItem => BlockKind::ListItem,
            BlockKind::Table => BlockKind::Table,
            BlockKind::TableHead => BlockKind::TableHead,
            BlockKind::TableRow => BlockKind::TableRow,
            BlockKind::TableCell => BlockKind::TableCell,
            BlockKind::Link(dest) => BlockKind::Link(dest.clone()),
            BlockKind::Other => BlockKind::Other,
        }
    }
}

} // verus!
