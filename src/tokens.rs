use vstd::prelude::*;

use pulldown_cmark::{CodeBlockKind, Event, Options, Parser, Tag, TagEnd};

use crate::event::{BlockKind, StructuralEvent};

verus! {

#[verifier::external_type_specification]
#[verifier::external_body]
pub struct ExEvent<'a>(Event<'a>);

#[verifier::external_type_specification]
#[verifier::external_body]
pub struct ExTagEnd(TagEnd);

/// The CommonMark extensions that a parse turns on.
#[derive(Clone, Copy, Debug, PartialEq, Eq, Structural)]
pub struct Extensions {
    pub tables: bool,
    pub footnotes: bool,
    pub strikethrough: bool,
    pub tasklists: bool,
    pub heading_attributes: bool,
}

/// What the styled renderer reads: every extension.
pub open spec fn renderer_extensions() -> Extensions {
    Extensions {
        tables: true,
        footnotes: true,
        strikethrough: true,
        tasklists: true,
        heading_attributes: true,
    }
}

/// What the outline reader reads: tables and task lists.
pub open spec fn outline_extensions() -> Extensions {
    Extensions { strikethrough: false, ..markup_extensions() }
}

/// What the markup preview reads: tables, task lists and strikethrough.
pub open spec fn markup_extensions() -> Extensions {
    Extensions {
        tables: true,
        footnotes: false,
        strikethrough: true,
        tasklists: true,
        heading_attributes: false,
    }
}

impl Extensions {
    pub fn for_renderer() -> (r: Extensions)
        ensures
            r == renderer_extensions(),
    {
        Extensions {
            tables: true,
            footnotes: true,
            strikethrough: true,
            tasklists: true,
            heading_attributes: true,
        }
    }

    pub fn for_outline() -> (r: Extensions)
        ensures
            r == outline_extensions(),
    {
        Extensions {
            tables: true,
            footnotes: false,
            strikethrough: false,
            tasklists: true,
            heading_attributes: false,
        }
    }

    pub fn for_markup() -> (r: Extensions)
        ensures
            r == markup_extensions(),
    {
        Extensions {
            tables: true,
            footnotes: false,
            strikethrough: true,
            tasklists: true,
            heading_attributes: false,
        }
    }
}

/// The structural events of a markdown text, as a CommonMark parser with the given
/// extensions reads it.
pub uninterp spec fn events_of(source: Seq<char>, extensions: Extensions) -> Seq<StructuralEvent>;

/// A heading's level runs from 1 to 6.
pub open spec fn heading_level_ok(event: StructuralEvent) -> bool {
    match event {
        StructuralEvent::Start(BlockKind::Heading(level)) => 1 <= level <= 6,
        StructuralEvent::End(BlockKind::Heading(level)) => 1 <= level <= 6,
        _ => true,
    }
}

pub open spec fn heading_levels_ok(events: Seq<StructuralEvent>) -> bool {
    forall|i: int| 0 <= i < events.len() ==> heading_level_ok(#[trigger] events[i])
}

/// Relies on `pulldown_cmark::Parser::new_ext`: the event stream of the text, in order,
/// each event converted one for one by `event_of`; heading levels are `HeadingLevel`
/// values, 1 to 6.
#[verifier::external_body]
pub(crate) fn tokenize(source: &str, extensions: Extensions) -> (r: Vec<StructuralEvent>)
    ensures
        r@ == events_of(source@, extensions),
        heading_levels_ok(r@),
{
    let mut options = Options::empty();
    options.set(Options::ENABLE_TABLES, extensions.tables);
    options.set(Options::ENABLE_FOOTNOTES, extensions.footnotes);
    options.set(Options::ENABLE_STRIKETHROUGH, extensions.strikethrough);
    options.set(Options::ENABLE_TASKLISTS, extensions.tasklists);
    options.set(Options::ENABLE_HEADING_ATTRIBUTES, extensions.heading_attributes);
    let mut events = Vec::new();
    for event in Parser::new_ext(source, options) {
        events.push(event_of(event));
    }
    events
}

/// Converts one `pulldown_cmark::Event`, variant for variant; used by `tokenize` only.
#[verifier::external_body]
fn event_of(event: Event) -> StructuralEvent {
    match event {
        Event::Start(Tag::CodeBlock(CodeBlockKind::Fenced(language))) => StructuralEvent::Start(
            BlockKind::CodeBlock(Some(language.to_string())),
        ),
        Event::Start(Tag::Link { dest_url, .. }) => StructuralEvent::Start(BlockKind::Link(dest_url.to_string())),
        Event::Start(tag) => StructuralEvent::Start(kind_of(tag.to_end())),
        Event::End(end) => StructuralEvent::End(kind_of(end)),
        Event::Text(text) => StructuralEvent::Text(text.to_string()),
        Event::Code(code) => StructuralEvent::InlineCode(code.to_string()),
        Event::SoftBreak => StructuralEvent::SoftBreak,
        Event::HardBreak => StructuralEvent::HardBreak,
        Event::Rule => StructuralEvent::Rule,
        _ => StructuralEvent::Other,
    }
}

/// Converts the block-level variants of a `pulldown_cmark::TagEnd`; used by `event_of` only.
#[verifier::external_body]
fn kind_of(end: TagEnd) -> BlockKind {
    match end {
        TagEnd::Heading(level) => BlockKind::Heading(level as u8),
        TagEnd::Paragraph => BlockKind::Paragraph,
        TagEnd::BlockQuote(_) => BlockKind::BlockQuote,
        TagEnd::CodeBlock => BlockKind::CodeBlock(None),
        TagEnd::List(ordered) => BlockKind::List(ordered),
        TagEnd::Item => BlockKind::ListItem,
        TagEnd::Table => BlockKind::Table,
        TagEnd::TableHead => BlockKind::TableHead,
        TagEnd::TableRow => BlockKind::TableRow,
        TagEnd::TableCell => BlockKind::TableCell,
        TagEnd::Link => BlockKind::Link(String::new()),
        other => inline_kind_of(other),
    }
}

/// Converts the span-level variants of a `pulldown_cmark::TagEnd`; used by `kind_of` only.
#[verifier::external_body]
fn inline_kind_of(end: TagEnd) -> BlockKind {
    match end {
        TagEnd::Emphasis => BlockKind::Emphasis,
        TagEnd::Strong => BlockKind::Strong,
        TagEnd::Strikethrough => BlockKind::Strikethrough,
        _ => BlockKind::Other,
    }
}

} // verus!
