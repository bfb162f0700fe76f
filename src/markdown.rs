use vstd::prelude::*;

use crate::event::{BlockKind, StructuralEvent};
use crate::tokens::{events_of, heading_level_ok, heading_levels_ok, outline_extensions, tokenize, Extensions};

verus! {

/// A top-level element of a document's outline.
#[derive(Debug, Clone, PartialEq, Eq)]
pub enum MarkdownItem {
    Heading(u8, String),
    Paragraph(String),
    CodeBlock { lang: String, code: String },
    List(Vec<String>),
}

pub enum ItemView {
    Heading(u8, Seq<char>),
    Paragraph(Seq<char>),
    CodeBlock(Seq<char>, Seq<char>),
    List(Seq<Seq<char>>),
}

pub open spec fn strings_view(s: Seq<String>) -> Seq<Seq<char>> {
    s.map_values(|x: String| x@)
}

impl View for MarkdownItem {
    type V = ItemView;

    open spec fn view(&self) -> ItemView {
        match self {
            MarkdownItem::Heading(level, text) => ItemView::Heading(*level, text@),
            MarkdownItem::Paragraph(text) => ItemView::Paragraph(text@),
            MarkdownItem::CodeBlock { lang, code } => ItemView::CodeBlock(lang@, code@),
            MarkdownItem::List(items) => ItemView::List(strings_view(items@)),
        }
    }
}

pub open spec fn items_view(s: Seq<MarkdownItem>) -> Seq<ItemView> {
    s.map_values(|x: MarkdownItem| x@)
}

/// The state of an outline being read: the items so far, the text gathered since the last
/// tag, the level of an open heading, the language of an open code block, the entries of an
/// open list, and whether a list item is open.
pub struct Outline {
    pub items: Seq<ItemView>,
    pub text: Seq<char>,
    pub heading: Option<u8>,
    pub code: Option<Seq<char>>,
    pub list: Option<Seq<Seq<char>>>,
    pub in_item: bool,
}

pub open spec fn empty_outline() -> Outline {
    Outline {
        items: Seq::empty(),
        text: Seq::empty(),
        heading: None,
        code: None,
        list: None,
        in_item: false,
    }
}

/// A tag opens: headings, code blocks, lists and items are noted; the gathered text restarts.
pub open spec fn outline_start(o: Outline, kind: BlockKind) -> Outline {
    let o2 = match kind {
        BlockKind::Heading(level) => Outline { heading: Some(level), ..o },
        BlockKind::CodeBlock(language) => Outline {
            code: Some(
                match language {
                    Some(l) => l@,
                    None => Seq::empty(),
                },
            ),
            ..o
        },
        BlockKind::List(_) => Outline { list: Some(Seq::empty()), ..o },
        BlockKind::ListItem => Outline { in_item: true, ..o },
        _ => o,
    };
    Outline { text: Seq::empty(), ..o2 }
}

/// A tag closes: headings, paragraphs outside list items, code blocks and lists become items,
/// an item's text joins its list; the gathered text restarts.
pub open spec fn outline_end(o: Outline, kind: BlockKind) -> Outline {
    let o2 = match kind {
        BlockKind::Heading(_) => match o.heading {
            Some(level) => Outline {
                items: o.items.push(ItemView::Heading(level, o.text)),
                heading: None,
                ..o
            },
            None => o,
        },
        BlockKind::Paragraph => if o.in_item {
            o
        } else {
            Outline { items: o.items.push(ItemView::Paragraph(o.text)), ..o }
        },
        BlockKind::ListItem => Outline {
            list: match o.list {
                Some(entries) => Some(entries.push(o.text)),
                None => None,
            },
            in_item: false,
            ..o
        },
        BlockKind::CodeBlock(_) => Outline {
            items: o.items.push(
                ItemView::CodeBlock(
                    match o.code {
                        Some(l) => l,
                        None => Seq::empty(),
                    },
                    o.text,
                ),
            ),
            code: None,
            ..o
        },
        BlockKind::List(_) => match o.list {
            Some(entries) => Outline {
                items: o.items.push(ItemView::List(entries)),
                list: None,
                ..o
            },
            None => o,
        },
        _ => o,
    };
    Outline { text: Seq::empty(), ..o2 }
}

pub open spec fn outline_step(o: Outline, event: StructuralEvent) -> Outline {
    match event {
        StructuralEvent::Start(kind) => outline_start(o, kind),
        StructuralEvent::End(kind) => outline_end(o, kind),
        StructuralEvent::Text(s) => Outline { text: o.text + s@, ..o },
        StructuralEvent::InlineCode(s) => Outline {
            text: o.text + seq!['`'] + s@ + seq!['`'],
            ..o
        },
        _ => o,
    }
}

pub open spec fn outline_of(events: Seq<StructuralEvent>) -> Outline
    decreases events.len(),
{
    if events.len() == 0 {
        empty_outline()
    } else {
        outline_step(outline_of(events.drop_last()), events.last())
    }
}

/// A heading item's level runs from 1 to 6.
pub open spec fn item_level_ok(item: ItemView) -> bool {
    match item {
        ItemView::Heading(level, _) => 1 <= level <= 6,
        _ => true,
    }
}

pub open spec fn item_levels_ok(items: Seq<ItemView>) -> bool {
    forall|i: int| 0 <= i < items.len() ==> item_level_ok(#[trigger] items[i])
}

proof fn lemma_push_level_ok(items: Seq<ItemView>, item: ItemView)
    requires
        item_levels_ok(items),
        item_level_ok(item),
    ensures
        item_levels_ok(items.push(item)),
{
    assert forall|i: int| 0 <= i < items.push(item).len() implies item_level_ok(
        #[trigger] items.push(item)[i],
    ) by {
        if i < items.len() {
            assert(items.push(item)[i] == items[i]);
        }
    }
}

/// Events whose headings have levels 1 to 6 give an outline whose headings have levels 1 to 6.
pub proof fn lemma_outline_levels(events: Seq<StructuralEvent>)
    requires
        heading_levels_ok(events),
    ensures
        item_levels_ok(outline_of(events).items),
        outline_of(events).heading matches Some(level) ==> 1 <= level <= 6,
    decreases events.len(),
{
    if events.len() > 0 {
        let init = events.drop_last();
        assert forall|i: int| 0 <= i < init.len() implies heading_level_ok(#[trigger] init[i]) by {
            assert(init[i] == events[i]);
        }
        lemma_outline_levels(init);
        let o = outline_of(init);
        assert(heading_level_ok(events[events.len() - 1]));
        match events.last() {
            StructuralEvent::End(kind) => {
                match kind {
                    BlockKind::Heading(_) => {
                        if let Some(level) = o.heading {
                            lemma_push_level_ok(o.items, ItemView::Heading(level, o.text));
                        }
                    },
                    BlockKind::Paragraph => {
                        lemma_push_level_ok(o.items, ItemView::Paragraph(o.text));
                    },
                    BlockKind::CodeBlock(_) => {
                        let lang = match o.code {
                            Some(l) => l,
                            None => Seq::empty(),
                        };
                        lemma_push_level_ok(o.items, ItemView::CodeBlock(lang, o.text));
                    },
                    BlockKind::List(_) => {
                        if let Some(entries) = o.list {
                            lemma_push_level_ok(o.items, ItemView::List(entries));
                        }
                    },
                    _ => {},
                }
            },
            _ => {},
        }
    }
}

spec fn code_view(code: Option<String>) -> Option<Seq<char>> {
    match code {
        Some(c) => Some(c@),
        None => None,
    }
}

spec fn list_view(list: Option<Vec<String>>) -> Option<Seq<Seq<char>>> {
    match list {
        Some(v) => Some(strings_view(v@)),
        None => None,
    }
}

/// Reads the outline of a sequence of events: headings, paragraphs outside list items, code
/// blocks and lists, in order.
pub fn outline(events: &Vec<StructuralEvent>) -> (r: Vec<MarkdownItem>)
    ensures
        items_view(r@) == outline_of(events@).items,
        heading_levels_ok(events@) ==> item_levels_ok(items_view(r@)),
{
    proof {
        if heading_levels_ok(events@) {
            lemma_outline_levels(events@);
        }
    }
    let mut items: Vec<MarkdownItem> = Vec::new();
    let mut text = String::new();
    let mut heading: Option<u8> = None;
    let mut code: Option<String> = None;
    let mut list: Option<Vec<String>> = None;
    let mut in_item = false;
    proof {
        assert(items_view(items@) =~= Seq::<ItemView>::empty());
        assert(events@.take(0) =~= Seq::<StructuralEvent>::empty());
    }
    let mut i: usize = 0;
    while i < events.len()
        invariant
            i <= events@.len(),
            outline_of(events@.take(i as int)) == (Outline {
                items: items_view(items@),
                text: text@,
                heading,
                code: code_view(code),
                list: list_view(list),
                in_item,
            }),
        decreases events@.len() - i,
    {
        let ghost o = outline_of(events@.take(i as int));
        proof {
            assert(events@.take(i as int + 1).drop_last() =~= events@.take(i as int));
        }
        match &events[i] {
            StructuralEvent::Start(kind) => {
                match kind {
                    BlockKind::Heading(level) => {
                        heading = Some(*level);
                    },
                    BlockKind::CodeBlock(language) => {
                        code = Some(
                            match language {
                                Some(l) => l.clone(),
                                None => String::new(),
                            },
                        );
                    },
                    BlockKind::List(_) => {
                        list = Some(Vec::new());
                        proof {
                            assert(strings_view(Seq::<String>::empty()) =~= Seq::<Seq<char>>::empty());
                        }
                    },
                    BlockKind::ListItem => {
                        in_item = true;
                    },
                    _ => {},
                }
                text = String::new();
            },
            StructuralEvent::End(kind) => {
                match kind {
                    BlockKind::Heading(_) => {
                        match heading {
                            Some(level) => {
                                let ghost before = items@;
                                let item = MarkdownItem::Heading(level, text.clone());
                                items.push(item);
                                heading = None;
                                proof {
                                    assert(items_view(items@) =~= items_view(before).push(item@));
                                }
                            },
                            None => {},
                        }
                    },
                    BlockKind::Paragraph => {
                        if !in_item {
                            let ghost before = items@;
                            let item = MarkdownItem::Paragraph(text.clone());
                            items.push(item);
                            proof {
                                assert(items_view(items@) =~= items_view(before).push(item@));
                            }
                        }
                    },
                    BlockKind::ListItem => {
                        match list {
                            Some(mut entries) => {
                                let ghost before = entries@;
                                let entry = text.clone();
                                entries.push(entry);
                                proof {
                                    assert(strings_view(entries@) =~= strings_view(before).push(
                                        entry@,
                                    ));
                                }
                                list = Some(entries);
                            },
                            None => {
                                list = None;
                            },
                        }
                        in_item = false;
                    },
                    BlockKind::CodeBlock(_) => {
                        let lang = match code {
                            Some(l) => l,
                            None => String::new(),
                        };
                        let ghost before = items@;
                        let item = MarkdownItem::CodeBlock { lang, code: text.clone() };
                        items.push(item);
                        code = None;
                        proof {
                            assert(items_view(items@) =~= items_view(before).push(item@));
                        }
                    },
                    BlockKind::List(_) => {
                        match list {
                            Some(entries) => {
                                let ghost before = items@;
                                let item = MarkdownItem::List(entries);
                                items.push(item);
                                proof {
                                    assert(items_view(items@) =~= items_view(before).push(item@));
                                }
                            },
                            None => {},
                        }
                        list = None;
                    },
                    _ => {},
                }
                text = String::new();
            },
            StructuralEvent::Text(s) => {
                text.append(s.as_str());
            },
            StructuralEvent::InlineCode(s) => {
                let ghost before = text@;
                proof {
                    reveal_strlit("`");
                }
                text.append("`");
                text.append(s.as_str());
                text.append("`");
                proof {
                    assert(text@ =~= before + seq!['`'] + s@ + seq!['`']);
                }
            },
            _ => {},
        }
        i = i + 1;
    }
    proof {
        assert(events@.take(i as int) =~= events@);
    }
    items
}

/// The outline of a markdown text.
pub fn parse_markdown(input: &str) -> (r: Vec<MarkdownItem>)
    ensures
        items_view(r@) == outline_of(events_of(input@, outline_extensions())).items,
        item_levels_ok(items_view(r@)),
{
    let events = tokenize(input, Extensions::for_outline());
    outline(&events)
}

} // verus!
