use vstd::prelude::*;

use crate::event::{BlockKind, StructuralEvent};
use crate::tokens::{events_of, markup_extensions, tokenize, Extensions};

verus! {

/// The control characters that markup cannot hold as they are.
pub open spec fn is_escaped_control(c: char) -> bool {
    let n = c as u32;
    (0x1 <= n <= 0x8) || (0xb <= n <= 0xc) || (0xe <= n <= 0x1f) || (0x7f <= n <= 0x84) || (
    0x86 <= n <= 0x9f)
}

/// Lower-case hexadecimal digits of a number below 256, without leading zeros.
pub open spec fn hex_of(n: u32) -> Seq<char> {
    if n < 16 {
        "0123456789abcdef"@.subrange(n as int, n + 1)
    } else {
        let high = (n / 16) as int;
        let low = (n % 16) as int;
        "0123456789abcdef"@.subrange(high, high + 1) + "0123456789abcdef"@.subrange(low, low + 1)
    }
}

/// The markup form of one character: the five characters that markup gives a meaning to
/// become entities, the control characters above become numeric references in hexadecimal,
/// every other character stands for itself.
pub open spec fn escape_char(c: char) -> Seq<char> {
    if c == '&' {
        "&amp;"@
    } else if c == '<' {
        "&lt;"@
    } else if c == '>' {
        "&gt;"@
    } else if c == '\'' {
        "&#39;"@
    } else if c == '"' {
        "&quot;"@
    } else if is_escaped_control(c) {
        "&#x"@ + hex_of(c as u32) + ";"@
    } else {
        seq![c]
    }
}

pub open spec fn escape_markup(s: Seq<char>) -> Seq<char>
    decreases s.len(),
{
    if s.len() == 0 {
        Seq::empty()
    } else {
        escape_markup(s.drop_last()) + escape_char(s.last())
    }
}

fn is_control(c: char) -> (r: bool)
    ensures
        r == is_escaped_control(c),
{
    let n = c as u32;
    (0x1 <= n && n <= 0x8) || (0xb <= n && n <= 0xc) || (0xe <= n && n <= 0x1f) || (0x7f <= n
        && n <= 0x84) || (0x86 <= n && n <= 0x9f)
}

fn push_hex(out: &mut String, n: u32)
    requires
        n < 256,
    ensures
        final(out)@ == old(out)@ + hex_of(n),
{
    let digits: &str = "0123456789abcdef";
    proof {
        reveal_strlit("0123456789abcdef");
    }
    if n < 16 {
        out.append(digits.substring_char(n as usize, n as usize + 1));
    } else {
        let high = (n / 16) as usize;
        let low = (n % 16) as usize;
        out.append(digits.substring_char(high, high + 1));
        out.append(digits.substring_char(low, low + 1));
        proof {
            assert(out@ =~= old(out)@ + hex_of(n));
        }
    }
}

/// Escapes a text for use inside markup.
pub fn escape_markup_text(text: &str) -> (r: String)
    ensures
        r@ == escape_markup(text@),
{
    let n = text.unicode_len();
    let mut out = String::new();
    let mut i: usize = 0;
    while i < n
        invariant
            n == text@.len(),
            i <= n,
            out@ == escape_markup(text@.take(i as int)),
        decreases n - i,
    {
        let c = text.get_char(i);
        proof {
            assert(text@.take(i as int + 1).drop_last() =~= text@.take(i as int));
        }
        if c == '&' {
            out.append("&amp;");
        } else if c == '<' {
            out.append("&lt;");
        } else if c == '>' {
            out.append("&gt;");
        } else if c == '\'' {
            out.append("&#39;");
        } else if c == '"' {
            out.append("&quot;");
        } else if is_control(c) {
            let ghost before = out@;
            out.append("&#x");
            push_hex(&mut out, c as u32);
            out.append(";");
            proof {
                assert(out@ =~= before + escape_char(c));
            }
        } else {
            let piece = text.substring_char(i, i + 1);
            proof {
                assert(piece@ =~= seq![c]);
            }
            out.append(piece);
        }
        i = i + 1;
    }
    proof {
        assert(text@.take(i as int) =~= text@);
    }
    out
}

/// The markup that opens a heading of a level: bold, sized by level.
pub open spec fn heading_open(level: u8) -> Seq<char> {
    if level == 1 {
        "<span weight='bold' size='xx-large'>"@
    } else if level == 2 {
        "<span weight='bold' size='x-large'>"@
    } else if level == 3 {
        "<span weight='bold' size='large'>"@
    } else {
        "<span weight='bold' size='medium'>"@
    }
}

/// Two spaces for each open list.
pub open spec fn indent(n: nat) -> Seq<char>
    decreases n,
{
    if n == 0 {
        Seq::empty()
    } else {
        indent((n - 1) as nat) + "  "@
    }
}

/// The markup written so far, and how many lists are open.
pub struct Markup {
    pub out: Seq<char>,
    pub lists: nat,
}

pub open spec fn markup_start(m: Markup, kind: BlockKind) -> Markup {
    match kind {
        BlockKind::Heading(level) => Markup { out: m.out + heading_open(level), ..m },
        BlockKind::Paragraph => Markup { out: m.out + "<span>"@, ..m },
        BlockKind::Emphasis => Markup { out: m.out + "<i>"@, ..m },
        BlockKind::Strong => Markup { out: m.out + "<b>"@, ..m },
        BlockKind::Strikethrough => Markup { out: m.out + "<s>"@, ..m },
        BlockKind::CodeBlock(_) => Markup {
            out: m.out + "<tt><span background='#f0f0f0'>"@,
            ..m
        },
        BlockKind::List(_) => Markup { lists: m.lists + 1, ..m },
        BlockKind::ListItem => Markup {
            out: m.out + "\n"@ + indent(m.lists) + "\u{2022} "@,
            ..m
        },
        _ => m,
    }
}

pub open spec fn markup_end(m: Markup, kind: BlockKind) -> Markup {
    match kind {
        BlockKind::Heading(_) => Markup { out: m.out + "</span>\n\n"@, ..m },
        BlockKind::Paragraph => Markup { out: m.out + "</span>\n\n"@, ..m },
        BlockKind::Emphasis => Markup { out: m.out + "</i>"@, ..m },
        BlockKind::Strong => Markup { out: m.out + "</b>"@, ..m },
        BlockKind::Strikethrough => Markup { out: m.out + "</s>"@, ..m },
        BlockKind::CodeBlock(_) => Markup { out: m.out + "</span></tt>\n\n"@, ..m },
        BlockKind::List(_) => {
            let lists = if m.lists > 0 {
                (m.lists - 1) as nat
            } else {
                0
            };
            Markup {
                out: if lists == 0 {
                    m.out + "\n"@
                } else {
                    m.out
                },
                lists,
            }
        },
        _ => m,
    }
}

pub open spec fn markup_step(m: Markup, event: StructuralEvent) -> Markup {
    match event {
        StructuralEvent::Start(kind) => markup_start(m, kind),
        StructuralEvent::End(kind) => markup_end(m, kind),
        StructuralEvent::Text(s) => Markup { out: m.out + escape_markup(s@), ..m },
        StructuralEvent::InlineCode(s) => Markup {
            out: m.out + "<tt>"@ + escape_markup(s@) + "</tt>"@,
            ..m
        },
        StructuralEvent::SoftBreak => Markup { out: m.out + " "@, ..m },
        StructuralEvent::HardBreak => Markup { out: m.out + "\n"@, ..m },
        _ => m,
    }
}

pub open spec fn markup_of(events: Seq<StructuralEvent>) -> Markup
    decreases events.len(),
{
    if events.len() == 0 {
        Markup { out: Seq::empty(), lists: 0 }
    } else {
        markup_step(markup_of(events.drop_last()), events.last())
    }
}

fn push_indent(out: &mut String, n: usize)
    ensures
        final(out)@ == old(out)@ + indent(n as nat),
{
    let mut k: usize = 0;
    while k < n
        invariant
            k <= n,
            out@ == old(out)@ + indent(k as nat),
        decreases n - k,
    {
        let ghost before = out@;
        out.append("  ");
        proof {
            assert(indent((k + 1) as nat) == indent(k as nat) + "  "@);
            assert(out@ =~= old(out)@ + indent((k + 1) as nat));
        }
        k = k + 1;
    }
}

/// Pango markup for a sequence of events: headings, emphasis and code become markup spans,
/// list items become indented bullet lines, and text is escaped.
pub fn events_to_pango(events: &Vec<StructuralEvent>) -> (r: String)
    ensures
        r@ == markup_of(events@).out,
{
    let mut out = String::new();
    let mut lists: usize = 0;
    proof {
        assert(events@.take(0) =~= Seq::<StructuralEvent>::empty());
    }
    let mut i: usize = 0;
    while i < events.len()
        invariant
            i <= events@.len(),
            lists <= i,
            markup_of(events@.take(i as int)) == (Markup { out: out@, lists: lists as nat }),
        decreases events@.len() - i,
    {
        proof {
            assert(events@.take(i as int + 1).drop_last() =~= events@.take(i as int));
        }
        let ghost before = out@;
        match &events[i] {
            StructuralEvent::Start(kind) => match kind {
                BlockKind::Heading(level) => {
                    if *level == 1 {
                        out.append("<span weight='bold' size='xx-large'>");
                    } else if *level == 2 {
                        out.append("<span weight='bold' size='x-large'>");
                    } else if *level == 3 {
                        out.append("<span weight='bold' size='large'>");
                    } else {
                        out.append("<span weight='bold' size='medium'>");
                    }
                },
                BlockKind::Paragraph => out.append("<span>"),
                BlockKind::Emphasis => out.append("<i>"),
                BlockKind::Strong => out.append("<b>"),
                BlockKind::Strikethrough => out.append("<s>"),
                BlockKind::CodeBlock(_) => out.append("<tt><span background='#f0f0f0'>"),
                BlockKind::List(_) => {
                    lists = lists + 1;
                },
                BlockKind::ListItem => {
                    out.append("\n");
                    push_indent(&mut out, lists);
                    out.append("\u{2022} ");
                    proof {
                        assert(out@ =~= before + "\n"@ + indent(lists as nat) + "\u{2022} "@);
                    }
                },
                _ => {},
            },
            StructuralEvent::End(kind) => match kind {
                BlockKind::Heading(_) => out.append("</span>\n\n"),
                BlockKind::Paragraph => out.append("</span>\n\n"),
                BlockKind::Emphasis => out.append("</i>"),
                BlockKind::Strong => out.append("</b>"),
                BlockKind::Strikethrough => out.append("</s>"),
                BlockKind::CodeBlock(_) => out.append("</span></tt>\n\n"),
                BlockKind::List(_) => {
                    if lists > 0 {
                        lists = lists - 1;
                    }
                    if lists == 0 {
                        out.append("\n");
                    }
                },
                _ => {},
            },
            StructuralEvent::Text(s) => {
                let escaped = escape_markup_text(s.as_str());
                out.append(escaped.as_str());
            },
            StructuralEvent::InlineCode(s) => {
                let escaped = escape_markup_text(s.as_str());
                out.append("<tt>");
                out.append(escaped.as_str());
                out.append("</tt>");
                proof {
                    assert(out@ =~= before + "<tt>"@ + escape_markup(s@) + "</tt>"@);
                }
            },
            StructuralEvent::SoftBreak => out.append(" "),
            StructuralEvent::HardBreak => out.append("\n"),
            _ => {},
        }
        i = i + 1;
    }
    proof {
        assert(events@.take(i as int) =~= events@);
    }
    out
}

/// Pango markup for a markdown text.
pub fn markdown_to_pango(input: &str) -> (r: String)
    ensures
        r@ == markup_of(events_of(input@, markup_extensions())).out,
{
    let events = tokenize(input, Extensions::for_markup());
    events_to_pango(&events)
}

} // verus!
