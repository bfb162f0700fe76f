use vstd::prelude::*;
use vstd::std_specs::iter::IteratorSpec;

use syntect::easy::HighlightLines;
use syntect::highlighting::ThemeSet;
use syntect::parsing::SyntaxSet;
use syntect::util::LinesWithEndings;

use crate::style::{code_line, code_line_style, Color};
use crate::tree::{
    children_text, lemma_children_text_push, lemma_leaf_text, lemma_models_push,
    lemma_spans_text_single, leaf_model, models_of, plain_span, span_views, spans_text, BlockModel,
    Role, Span, SpanView, StyledBlock,
};

verus! {

/// The bundled colour scheme used for code blocks.
pub const CODE_THEME: &'static str = "base16-ocean.dark";

/// The lines of highlighted spans that the bundled syntax and theme sets give for a text in
/// a language under a theme, or `None` where the theme or the language is not bundled or a
/// line does not parse.
pub uninterp spec fn highlight_of(
    theme_name: Seq<char>,
    language: Seq<char>,
    text: Seq<char>,
) -> Option<Seq<Seq<SpanView>>>;

pub open spec fn lines_view(lines: Seq<Vec<Span>>) -> Seq<Seq<SpanView>> {
    lines.map_values(|l: Vec<Span>| span_views(l@))
}

/// Relies on syntect: `SyntaxSet::load_defaults_newlines`, `ThemeSet::load_defaults`,
/// `SyntaxSet::find_syntax_by_token`, and `HighlightLines::new` and `highlight_line` over
/// `LinesWithEndings`, one list of coloured pieces per line. Both sets are compiled into the
/// crate, so the result depends on the three arguments alone.
#[verifier::external_body]
fn highlight_code(theme_name: &str, language: &str, text: &str) -> (r: Option<Vec<Vec<Span>>>)
    ensures
        highlighted_view(r) == highlight_of(theme_name@, language@, text@),
{
    let syntaxes = SyntaxSet::load_defaults_newlines();
    let theme = ThemeSet::load_defaults().themes.remove(theme_name)?;
    let syntax = syntaxes.find_syntax_by_token(language)?;
    let mut highlighter = HighlightLines::new(syntax, &theme);
    let mut lines = Vec::new();
    for line in LinesWithEndings::from(text) {
        let pieces = highlighter.highlight_line(line, &syntaxes).ok()?;
        lines.push(pieces.into_iter().map(|(style, piece)| {
            let c = style.foreground;
            Span { color: Some(Color { r: c.r, g: c.g, b: c.b, a: c.a }), text: piece.to_string() }
        }).collect());
    }
    Some(lines)
}

/// The text of all lines, concatenated.
pub open spec fn lines_text(lines: Seq<Seq<SpanView>>) -> Seq<char>
    decreases lines.len(),
{
    if lines.len() == 0 {
        Seq::empty()
    } else {
        lines_text(lines.drop_last()) + spans_text(lines.last())
    }
}

pub open spec fn line_leaves(lines: Seq<Seq<SpanView>>) -> Seq<BlockModel> {
    lines.map_values(|l: Seq<SpanView>| leaf_model(Role::CodeLine, code_line_style(), l))
}

/// The whole text as one leaf, unhighlighted.
pub open spec fn unhighlighted(text: Seq<char>) -> Seq<BlockModel> {
    seq![leaf_model(Role::CodeLine, code_line_style(), seq![plain_span(text)])]
}

/// How many characters the first line of a text takes, its line break included.
pub open spec fn first_line_len(t: Seq<char>) -> nat
    decreases t.len(),
{
    if t.len() == 0 {
        0
    } else if t[0] == '\n' {
        1
    } else {
        1 + first_line_len(t.drop_first())
    }
}

/// The lines of a text, each with its line break; the last one may have none. An empty text
/// has no lines.
pub open spec fn source_lines(t: Seq<char>) -> Seq<Seq<char>>
    decreases t.len(),
{
    if t.len() == 0 {
        Seq::empty()
    } else {
        let k = first_line_len(t);
        if 1 <= k <= t.len() {
            seq![t.take(k as int)] + source_lines(t.skip(k as int))
        } else {
            seq![t]
        }
    }
}

/// Line `i` of the highlighter's answer spells out line `i` of the text, and there are as
/// many of the one as of the other.
pub open spec fn lines_cover(lines: Seq<Seq<SpanView>>, text: Seq<char>) -> bool {
    &&& lines.len() == source_lines(text).len()
    &&& forall|i: int| 0 <= i < lines.len() ==> spans_text(#[trigger] lines[i]) == source_lines(text)[i]
}

/// The leaves for the text of a code block, given what the highlighter returned for it: where
/// its lines are the text's lines, leaf `i` holds the spans of line `i`; else the whole text
/// is one unhighlighted leaf.
pub open spec fn leaves_from(highlighted: Option<Seq<Seq<SpanView>>>, text: Seq<char>) -> Seq<
    BlockModel,
> {
    match highlighted {
        Some(lines) => if lines_cover(lines, text) {
            line_leaves(lines)
        } else {
            unhighlighted(text)
        },
        None => unhighlighted(text),
    }
}

/// The lines, concatenated.
pub open spec fn joined(ls: Seq<Seq<char>>) -> Seq<char>
    decreases ls.len(),
{
    if ls.len() == 0 {
        Seq::empty()
    } else {
        joined(ls.drop_last()) + ls.last()
    }
}

proof fn lemma_first_line_bounds(t: Seq<char>)
    requires
        t.len() > 0,
    ensures
        1 <= first_line_len(t) <= t.len(),
    decreases t.len(),
{
    if t[0] != '\n' {
        if t.len() > 1 {
            lemma_first_line_bounds(t.drop_first());
        } else {
            assert(first_line_len(t.drop_first()) == 0);
        }
    }
}

proof fn lemma_first_line_at_break(t: Seq<char>, j: int)
    requires
        0 <= j < t.len(),
        t[j] == '\n',
        forall|m: int| 0 <= m < j ==> t[m] != '\n',
    ensures
        first_line_len(t) == j + 1,
    decreases j,
{
    if j > 0 {
        assert(t[0] != '\n');
        let rest = t.drop_first();
        assert forall|m: int| 0 <= m < j - 1 implies rest[m] != '\n' by {
            assert(rest[m] == t[m + 1]);
        }
        lemma_first_line_at_break(rest, j - 1);
    }
}

proof fn lemma_first_line_unbroken(t: Seq<char>)
    requires
        forall|m: int| 0 <= m < t.len() ==> t[m] != '\n',
    ensures
        first_line_len(t) == t.len(),
    decreases t.len(),
{
    if t.len() > 0 {
        let rest = t.drop_first();
        assert forall|m: int| 0 <= m < rest.len() implies rest[m] != '\n' by {
            assert(rest[m] == t[m + 1]);
        }
        lemma_first_line_unbroken(rest);
    }
}

proof fn lemma_joined_prepend(a: Seq<char>, rest: Seq<Seq<char>>)
    ensures
        joined(seq![a] + rest) == a + joined(rest),
    decreases rest.len(),
{
    if rest.len() == 0 {
        assert(seq![a] + rest =~= seq![a]);
        assert(seq![a].drop_last() =~= Seq::<Seq<char>>::empty());
        assert(joined(Seq::<Seq<char>>::empty()) == Seq::<char>::empty());
        assert(joined(seq![a]) == joined(seq![a].drop_last()) + seq![a].last());
        assert(joined(rest) == Seq::<char>::empty());
        assert(Seq::<char>::empty() + a =~= a);
        assert(a + Seq::<char>::empty() =~= a);
    } else {
        lemma_joined_prepend(a, rest.drop_last());
        assert((seq![a] + rest).drop_last() =~= seq![a] + rest.drop_last());
        assert((seq![a] + rest).last() == rest.last());
        assert(joined(rest) == joined(rest.drop_last()) + rest.last());
        assert(a + joined(rest.drop_last()) + rest.last() =~= a + (joined(rest.drop_last())
            + rest.last()));
    }
}

/// The lines of a text, put back together, are the text.
pub proof fn lemma_source_lines_joined(t: Seq<char>)
    ensures
        joined(source_lines(t)) == t,
    decreases t.len(),
{
    if t.len() > 0 {
        lemma_first_line_bounds(t);
        let k = first_line_len(t) as int;
        lemma_source_lines_joined(t.skip(k));
        lemma_joined_prepend(t.take(k), source_lines(t.skip(k)));
        assert(t.take(k) + t.skip(k) =~= t);
    } else {
        assert(joined(Seq::<Seq<char>>::empty()) == Seq::<char>::empty());
    }
}

proof fn lemma_lines_text_pointwise(lines: Seq<Seq<SpanView>>, ls: Seq<Seq<char>>)
    requires
        lines.len() == ls.len(),
        forall|i: int| 0 <= i < lines.len() ==> spans_text(#[trigger] lines[i]) == ls[i],
    ensures
        lines_text(lines) == joined(ls),
    decreases lines.len(),
{
    if lines.len() > 0 {
        let a = lines.drop_last();
        let b = ls.drop_last();
        assert forall|i: int| 0 <= i < a.len() implies spans_text(#[trigger] a[i]) == b[i] by {
            assert(a[i] == lines[i]);
        }
        lemma_lines_text_pointwise(a, b);
        assert(spans_text(lines[lines.len() - 1]) == ls[ls.len() - 1]);
    }
}

/// The leaves for the text of a code block in a language.
pub open spec fn code_leaves(language: Seq<char>, text: Seq<char>) -> Seq<BlockModel> {
    leaves_from(highlight_of(CODE_THEME@, language, text), text)
}

pub open spec fn highlighted_view(highlighted: Option<Vec<Vec<Span>>>) -> Option<Seq<Seq<SpanView>>> {
    match highlighted {
        Some(lines) => Some(lines_view(lines@)),
        None => None,
    }
}

pub proof fn lemma_line_leaves_text(lines: Seq<Seq<SpanView>>)
    ensures
        children_text(line_leaves(lines)) == lines_text(lines),
    decreases lines.len(),
{
    if lines.len() > 0 {
        let init = lines.drop_last();
        lemma_line_leaves_text(init);
        assert(line_leaves(lines) =~= line_leaves(init).push(
            leaf_model(Role::CodeLine, code_line_style(), lines.last()),
        ));
        lemma_children_text_push(
            line_leaves(init),
            leaf_model(Role::CodeLine, code_line_style(), lines.last()),
        );
        lemma_leaf_text(Role::CodeLine, code_line_style(), lines.last());
    } else {
        assert(line_leaves(lines) =~= Seq::<BlockModel>::empty());
    }
}

/// The leaves of a code block show exactly its text.
pub proof fn lemma_code_leaves_text(language: Seq<char>, text: Seq<char>)
    ensures
        children_text(code_leaves(language, text)) == text,
{
    let single = leaf_model(Role::CodeLine, code_line_style(), seq![plain_span(text)]);
    lemma_children_text_push(Seq::<BlockModel>::empty(), single);
    assert(Seq::<BlockModel>::empty().push(single) =~= unhighlighted(text));
    lemma_leaf_text(Role::CodeLine, code_line_style(), seq![plain_span(text)]);
    lemma_spans_text_single(plain_span(text));
    assert(Seq::<char>::empty() + text =~= text);
    match highlight_of(CODE_THEME@, language, text) {
        Some(lines) => {
            lemma_line_leaves_text(lines);
            if lines_cover(lines, text) {
                lemma_lines_text_pointwise(lines, source_lines(text));
                lemma_source_lines_joined(text);
            }
        },
        None => {},
    }
}

/// A copy of the spans.
fn copy_spans(spans: &Vec<Span>) -> (r: Vec<Span>)
    ensures
        r@ == spans@,
{
    let mut r: Vec<Span> = Vec::new();
    let mut i: usize = 0;
    while i < spans.len()
        invariant
            i <= spans@.len(),
            r@ == spans@.take(i as int),
        decreases spans@.len() - i,
    {
        r.push(Span { color: spans[i].color, text: spans[i].text.clone() });
        proof {
            assert(spans@.take(i as int + 1) =~= spans@.take(i as int).push(spans@[i as int]));
        }
        i = i + 1;
    }
    assert(spans@.take(i as int) =~= spans@);
    r
}

/// The concatenated text of the spans.
fn join_spans(spans: &Vec<Span>) -> (r: String)
    ensures
        r@ == spans_text(span_views(spans@)),
{
    let ghost v = span_views(spans@);
    let mut out = String::new();
    let mut j: usize = 0;
    while j < spans.len()
        invariant
            j <= spans@.len(),
            v == span_views(spans@),
            out@ == spans_text(v.take(j as int)),
        decreases spans@.len() - j,
    {
        proof {
            assert(v.take(j as int + 1).drop_last() =~= v.take(j as int));
        }
        out.append(spans[j].text.as_str());
        j = j + 1;
    }
    assert(v.take(j as int) =~= v);
    out
}

pub open spec fn texts_view(s: Seq<String>) -> Seq<Seq<char>> {
    s.map_values(|x: String| x@)
}

/// The lines of a text, each with its line break.
pub fn split_lines(text: &str) -> (r: Vec<String>)
    ensures
        texts_view(r@) == source_lines(text@),
{
    broadcast use vstd::string::group_string_axioms;

    let n = text.unicode_len();
    let mut chars = text.chars();
    let mut lines: Vec<String> = Vec::new();
    let mut start: usize = 0;
    let mut i: usize = 0;
    proof {
        assert(text@.skip(0) =~= text@);
        assert(texts_view(lines@) + source_lines(text@) =~= source_lines(text@));
    }
    while i < n
        invariant
            n == text@.len(),
            start <= i <= n,
            chars.remaining() == text@.skip(i as int),
            chars.obeys_prophetic_iter_laws(),
            forall|m: int| start <= m < i ==> text@[m] != '\n',
            texts_view(lines@) + source_lines(text@.skip(start as int)) == source_lines(text@),
        decreases n - i,
    {
        let c = chars.next().unwrap();
        proof {
            assert(c == text@[i as int]);
            assert(text@.skip(i as int).drop_first() =~= text@.skip(i as int + 1));
        }
        if c == '\n' {
            let ghost t = text@.skip(start as int);
            proof {
                let j = i - start;
                assert forall|m: int| 0 <= m < j implies t[m] != '\n' by {
                    assert(t[m] == text@[start + m]);
                }
                assert(t[j as int] == text@[i as int]);
                lemma_first_line_at_break(t, j as int);
                assert(t.take(j + 1) =~= text@.subrange(start as int, i + 1));
                assert(t.skip(j + 1) =~= text@.skip(i + 1));
            }
            let line = text.substring_char(start, i + 1).to_string();
            let ghost before = lines@;
            lines.push(line);
            proof {
                assert(texts_view(lines@) =~= texts_view(before).push(line@));
                assert(source_lines(t) == seq![t.take((i - start) + 1)] + source_lines(
                    t.skip((i - start) + 1),
                ));
                assert(texts_view(lines@) + source_lines(text@.skip(i + 1)) =~= texts_view(before)
                    + source_lines(t));
            }
            start = i + 1;
        }
        i = i + 1;
    }
    if start < n {
        let ghost t = text@.skip(start as int);
        proof {
            assert forall|m: int| 0 <= m < t.len() implies t[m] != '\n' by {
                assert(t[m] == text@[start + m]);
            }
            lemma_first_line_unbroken(t);
            assert(t.take(t.len() as int) =~= t);
            assert(t.skip(t.len() as int) =~= Seq::<char>::empty());
            assert(source_lines(Seq::<char>::empty()) == Seq::<Seq<char>>::empty());
            assert(t =~= text@.subrange(start as int, n as int));
        }
        let line = text.substring_char(start, n).to_string();
        let ghost before = lines@;
        lines.push(line);
        proof {
            assert(source_lines(t) == seq![t] + Seq::<Seq<char>>::empty());
            assert(texts_view(lines@) =~= texts_view(before) + source_lines(t));
        }
    } else {
        proof {
            assert(text@.skip(start as int) =~= Seq::<char>::empty());
            assert(source_lines(Seq::<char>::empty()) == Seq::<Seq<char>>::empty());
            assert(texts_view(lines@) + Seq::<Seq<char>>::empty() =~= texts_view(lines@));
        }
    }
    lines
}

/// Whether each highlighted line spells out the matching line of the text.
fn lines_match(lines: &Vec<Vec<Span>>, split: &Vec<String>) -> (r: bool)
    ensures
        r == (lines_view(lines@).len() == texts_view(split@).len() && forall|i: int|
            0 <= i < lines_view(lines@).len() ==> spans_text(#[trigger] lines_view(lines@)[i])
                == texts_view(split@)[i]),
{
    let ghost lv = lines_view(lines@);
    let ghost sv = texts_view(split@);
    if lines.len() != split.len() {
        return false;
    }
    let mut i: usize = 0;
    while i < lines.len()
        invariant
            lines@.len() == split@.len(),
            i <= lines@.len(),
            lv == lines_view(lines@),
            sv == texts_view(split@),
            forall|k: int| 0 <= k < i ==> spans_text(#[trigger] lv[k]) == sv[k],
        decreases lines@.len() - i,
    {
        let text = join_spans(&lines[i]);
        if text != split[i] {
            proof {
                assert(spans_text(lv[i as int]) != sv[i as int]);
            }
            return false;
        }
        i = i + 1;
    }
    true
}

/// One leaf per line, in order.
fn leaves_of_lines(lines: &Vec<Vec<Span>>) -> (r: Vec<StyledBlock>)
    ensures
        models_of(r@) == line_leaves(lines_view(lines@)),
{
    let ghost all = lines_view(lines@);
    let mut r: Vec<StyledBlock> = Vec::new();
    let mut i: usize = 0;
    while i < lines.len()
        invariant
            i <= lines@.len(),
            all == lines_view(lines@),
            models_of(r@) == line_leaves(all.take(i as int)),
        decreases lines@.len() - i,
    {
        let spans = copy_spans(&lines[i]);
        let leaf = StyledBlock::leaf(Role::CodeLine, code_line(), spans);
        proof {
            lemma_models_push(r@, leaf);
            assert(line_leaves(all.take(i as int + 1)) =~= line_leaves(all.take(i as int)).push(
                leaf@,
            ));
        }
        r.push(leaf);
        i = i + 1;
    }
    assert(all.take(i as int) =~= all);
    r
}

fn unhighlighted_leaf(text: &String) -> (r: Vec<StyledBlock>)
    ensures
        models_of(r@) == unhighlighted(text@),
{
    let leaf = StyledBlock::single_span(Role::CodeLine, code_line(), text.clone());
    let r = vec![leaf];
    proof {
        lemma_models_push(Seq::empty(), leaf);
        assert(r@ =~= Seq::<StyledBlock>::empty().push(leaf));
        assert(unhighlighted(text@) =~= Seq::<BlockModel>::empty().push(leaf@));
    }
    r
}

/// The leaves for the text of a code block, given what the highlighter returned for it.
pub fn leaves_from_highlight(highlighted: Option<Vec<Vec<Span>>>, text: &String) -> (r: Vec<
    StyledBlock,
>)
    ensures
        models_of(r@) == leaves_from(highlighted_view(highlighted), text@),
{
    match highlighted {
        Some(lines) => {
            let split = split_lines(text.as_str());
            if lines_match(&lines, &split) {
                leaves_of_lines(&lines)
            } else {
                unhighlighted_leaf(text)
            }
        },
        None => unhighlighted_leaf(text),
    }
}

/// The leaves for the text of a code block in a language: highlighted line by line, or the
/// whole text as one unhighlighted leaf where highlighting is not to be had.
pub fn highlight_block(language: &str, text: &String) -> (r: Vec<StyledBlock>)
    ensures
        models_of(r@) == code_leaves(language@, text@),
{
    leaves_from_highlight(highlight_code(CODE_THEME, language, text.as_str()), text)
}

} // verus!
