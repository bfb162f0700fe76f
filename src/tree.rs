use vstd::prelude::*;

use crate::event::BlockKind;
use crate::style::{Color, VisualAttributes};

verus! {

/// A run of text in one colour; `None` leaves the colour to the surrounding style.
#[derive(Clone, Debug, PartialEq, Eq)]
pub struct Span {
    pub color: Option<Color>,
    pub text: String,
}

pub struct SpanView {
    pub color: Option<Color>,
    pub text: Seq<char>,
}

impl View for Span {
    type V = SpanView;

    open spec fn view(&self) -> SpanView {
        SpanView { color: self.color, text: self.text@ }
    }
}

/// The glyph information of a list item: how many lists enclose it, and its number in
/// an ordered list.
#[derive(Clone, Copy, Debug, PartialEq, Eq, Structural)]
pub struct ListMarker {
    pub depth: usize,
    pub number: Option<usize>,
}

/// What a node of the rendered tree stands for.
#[derive(Clone, Debug, PartialEq, Eq)]
pub enum Role {
    /// The container that holds the whole document.
    Root,
    /// A structural element.
    Block(BlockKind),
    /// Plain text.
    Text,
    /// A code span, kept as one unit.
    InlineCode,
    /// The text of a code block: one highlighted line, or the whole text unhighlighted.
    CodeLine,
    /// A soft line break, shown as a space.
    SoftBreak,
    /// An explicit line break.
    HardBreak,
    /// A horizontal rule.
    Rule,
}

/// A node of the rendered tree. Structural nodes have children; leaves carry spans.
#[derive(Debug, PartialEq, Eq)]
pub struct StyledBlock {
    pub role: Role,
    pub attrs: VisualAttributes,
    pub children: Vec<StyledBlock>,
    pub spans: Vec<Span>,
    pub marker: Option<ListMarker>,
}

/// The mathematical value of a `StyledBlock`.
pub struct BlockModel {
    pub role: Role,
    pub attrs: VisualAttributes,
    pub children: Seq<BlockModel>,
    pub spans: Seq<SpanView>,
    pub marker: Option<ListMarker>,
}

impl View for StyledBlock {
    type V = BlockModel;

    open spec fn view(&self) -> BlockModel
        decreases self,
    {
        BlockModel {
            role: self.role,
            attrs: self.attrs,
            children: models_of(self.children@),
            spans: span_views(self.spans@),
            marker: self.marker,
        }
    }
}

/// The models of a sequence of nodes, in order.
pub open spec fn models_of(s: Seq<StyledBlock>) -> Seq<BlockModel>
    decreases s,
{
    if s.len() == 0 {
        Seq::empty()
    } else {
        models_of(s.drop_last()).push(s.last().view())
    }
}

pub open spec fn span_views(s: Seq<Span>) -> Seq<SpanView> {
    s.map_values(|x: Span| x@)
}

/// The text of a sequence of spans, concatenated.
pub open spec fn spans_text(s: Seq<SpanView>) -> Seq<char>
    decreases s.len(),
{
    if s.len() == 0 {
        Seq::empty()
    } else {
        spans_text(s.drop_last()) + s.last().text
    }
}

/// All the text that a node shows: its own spans, then its children's text in order.
pub open spec fn text_of(b: BlockModel) -> Seq<char>
    decreases b,
{
    spans_text(b.spans) + children_text(b.children)
}

pub open spec fn children_text(s: Seq<BlockModel>) -> Seq<char>
    decreases s,
{
    if s.len() == 0 {
        Seq::empty()
    } else {
        children_text(s.drop_last()) + text_of(s.last())
    }
}

/// Whether a role is that of a leaf: anything but the root and the structural elements.
pub open spec fn is_leaf(role: Role) -> bool {
    !(role is Root || role is Block)
}

/// The shape of a rendered tree: leaves have no children, structural nodes have no spans of
/// their own, a code block holds leaves only, and so on all the way down.
pub open spec fn well_shaped(b: BlockModel) -> bool
    decreases b,
{
    &&& is_leaf(b.role) ==> b.children.len() == 0
    &&& !is_leaf(b.role) ==> b.spans.len() == 0
    &&& b.role matches Role::Block(BlockKind::CodeBlock(_)) ==> forall|i: int|
        0 <= i < b.children.len() ==> is_leaf(#[trigger] b.children[i].role)
    &&& forall|i: int| 0 <= i < b.children.len() ==> well_shaped(#[trigger] b.children[i])
}

/// A leaf with the given role, look and spans.
pub open spec fn leaf_model(role: Role, attrs: VisualAttributes, spans: Seq<SpanView>) -> BlockModel {
    BlockModel { role, attrs, children: Seq::empty(), spans, marker: None }
}

/// One span with no colour of its own.
pub open spec fn plain_span(text: Seq<char>) -> SpanView {
    SpanView { color: None, text }
}

pub proof fn lemma_models_len(s: Seq<StyledBlock>)
    ensures
        models_of(s).len() == s.len(),
    decreases s.len(),
{
    if s.len() > 0 {
        lemma_models_len(s.drop_last());
        assert(models_of(s) == models_of(s.drop_last()).push(s.last().view()));
    } else {
        assert(models_of(s) == Seq::<BlockModel>::empty());
    }
}

pub proof fn lemma_models_push(s: Seq<StyledBlock>, x: StyledBlock)
    ensures
        models_of(s.push(x)) == models_of(s).push(x@),
{
    assert(s.push(x).drop_last() =~= s);
}

pub proof fn lemma_models_concat(a: Seq<StyledBlock>, b: Seq<StyledBlock>)
    ensures
        models_of(a + b) == models_of(a) + models_of(b),
    decreases b.len(),
{
    if b.len() == 0 {
        assert(a + b =~= a);
        assert(models_of(a) + models_of(b) =~= models_of(a));
    } else {
        lemma_models_concat(a, b.drop_last());
        assert((a + b).drop_last() =~= a + b.drop_last());
        assert(models_of(a) + models_of(b) =~= (models_of(a) + models_of(b.drop_last())).push(
            b.last()@,
        ));
    }
}

pub proof fn lemma_spans_text_single(s: SpanView)
    ensures
        spans_text(seq![s]) == s.text,
{
    let e = Seq::<SpanView>::empty();
    assert(spans_text(e) == Seq::<char>::empty());
    assert(seq![s].len() == 1);
    assert(seq![s].drop_last() =~= e);
    assert(seq![s].last() == s);
    assert(spans_text(seq![s]) == spans_text(seq![s].drop_last()) + s.text);
    assert(Seq::<char>::empty() + s.text =~= s.text);
}

pub proof fn lemma_children_text_push(s: Seq<BlockModel>, x: BlockModel)
    ensures
        children_text(s.push(x)) == children_text(s) + text_of(x),
{
    assert(s.push(x).drop_last() =~= s);
}

pub proof fn lemma_children_text_concat(a: Seq<BlockModel>, b: Seq<BlockModel>)
    ensures
        children_text(a + b) == children_text(a) + children_text(b),
    decreases b.len(),
{
    if b.len() == 0 {
        assert(a + b =~= a);
        assert(children_text(a) + children_text(b) =~= children_text(a));
    } else {
        lemma_children_text_concat(a, b.drop_last());
        assert((a + b).drop_last() =~= a + b.drop_last());
        assert(children_text(a) + children_text(b) =~= children_text(a) + children_text(
            b.drop_last(),
        ) + text_of(b.last()));
    }
}

/// A leaf shows exactly the text of its spans.
pub proof fn lemma_leaf_text(role: Role, attrs: VisualAttributes, spans: Seq<SpanView>)
    ensures
        text_of(leaf_model(role, attrs, spans)) == spans_text(spans),
{
    assert(spans_text(spans) + Seq::<char>::empty() =~= spans_text(spans));
}

impl StyledBlock {
    /// A leaf node.
    pub fn leaf(role: Role, attrs: VisualAttributes, spans: Vec<Span>) -> (r: StyledBlock)
        ensures
            r@ == leaf_model(role, attrs, span_views(spans@)),
    {
        let r = StyledBlock { role, attrs, children: Vec::new(), spans, marker: None };
        assert(r@.children =~= Seq::<BlockModel>::empty());
        r
    }

    /// A leaf without text.
    pub fn bare(role: Role, attrs: VisualAttributes) -> (r: StyledBlock)
        ensures
            r@ == leaf_model(role, attrs, Seq::empty()),
    {
        let r = StyledBlock::leaf(role, attrs, Vec::new());
        assert(r@.spans =~= Seq::<SpanView>::empty());
        r
    }

    /// A leaf with a single span of the text, in no colour of its own.
    pub fn single_span(role: Role, attrs: VisualAttributes, text: String) -> (r: StyledBlock)
        ensures
            r@ == leaf_model(role, attrs, seq![plain_span(text@)]),
    {
        let ghost t = text@;
        let spans = vec![Span { color: None, text }];
        proof {
            assert(span_views(spans@) =~= seq![plain_span(t)]);
        }
        StyledBlock::leaf(role, attrs, spans)
    }

    /// All the text that the node shows, its own spans first, then its children's in order.
    pub fn text(&self) -> (r: String)
        ensures
            r@ == text_of(self@),
        decreases self,
    {
        let mut out = String::new();
        let mut i: usize = 0;
        while i < self.spans.len()
            invariant
                i <= self.spans@.len(),
                out@ == spans_text(span_views(self.spans@).take(i as int)),
            decreases self.spans@.len() - i,
        {
            proof {
                let v = span_views(self.spans@);
                assert(v.take(i as int + 1).drop_last() =~= v.take(i as int));
            }
            out.append(self.spans[i].text.as_str());
            i = i + 1;
        }
        proof {
            assert(span_views(self.spans@).take(i as int) =~= span_views(self.spans@));
        }
        let ghost spans_part = out@;
        let mut j: usize = 0;
        while j < self.children.len()
            invariant
                j <= self.children@.len(),
                out@ == spans_part + children_text(models_of(self.children@).take(j as int)),
            decreases self.children@.len() - j,
        {
            proof {
                lemma_models_len(self.children@);
                let m = models_of(self.children@);
                assert(m.take(j as int + 1).drop_last() =~= m.take(j as int));
                lemma_models_index(self.children@, j as int);
            }
            let child_text = self.children[j].text();
            out.append(child_text.as_str());
            j = j + 1;
        }
        proof {
            lemma_models_len(self.children@);
            assert(models_of(self.children@).take(j as int) =~= models_of(self.children@));
        }
        out
    }
}

pub proof fn lemma_models_index(s: Seq<StyledBlock>, i: int)
    requires
        0 <= i < s.len(),
    ensures
        models_of(s)[i] == s[i]@,
    decreases s.len(),
{
    lemma_models_len(s);
    lemma_models_len(s.drop_last());
    assert(models_of(s) == models_of(s.drop_last()).push(s.last().view()));
    if i < s.len() - 1 {
        lemma_models_index(s.drop_last(), i);
    }
}

} // verus!
