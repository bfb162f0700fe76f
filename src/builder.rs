use vstd::prelude::*;

use crate::event::{same_category, BlockKind, StructuralEvent};
use crate::highlight::{
    code_leaves, highlight_block, highlight_of, leaves_from, lemma_code_leaves_text, line_leaves,
    CODE_THEME,
};
use crate::style::{
    inline_code, inline_code_style, kind_style, plain, plain_style, resolve, rule, rule_style,
    code_line_style, Theme, VisualAttributes,
};
use crate::tree::{
    children_text, leaf_model, lemma_children_text_concat, lemma_children_text_push,
    lemma_leaf_text, lemma_models_concat, lemma_models_push, lemma_spans_text_single, models_of,
    plain_span, spans_text, text_of, is_leaf, well_shaped, BlockModel, ListMarker, Role, SpanView,
    StyledBlock,
};

verus! {

/// A node that is still open while the tree is built, with the number that its next list
/// item gets when it is a list.
pub struct OpenBlock {
    pub node: BlockModel,
    pub counter: usize,
}

/// The empty container at the bottom of the stack.
pub open spec fn root_node() -> BlockModel {
    BlockModel {
        role: Role::Root,
        attrs: plain_style(),
        children: Seq::empty(),
        spans: Seq::empty(),
        marker: None,
    }
}

pub open spec fn initial_stack() -> Seq<OpenBlock> {
    seq![OpenBlock { node: root_node(), counter: 1 }]
}

/// The stack with `cs` appended to the children of its top node.
pub open spec fn add_children(st: Seq<OpenBlock>, cs: Seq<BlockModel>) -> Seq<OpenBlock> {
    let top = st.last();
    st.update(
        st.len() - 1,
        OpenBlock { node: BlockModel { children: top.node.children + cs, ..top.node }, ..top },
    )
}

pub open spec fn is_list(role: Role) -> bool {
    role matches Role::Block(BlockKind::List(_))
}

pub open spec fn is_code_block(role: Role) -> bool {
    role matches Role::Block(BlockKind::CodeBlock(_))
}

/// How many lists are open on the stack.
pub open spec fn list_depth(st: Seq<OpenBlock>) -> nat
    decreases st.len(),
{
    if st.len() == 0 {
        0
    } else {
        list_depth(st.drop_last()) + if is_list(st.last().node.role) {
            1nat
        } else {
            0nat
        }
    }
}

/// The marker of a list item opened on this stack: its depth among the open lists, and the
/// running number of the list directly around it when that list is ordered.
pub open spec fn item_marker(st: Seq<OpenBlock>) -> ListMarker {
    ListMarker {
        depth: list_depth(st) as usize,
        number: if st.last().node.role == Role::Block(BlockKind::List(true)) {
            Some(st.last().counter)
        } else {
            None
        },
    }
}

/// A `Start`: a new open node on top, unless a code block is open, which holds leaves only.
pub open spec fn opened(st: Seq<OpenBlock>, kind: BlockKind, theme: Theme) -> Seq<OpenBlock> {
    if is_code_block(st.last().node.role) {
        st
    } else {
        st.push(
            OpenBlock {
                node: BlockModel {
                    role: Role::Block(kind),
                    attrs: kind_style(kind, theme),
                    children: Seq::empty(),
                    spans: Seq::empty(),
                    marker: if kind == BlockKind::ListItem {
                        Some(item_marker(st))
                    } else {
                        None
                    },
                },
                counter: 1,
            },
        )
    }
}

pub open spec fn next_count(c: usize) -> usize {
    if c < usize::MAX {
        (c + 1) as usize
    } else {
        c
    }
}

/// Whether an `End` of this kind closes the top of the stack: the top is not the root and is
/// of the same category.
pub open spec fn closes_top(st: Seq<OpenBlock>, kind: BlockKind) -> bool {
    st.len() > 1 && (st.last().node.role matches Role::Block(k) && same_category(k, kind))
}

/// An `End`: the top node leaves the stack and becomes the last child of the node below it;
/// a list counts each item that closes directly inside it. An `End` that does not close the
/// top is ignored.
pub open spec fn closed(st: Seq<OpenBlock>, kind: BlockKind) -> Seq<OpenBlock> {
    if closes_top(st, kind) {
        let done = st.last();
        let rest = st.drop_last();
        let parent = rest.last();
        let counter = if done.node.role == Role::Block(BlockKind::ListItem) && is_list(
            parent.node.role,
        ) {
            next_count(parent.counter)
        } else {
            parent.counter
        };
        rest.update(
            rest.len() - 1,
            OpenBlock {
                node: BlockModel { children: parent.node.children.push(done.node), ..parent.node },
                counter,
            },
        )
    } else {
        st
    }
}

pub open spec fn text_leaf(text: Seq<char>) -> BlockModel {
    leaf_model(Role::Text, plain_style(), seq![plain_span(text)])
}

/// The leaves for a text: highlighted code inside a code block with a language, else plain text.
pub open spec fn text_leaves(st: Seq<OpenBlock>, text: Seq<char>) -> Seq<BlockModel> {
    match st.last().node.role {
        Role::Block(BlockKind::CodeBlock(Some(language))) => code_leaves(language@, text),
        _ => seq![text_leaf(text)],
    }
}

/// The stack after one event.
pub open spec fn step(st: Seq<OpenBlock>, event: StructuralEvent, theme: Theme) -> Seq<OpenBlock> {
    match event {
        StructuralEvent::Start(kind) => opened(st, kind, theme),
        StructuralEvent::End(kind) => closed(st, kind),
        StructuralEvent::Text(s) => add_children(st, text_leaves(st, s@)),
        StructuralEvent::InlineCode(s) => add_children(
            st,
            seq![leaf_model(Role::InlineCode, inline_code_style(theme), seq![plain_span(s@)])],
        ),
        StructuralEvent::SoftBreak => add_children(
            st,
            seq![leaf_model(Role::SoftBreak, plain_style(), Seq::empty())],
        ),
        StructuralEvent::HardBreak => add_children(
            st,
            seq![leaf_model(Role::HardBreak, plain_style(), Seq::empty())],
        ),
        StructuralEvent::Rule => add_children(
            st,
            seq![leaf_model(Role::Rule, rule_style(theme), Seq::empty())],
        ),
        StructuralEvent::Other => st,
    }
}

/// The stack after all the events, starting from the root alone.
pub open spec fn run(events: Seq<StructuralEvent>, theme: Theme) -> Seq<OpenBlock>
    decreases events.len(),
{
    if events.len() == 0 {
        initial_stack()
    } else {
        step(run(events.drop_last(), theme), events.last(), theme)
    }
}

/// Closes whatever is still open, top first, and gives the root.
pub open spec fn close_all(st: Seq<OpenBlock>) -> BlockModel
    decreases st.len(),
{
    if st.len() <= 1 {
        st[0].node
    } else {
        close_all(add_children(st.drop_last(), seq![st.last().node]))
    }
}

/// The tree that the events describe.
pub open spec fn tree_of(events: Seq<StructuralEvent>, theme: Theme) -> BlockModel {
    close_all(run(events, theme))
}

struct Frame {
    node: StyledBlock,
    counter: usize,
}

spec fn frame_model(f: Frame) -> OpenBlock {
    OpenBlock { node: f.node@, counter: f.counter }
}

spec fn stack_model(s: Seq<Frame>) -> Seq<OpenBlock> {
    s.map_values(|f: Frame| frame_model(f))
}

/// Appends `leaves` to the children of the top node.
fn push_children(stack: &mut Vec<Frame>, leaves: Vec<StyledBlock>)
    requires
        old(stack)@.len() > 0,
    ensures
        stack_model(final(stack)@) == add_children(stack_model(old(stack)@), models_of(leaves@)),
        final(stack)@.len() == old(stack)@.len(),
{
    let mut leaves = leaves;
    let ghost added = leaves@;
    let mut top = stack.pop().unwrap();
    let ghost before = top.node.children@;
    top.node.children.append(&mut leaves);
    proof {
        lemma_models_concat(before, added);
    }
    stack.push(top);
    proof {
        let m = stack_model(old(stack)@);
        assert(stack_model(stack@) =~= add_children(m, models_of(added)));
    }
}

/// Counts the open lists.
fn count_lists(stack: &Vec<Frame>) -> (d: usize)
    ensures
        d as nat == list_depth(stack_model(stack@)),
{
    let ghost m = stack_model(stack@);
    let mut d: usize = 0;
    let mut k: usize = 0;
    while k < stack.len()
        invariant
            k <= stack@.len(),
            m == stack_model(stack@),
            d <= k,
            d as nat == list_depth(m.take(k as int)),
        decreases stack@.len() - k,
    {
        let listy = match &stack[k].node.role {
            Role::Block(BlockKind::List(_)) => true,
            _ => false,
        };
        proof {
            assert(m.take(k as int + 1).drop_last() =~= m.take(k as int));
        }
        if listy {
            d = d + 1;
        }
        k = k + 1;
    }
    assert(m.take(k as int) =~= m);
    d
}

fn open_block(stack: &mut Vec<Frame>, kind: BlockKind, theme: &Theme)
    requires
        old(stack)@.len() > 0,
    ensures
        stack_model(final(stack)@) == opened(stack_model(old(stack)@), kind, *theme),
        final(stack)@.len() > 0,
{
    let ghost m = stack_model(stack@);
    let last = stack.len() - 1;
    let in_code = match &stack[last].node.role {
        Role::Block(BlockKind::CodeBlock(_)) => true,
        _ => false,
    };
    if in_code {
        return ;
    }
    let marker = if matches!(kind, BlockKind::ListItem) {
        let depth = count_lists(stack);
        let number = match &stack[last].node.role {
            Role::Block(BlockKind::List(true)) => Some(stack[last].counter),
            _ => None,
        };
        Some(ListMarker { depth, number })
    } else {
        None
    };
    proof {
        assert(m.last() == frame_model(stack@[last as int]));
    }
    let attrs = resolve(&kind, theme);
    let node = StyledBlock {
        role: Role::Block(kind),
        attrs,
        children: Vec::new(),
        spans: Vec::new(),
        marker,
    };
    proof {
        assert(node@.children =~= Seq::<BlockModel>::empty());
        assert(node@.spans =~= Seq::<SpanView>::empty());
    }
    let frame = Frame { node, counter: 1 };
    stack.push(frame);
    proof {
        assert(stack_model(stack@) =~= m.push(frame_model(frame)));
        assert(stack_model(stack@) =~= opened(m, kind, *theme));
    }
}

fn close_block(stack: &mut Vec<Frame>, kind: &BlockKind)
    requires
        old(stack)@.len() > 0,
    ensures
        stack_model(final(stack)@) == closed(stack_model(old(stack)@), *kind),
        final(stack)@.len() > 0,
{
    let ghost m = stack_model(stack@);
    if stack.len() <= 1 {
        return ;
    }
    let last = stack.len() - 1;
    let same = match &stack[last].node.role {
        Role::Block(k) => k.same_category_as(kind),
        _ => false,
    };
    if !same {
        return ;
    }
    let done = stack.pop().unwrap();
    let mut parent = stack.pop().unwrap();
    let item = matches!(done.node.role, Role::Block(BlockKind::ListItem));
    let list = matches!(parent.node.role, Role::Block(BlockKind::List(_)));
    if item && list {
        parent.counter = parent.counter.saturating_add(1);
    }
    let ghost before = parent.node.children@;
    let ghost done_model = done.node@;
    parent.node.children.push(done.node);
    proof {
        lemma_models_push(before, done.node);
    }
    stack.push(parent);
    proof {
        assert(stack_model(stack@) =~= closed(m, *kind));
    }
}

fn apply(stack: &mut Vec<Frame>, event: &StructuralEvent, theme: &Theme)
    requires
        old(stack)@.len() > 0,
    ensures
        stack_model(final(stack)@) == step(stack_model(old(stack)@), *event, *theme),
        final(stack)@.len() > 0,
{
    match event {
        StructuralEvent::Start(kind) => {
            open_block(stack, kind.duplicate(), theme);
        },
        StructuralEvent::End(kind) => {
            close_block(stack, kind);
        },
        StructuralEvent::Text(s) => {
            let last = stack.len() - 1;
            let leaves = match &stack[last].node.role {
                Role::Block(BlockKind::CodeBlock(Some(language))) => highlight_block(
                    language.as_str(),
                    s,
                ),
                _ => {
                    let leaf = StyledBlock::single_span(Role::Text, plain(), s.clone());
                    proof {
                        lemma_models_push(Seq::empty(), leaf);
                    }
                    let v = vec![leaf];
                    proof {
                        assert(v@ =~= Seq::<StyledBlock>::empty().push(leaf));
                    }
                    v
                },
            };
            push_children(stack, leaves);
        },
        StructuralEvent::InlineCode(s) => {
            let leaf = StyledBlock::single_span(Role::InlineCode, inline_code(theme), s.clone());
            push_leaf(stack, leaf);
        },
        StructuralEvent::SoftBreak => {
            push_leaf(stack, StyledBlock::bare(Role::SoftBreak, plain()));
        },
        StructuralEvent::HardBreak => {
            push_leaf(stack, StyledBlock::bare(Role::HardBreak, plain()));
        },
        StructuralEvent::Rule => {
            push_leaf(stack, StyledBlock::bare(Role::Rule, rule(theme)));
        },
        StructuralEvent::Other => {},
    }
}

fn push_leaf(stack: &mut Vec<Frame>, leaf: StyledBlock)
    requires
        old(stack)@.len() > 0,
    ensures
        stack_model(final(stack)@) == add_children(stack_model(old(stack)@), seq![leaf@]),
        final(stack)@.len() > 0,
{
    let ghost model = leaf@;
    let v = vec![leaf];
    proof {
        assert(v@ =~= Seq::<StyledBlock>::empty().push(leaf));
        lemma_models_push(Seq::empty(), leaf);
        assert(models_of(Seq::<StyledBlock>::empty()) =~= Seq::<BlockModel>::empty());
        assert(Seq::<BlockModel>::empty().push(model) =~= seq![model]);
    }
    push_children(stack, v);
}

proof fn lemma_run_prefix(events: Seq<StructuralEvent>, i: int, theme: Theme)
    requires
        0 <= i < events.len(),
    ensures
        run(events.take(i + 1), theme) == step(run(events.take(i), theme), events[i], theme),
{
    assert(events.take(i + 1).drop_last() =~= events.take(i));
}

/// Builds the tree of styled blocks for a sequence of events. Never fails: an `End` that does
/// not close the innermost open element is ignored, and elements still open at the end are
/// closed in order.
pub fn build(events: &Vec<StructuralEvent>, theme: &Theme) -> (r: StyledBlock)
    ensures
        r@ == tree_of(events@, *theme),
        r.role == Role::Root,
        well_shaped(r@),
{
    proof {
        lemma_tree_root(events@, *theme);
        lemma_tree_shaped(events@, *theme);
    }
    let root = StyledBlock {
        role: Role::Root,
        attrs: plain(),
        children: Vec::new(),
        spans: Vec::new(),
        marker: None,
    };
    proof {
        assert(root@.children =~= Seq::<BlockModel>::empty());
        assert(root@.spans =~= Seq::<SpanView>::empty());
    }
    proof {
        assert(root@ == root_node());
    }
    let mut stack: Vec<Frame> = Vec::new();
    stack.push(Frame { node: root, counter: 1 });
    proof {
        assert(stack_model(stack@)[0] == frame_model(stack@[0]));
        assert(stack_model(stack@) =~= initial_stack());
        assert(events@.take(0) =~= Seq::<StructuralEvent>::empty());
    }
    let mut i: usize = 0;
    while i < events.len()
        invariant
            i <= events@.len(),
            stack@.len() > 0,
            stack_model(stack@) == run(events@.take(i as int), *theme),
        decreases events@.len() - i,
    {
        proof {
            lemma_run_prefix(events@, i as int, *theme);
        }
        apply(&mut stack, &events[i], theme);
        i = i + 1;
    }
    proof {
        assert(events@.take(i as int) =~= events@);
    }
    while stack.len() > 1
        invariant
            stack@.len() > 0,
            close_all(stack_model(stack@)) == tree_of(events@, *theme),
        decreases stack@.len(),
    {
        let ghost before = stack_model(stack@);
        let done = stack.pop().unwrap();
        proof {
            assert(stack_model(stack@) =~= before.drop_last());
        }
        push_leaf(&mut stack, done.node);
    }
    let ghost last = stack_model(stack@);
    let root = stack.pop().unwrap();
    proof {
        assert(last[0] == frame_model(root));
    }
    root.node
}

/// The text that the events carry: the payloads of `Text` and `InlineCode`, in order.
pub open spec fn payload_text(events: Seq<StructuralEvent>) -> Seq<char>
    decreases events.len(),
{
    if events.len() == 0 {
        Seq::empty()
    } else {
        payload_text(events.drop_last()) + event_text(events.last())
    }
}

pub open spec fn event_text(event: StructuralEvent) -> Seq<char> {
    match event {
        StructuralEvent::Text(s) => s@,
        StructuralEvent::InlineCode(s) => s@,
        _ => Seq::empty(),
    }
}

/// The text of all open nodes, bottom first.
pub open spec fn stack_text(st: Seq<OpenBlock>) -> Seq<char>
    decreases st.len(),
{
    if st.len() == 0 {
        Seq::empty()
    } else {
        stack_text(st.drop_last()) + text_of(st.last().node)
    }
}

proof fn lemma_add_children_text(st: Seq<OpenBlock>, cs: Seq<BlockModel>)
    requires
        st.len() > 0,
    ensures
        stack_text(add_children(st, cs)) == stack_text(st) + children_text(cs),
        add_children(st, cs).len() == st.len(),
{
    let top = st.last();
    let after = add_children(st, cs);
    assert(after.drop_last() =~= st.drop_last());
    lemma_children_text_concat(top.node.children, cs);
    assert(text_of(after.last().node) == spans_text(top.node.spans) + children_text(
        top.node.children + cs,
    ));
    assert(text_of(after.last().node) =~= text_of(top.node) + children_text(cs));
    assert(stack_text(after) =~= stack_text(st) + children_text(cs));
}

proof fn lemma_single_leaf_text(role: Role, attrs: VisualAttributes, text: Seq<char>)
    ensures
        children_text(seq![leaf_model(role, attrs, seq![plain_span(text)])]) == text,
{
    let leaf = leaf_model(role, attrs, seq![plain_span(text)]);
    lemma_children_text_push(Seq::empty(), leaf);
    assert(Seq::<BlockModel>::empty().push(leaf) =~= seq![leaf]);
    lemma_leaf_text(role, attrs, seq![plain_span(text)]);
    lemma_spans_text_single(plain_span(text));
    assert(Seq::<char>::empty() + text =~= text);
}

proof fn lemma_bare_leaf_text(role: Role, attrs: VisualAttributes)
    ensures
        children_text(seq![leaf_model(role, attrs, Seq::empty())]) == Seq::<char>::empty(),
{
    let leaf = leaf_model(role, attrs, Seq::empty());
    lemma_children_text_push(Seq::empty(), leaf);
    assert(Seq::<BlockModel>::empty().push(leaf) =~= seq![leaf]);
    lemma_leaf_text(role, attrs, Seq::empty());
    assert(Seq::<char>::empty() + Seq::<char>::empty() =~= Seq::<char>::empty());
}

proof fn lemma_step_text(st: Seq<OpenBlock>, event: StructuralEvent, theme: Theme)
    requires
        st.len() > 0,
    ensures
        step(st, event, theme).len() > 0,
        stack_text(step(st, event, theme)) == stack_text(st) + event_text(event),
{
    let e = Seq::<char>::empty();
    assert(stack_text(st) + e =~= stack_text(st));
    match event {
        StructuralEvent::Start(kind) => {
            if !is_code_block(st.last().node.role) {
                let after = opened(st, kind, theme);
                assert(after.drop_last() =~= st);
                assert(text_of(after.last().node) == spans_text(Seq::<SpanView>::empty())
                    + children_text(Seq::<BlockModel>::empty()));
                assert(text_of(after.last().node) =~= e);
            }
        },
        StructuralEvent::End(kind) => {
            if closes_top(st, kind) {
                let done = st.last();
                let rest = st.drop_last();
                let parent = rest.last();
                let after = closed(st, kind);
                assert(after.drop_last() =~= rest.drop_last());
                lemma_children_text_push(parent.node.children, done.node);
                assert(text_of(after.last().node) =~= text_of(parent.node) + text_of(done.node));
                assert(stack_text(st) == stack_text(rest) + text_of(done.node));
                assert(stack_text(rest) == stack_text(rest.drop_last()) + text_of(parent.node));
                assert(stack_text(after) == stack_text(rest.drop_last()) + text_of(
                    after.last().node,
                ));
                assert(stack_text(after) =~= stack_text(st));
            }
        },
        StructuralEvent::Text(s) => {
            lemma_add_children_text(st, text_leaves(st, s@));
            match st.last().node.role {
                Role::Block(BlockKind::CodeBlock(Some(language))) => {
                    lemma_code_leaves_text(language@, s@);
                },
                _ => {
                    lemma_single_leaf_text(Role::Text, plain_style(), s@);
                },
            }
        },
        StructuralEvent::InlineCode(s) => {
            let cs = seq![leaf_model(Role::InlineCode, inline_code_style(theme), seq![plain_span(s@)])];
            lemma_add_children_text(st, cs);
            lemma_single_leaf_text(Role::InlineCode, inline_code_style(theme), s@);
        },
        StructuralEvent::SoftBreak => {
            lemma_add_children_text(st, seq![leaf_model(Role::SoftBreak, plain_style(), Seq::empty())]);
            lemma_bare_leaf_text(Role::SoftBreak, plain_style());
        },
        StructuralEvent::HardBreak => {
            lemma_add_children_text(st, seq![leaf_model(Role::HardBreak, plain_style(), Seq::empty())]);
            lemma_bare_leaf_text(Role::HardBreak, plain_style());
        },
        StructuralEvent::Rule => {
            lemma_add_children_text(st, seq![leaf_model(Role::Rule, rule_style(theme), Seq::empty())]);
            lemma_bare_leaf_text(Role::Rule, rule_style(theme));
        },
        StructuralEvent::Other => {},
    }
}

proof fn lemma_run_text(events: Seq<StructuralEvent>, theme: Theme)
    ensures
        run(events, theme).len() > 0,
        stack_text(run(events, theme)) == payload_text(events),
    decreases events.len(),
{
    if events.len() == 0 {
        let root = initial_stack();
        assert(root.drop_last() =~= Seq::<OpenBlock>::empty());
        assert(text_of(root_node()) =~= Seq::<char>::empty());
        assert(stack_text(Seq::<OpenBlock>::empty()) == Seq::<char>::empty());
        assert(stack_text(root) == stack_text(root.drop_last()) + text_of(root.last().node));
        assert(stack_text(root) =~= Seq::<char>::empty());
    } else {
        lemma_run_text(events.drop_last(), theme);
        lemma_step_text(run(events.drop_last(), theme), events.last(), theme);
    }
}

proof fn lemma_close_all_text(st: Seq<OpenBlock>)
    requires
        st.len() > 0,
    ensures
        text_of(close_all(st)) == stack_text(st),
    decreases st.len(),
{
    if st.len() == 1 {
        assert(st.drop_last() =~= Seq::<OpenBlock>::empty());
        assert(stack_text(Seq::<OpenBlock>::empty()) == Seq::<char>::empty());
        assert(stack_text(st) == stack_text(st.drop_last()) + text_of(st.last().node));
        assert(Seq::<char>::empty() + text_of(st[0].node) =~= text_of(st[0].node));
    } else {
        let node = st.last().node;
        let folded = add_children(st.drop_last(), seq![node]);
        lemma_add_children_text(st.drop_last(), seq![node]);
        lemma_children_text_push(Seq::empty(), node);
        assert(Seq::<BlockModel>::empty().push(node) =~= seq![node]);
        assert(Seq::<char>::empty() + text_of(node) =~= text_of(node));
        lemma_close_all_text(folded);
        assert(stack_text(st) == stack_text(st.drop_last()) + text_of(node));
    }
}

/// The tree shows exactly the text that the events carry: the leaves' text, read in order,
/// is the concatenation of all `Text` and `InlineCode` payloads in source order. This holds
/// of every sequence of events, balanced or not.
pub proof fn lemma_tree_keeps_text(events: Seq<StructuralEvent>, theme: Theme)
    ensures
        text_of(tree_of(events, theme)) == payload_text(events),
{
    lemma_run_text(events, theme);
    lemma_close_all_text(run(events, theme));
}

proof fn lemma_run_root(events: Seq<StructuralEvent>, theme: Theme)
    ensures
        run(events, theme).len() > 0,
        run(events, theme)[0].node.role == Role::Root,
    decreases events.len(),
{
    if events.len() > 0 {
        lemma_run_root(events.drop_last(), theme);
        lemma_run_text(events.drop_last(), theme);
        lemma_step_text(run(events.drop_last(), theme), events.last(), theme);
    }
}

proof fn lemma_close_all_root(st: Seq<OpenBlock>)
    requires
        st.len() > 0,
        st[0].node.role == Role::Root,
    ensures
        close_all(st).role == Role::Root,
    decreases st.len(),
{
    if st.len() > 1 {
        lemma_close_all_root(add_children(st.drop_last(), seq![st.last().node]));
    }
}

/// Every sequence of events, empty, balanced or not, gives a tree whose root is the
/// document container.
pub proof fn lemma_tree_root(events: Seq<StructuralEvent>, theme: Theme)
    ensures
        tree_of(events, theme).role == Role::Root,
{
    lemma_run_root(events, theme);
    lemma_close_all_root(run(events, theme));
}

/// Building is deterministic: two trees built from the same events under the same theme are
/// structurally identical.
pub proof fn lemma_build_deterministic(
    events: Seq<StructuralEvent>,
    theme: Theme,
    first: StyledBlock,
    second: StyledBlock,
)
    requires
        first@ == tree_of(events, theme),
        second@ == tree_of(events, theme),
    ensures
        first@ == second@,
{
}

/// The open nodes are structural and well shaped, and only the top one may be a code block.
pub open spec fn stack_shaped(st: Seq<OpenBlock>) -> bool {
    &&& st.len() > 0
    &&& forall|k: int|
        0 <= k < st.len() ==> !is_leaf(#[trigger] st[k].node.role) && well_shaped(st[k].node)
    &&& forall|k: int| 0 <= k < st.len() - 1 ==> !is_code_block(#[trigger] st[k].node.role)
}

pub open spec fn all_leaves(cs: Seq<BlockModel>) -> bool {
    forall|i: int| 0 <= i < cs.len() ==> is_leaf(#[trigger] cs[i].role) && well_shaped(cs[i])
}

proof fn lemma_leaf_shaped(role: Role, attrs: VisualAttributes, spans: Seq<SpanView>)
    requires
        is_leaf(role),
    ensures
        well_shaped(leaf_model(role, attrs, spans)),
        all_leaves(seq![leaf_model(role, attrs, spans)]),
{
    let leaf = leaf_model(role, attrs, spans);
    assert(well_shaped(leaf));
    assert(seq![leaf][0] == leaf);
}

proof fn lemma_leaves_from_shaped(highlighted: Option<Seq<Seq<SpanView>>>, text: Seq<char>)
    ensures
        all_leaves(leaves_from(highlighted, text)),
{
    lemma_leaf_shaped(Role::CodeLine, code_line_style(), seq![plain_span(text)]);
    match highlighted {
        Some(lines) => {
            let leaves = line_leaves(lines);
            assert forall|i: int| 0 <= i < leaves.len() implies is_leaf(#[trigger] leaves[i].role)
                && well_shaped(leaves[i]) by {
                lemma_leaf_shaped(Role::CodeLine, code_line_style(), lines[i]);
            }
        },
        None => {},
    }
}

/// Appending shaped children keeps the stack shaped; onto a code block only leaves may go.
proof fn lemma_add_children_shaped(st: Seq<OpenBlock>, cs: Seq<BlockModel>)
    requires
        stack_shaped(st),
        forall|i: int| 0 <= i < cs.len() ==> well_shaped(#[trigger] cs[i]),
        is_code_block(st.last().node.role) ==> all_leaves(cs),
    ensures
        stack_shaped(add_children(st, cs)),
{
    let top = st.last().node;
    let after = add_children(st, cs);
    let node = after.last().node;
    assert(!is_leaf(st[st.len() - 1].node.role) && well_shaped(st[st.len() - 1].node));
    assert(node.children == top.children + cs);
    assert forall|i: int| 0 <= i < node.children.len() implies well_shaped(
        #[trigger] node.children[i],
    ) by {
        if i < top.children.len() {
            assert(node.children[i] == top.children[i]);
        } else {
            assert(node.children[i] == cs[i - top.children.len()]);
        }
    }
    if is_code_block(node.role) {
        assert forall|i: int| 0 <= i < node.children.len() implies is_leaf(
            #[trigger] node.children[i].role,
        ) by {
            if i < top.children.len() {
                assert(node.children[i] == top.children[i]);
            } else {
                assert(node.children[i] == cs[i - top.children.len()]);
            }
        }
    }
    assert(well_shaped(node));
    assert forall|k: int| 0 <= k < after.len() implies !is_leaf(#[trigger] after[k].node.role)
        && well_shaped(after[k].node) by {
        if k < after.len() - 1 {
            assert(after[k] == st[k]);
        } else {
            assert(after[k].node == node);
            assert(node.role == top.role);
        }
    }
    assert forall|k: int| 0 <= k < after.len() - 1 implies !is_code_block(
        #[trigger] after[k].node.role,
    ) by {
        assert(after[k] == st[k]);
    }
}

proof fn lemma_step_shaped(st: Seq<OpenBlock>, event: StructuralEvent, theme: Theme)
    requires
        stack_shaped(st),
    ensures
        stack_shaped(step(st, event, theme)),
{
    match event {
        StructuralEvent::Start(kind) => {
            if !is_code_block(st.last().node.role) {
                let after = opened(st, kind, theme);
                let node = after.last().node;
                assert(well_shaped(node));
                assert forall|k: int| 0 <= k < after.len() implies !is_leaf(
                    #[trigger] after[k].node.role,
                ) && well_shaped(after[k].node) by {
                    if k < st.len() {
                        assert(after[k] == st[k]);
                    }
                }
                assert forall|k: int| 0 <= k < after.len() - 1 implies !is_code_block(
                    #[trigger] after[k].node.role,
                ) by {
                    assert(after[k] == st[k]);
                    if k < st.len() - 1 {
                        assert(!is_code_block(st[k].node.role));
                    }
                }
            }
        },
        StructuralEvent::End(kind) => {
            if closes_top(st, kind) {
                let done = st.last();
                let rest = st.drop_last();
                let parent = rest.last();
                let after = closed(st, kind);
                assert(!is_leaf(st[st.len() - 1].node.role) && well_shaped(st[st.len() - 1].node));
                assert(!is_leaf(st[st.len() - 2].node.role) && well_shaped(st[st.len() - 2].node));
                assert(!is_code_block(st[st.len() - 2].node.role));
                let node = after.last().node;
                assert(node.children == parent.node.children.push(done.node));
                assert forall|i: int| 0 <= i < node.children.len() implies well_shaped(
                    #[trigger] node.children[i],
                ) by {
                    if i < parent.node.children.len() {
                        assert(node.children[i] == parent.node.children[i]);
                    }
                }
                assert(well_shaped(node));
                assert forall|k: int| 0 <= k < after.len() implies !is_leaf(
                    #[trigger] after[k].node.role,
                ) && well_shaped(after[k].node) by {
                    if k < after.len() - 1 {
                        assert(after[k] == st[k]);
                    }
                }
                assert forall|k: int| 0 <= k < after.len() - 1 implies !is_code_block(
                    #[trigger] after[k].node.role,
                ) by {
                    assert(after[k] == st[k]);
                }
            }
        },
        StructuralEvent::Text(s) => {
            match st.last().node.role {
                Role::Block(BlockKind::CodeBlock(Some(language))) => {
                    lemma_leaves_from_shaped(
                        highlight_of(CODE_THEME@, language@, s@),
                        s@,
                    );
                },
                _ => {
                    lemma_leaf_shaped(Role::Text, plain_style(), seq![plain_span(s@)]);
                },
            }
            lemma_add_children_shaped(st, text_leaves(st, s@));
        },
        StructuralEvent::InlineCode(s) => {
            lemma_leaf_shaped(Role::InlineCode, inline_code_style(theme), seq![plain_span(s@)]);
            lemma_add_children_shaped(
                st,
                seq![leaf_model(Role::InlineCode, inline_code_style(theme), seq![plain_span(s@)])],
            );
        },
        StructuralEvent::SoftBreak => {
            lemma_leaf_shaped(Role::SoftBreak, plain_style(), Seq::empty());
            lemma_add_children_shaped(
                st,
                seq![leaf_model(Role::SoftBreak, plain_style(), Seq::empty())],
            );
        },
        StructuralEvent::HardBreak => {
            lemma_leaf_shaped(Role::HardBreak, plain_style(), Seq::empty());
            lemma_add_children_shaped(
                st,
                seq![leaf_model(Role::HardBreak, plain_style(), Seq::empty())],
            );
        },
        StructuralEvent::Rule => {
            lemma_leaf_shaped(Role::Rule, rule_style(theme), Seq::empty());
            lemma_add_children_shaped(
                st,
                seq![leaf_model(Role::Rule, rule_style(theme), Seq::empty())],
            );
        },
        StructuralEvent::Other => {},
    }
}

proof fn lemma_run_shaped(events: Seq<StructuralEvent>, theme: Theme)
    ensures
        stack_shaped(run(events, theme)),
    decreases events.len(),
{
    if events.len() == 0 {
        let st = initial_stack();
        assert(st[0].node == root_node());
        assert(well_shaped(root_node()));
    } else {
        lemma_run_shaped(events.drop_last(), theme);
        lemma_step_shaped(run(events.drop_last(), theme), events.last(), theme);
    }
}

proof fn lemma_close_all_shaped(st: Seq<OpenBlock>)
    requires
        stack_shaped(st),
    ensures
        well_shaped(close_all(st)),
    decreases st.len(),
{
    if st.len() == 1 {
        assert(!is_leaf(st[0].node.role) && well_shaped(st[0].node));
    } else {
        let rest = st.drop_last();
        let node = st.last().node;
        assert(!is_leaf(st[st.len() - 1].node.role) && well_shaped(st[st.len() - 1].node));
        assert(!is_code_block(st[st.len() - 2].node.role));
        assert(stack_shaped(rest)) by {
            assert forall|k: int| 0 <= k < rest.len() implies !is_leaf(
                #[trigger] rest[k].node.role,
            ) && well_shaped(rest[k].node) by {
                assert(rest[k] == st[k]);
            }
            assert forall|k: int| 0 <= k < rest.len() - 1 implies !is_code_block(
                #[trigger] rest[k].node.role,
            ) by {
                assert(rest[k] == st[k]);
            }
        }
        assert(seq![node][0] == node);
        lemma_add_children_shaped(rest, seq![node]);
        lemma_close_all_shaped(add_children(rest, seq![node]));
    }
}

/// Every tree that the builder gives is well shaped: leaves have no children, structural
/// nodes have no spans, and a code block holds leaves only, however malformed the events.
pub proof fn lemma_tree_shaped(events: Seq<StructuralEvent>, theme: Theme)
    ensures
        well_shaped(tree_of(events, theme)),
{
    lemma_run_shaped(events, theme);
    lemma_close_all_shaped(run(events, theme));
}

} // verus!
