use vstd::prelude::*;

use crate::builder::{build, tree_of};
use crate::style::Theme;
use crate::tokens::{events_of, renderer_extensions, tokenize, Extensions};
use crate::tree::{Role, StyledBlock};

verus! {

/// Renders one markdown text into a tree of styled blocks.
pub struct MarkdownRenderer {
    text: String,
}

impl View for MarkdownRenderer {
    type V = Seq<char>;

    closed spec fn view(&self) -> Seq<char> {
        self.text@
    }
}

impl MarkdownRenderer {
    pub fn new(text: String) -> (r: MarkdownRenderer)
        ensures
            r@ == text@,
    {
        MarkdownRenderer { text }
    }

    /// The tree of the text: its events, built under the theme.
    pub fn render(&self, theme: &Theme) -> (r: StyledBlock)
        ensures
            r@ == tree_of(events_of(self@, renderer_extensions()), *theme),
            r.role == Role::Root,
    {
        let events = tokenize(self.text.as_str(), Extensions::for_renderer());
        build(&events, theme)
    }
}

/// The preview pane: holds the text last published to it and renders it on demand.
pub struct Preview {
    text: String,
}

impl View for Preview {
    type V = Seq<char>;

    closed spec fn view(&self) -> Seq<char> {
        self.text@
    }
}

impl Preview {
    /// An empty preview.
    pub fn new() -> (r: Preview)
        ensures
            r@ == Seq::<char>::empty(),
    {
        Preview { text: String::new() }
    }

    /// Publishes a text to the preview.
    pub fn set_text(&mut self, text: String)
        ensures
            final(self)@ == text@,
    {
        self.text = text;
    }

    /// The text last published.
    pub fn text(&self) -> (r: &str)
        ensures
            r@ == self@,
    {
        self.text.as_str()
    }

    /// The tree of the published text.
    pub fn render(&self, theme: &Theme) -> (r: StyledBlock)
        ensures
            r@ == tree_of(events_of(self@, renderer_extensions()), *theme),
            r.role == Role::Root,
    {
        let renderer = MarkdownRenderer::new(self.text.clone());
        renderer.render(theme)
    }
}

} // verus!
