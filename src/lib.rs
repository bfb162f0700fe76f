//! Live markdown preview: a renderer from markdown structural events to a tree of styled
//! blocks, and the scheduler that decides when to render and when to save.

pub mod builder;
pub mod event;
pub mod highlight;
pub mod markdown;
pub mod pango;
pub mod renderer;
pub mod style;
pub mod tokens;
pub mod tree;
pub mod workspace;
