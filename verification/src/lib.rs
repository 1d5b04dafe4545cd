//! Rendering of a parsed lightweight-markup document tree into an HTML
//! fragment.
//!
//! The document tree is produced by an external parser and modelled here by
//! [`ast::AstNode`].  Rendering walks the tree once: paragraphs are composed
//! from their inline segments, headings render their children first and
//! splice the results into a level-keyed template, and every other node kind
//! renders to the empty string.  String interpolation is delegated to the
//! handlebars template engine behind a small trusted boundary in [`engine`].

pub mod ast;
pub mod compose;
pub mod engine;
pub mod heading;
pub mod link;
pub mod render;
