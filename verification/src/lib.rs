//! Builds a tree of `HTML` elements in memory and writes it out as indented text.
//!
//! The text that an element stands for is a spec function of the tree and of
//! the indentation, `model::render`; the functions that write a tree prove
//! that they produce exactly that text.

pub mod document;
pub mod element;
pub mod laws;
pub mod model;
pub mod text;

pub use document::{HeadingLevel, HtmlDocument};
pub use element::{HtmlElement, INDENT};
pub use text::{NL, WS};
