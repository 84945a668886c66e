//! The syntax tree that the engine lays out.

use vstd::prelude::*;
use crate::diag::Spanned;

verus! {

/// A node of the syntax tree.
#[derive(Clone, Debug, PartialEq, Eq)]
pub enum SyntaxNode {
    /// A run of text without spaces.
    Text(String),
    /// Room between words.
    Space,
    /// The end of a paragraph.
    Parbreak,
    /// The end of a line.
    Linebreak,
    /// A switch between upright and italic text.
    ToggleItalic,
    /// A switch between regular and bolder text.
    ToggleBolder,
}

/// A document: its nodes in document order, each with its span.
pub type SyntaxTree = Vec<Spanned<SyntaxNode>>;

} // verus!
