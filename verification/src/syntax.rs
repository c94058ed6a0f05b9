//! Concrete syntax: the kinds of its tokens and nodes, its trees, and the
//! edits that give a changed copy of a tree.

pub mod kind;
pub mod text;
pub mod green;
pub mod node;
pub mod ast;
pub mod algo;
pub mod make;
pub mod edit;
pub mod rewriter;
