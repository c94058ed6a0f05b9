//! Trees of syntax: tokens that hold text, and nodes that hold tokens and
//! nodes.
//!
//! A green tree holds no positions and no way up, so equal pieces of
//! source are equal trees and a subtree can be shared between trees.

use std::sync::Arc;
use vstd::prelude::*;
use crate::ext::shared::share;
use crate::syntax::kind::SyntaxKind;
use crate::syntax::text::{byte_size, chars_of, lemma_utf8_size_add, utf8_size};

verus! {

/// A tree as a value.
pub enum Tree {
    Token { kind: SyntaxKind, text: Seq<char> },
    Node { kind: SyntaxKind, children: Seq<Tree> },
}

impl Tree {
    pub open spec fn kind(self) -> SyntaxKind {
        match self {
            Tree::Token { kind, .. } => kind,
            Tree::Node { kind, .. } => kind,
        }
    }

    /// The children of a node; a token has none.
    pub open spec fn children(self) -> Seq<Tree> {
        match self {
            Tree::Token { .. } => Seq::empty(),
            Tree::Node { children, .. } => children,
        }
    }

    /// The text of a token; a node has none of its own.
    pub open spec fn token_text(self) -> Seq<char> {
        match self {
            Tree::Token { text, .. } => text,
            Tree::Node { .. } => Seq::empty(),
        }
    }

    /// The text that the tree stands for: that of its tokens, from left to
    /// right.
    pub open spec fn text(self) -> Seq<char>
        decreases self,
    {
        match self {
            Tree::Token { text, .. } => text,
            Tree::Node { children, .. } => Self::texts(children, children.len() as int),
        }
    }

    /// The text of the first `n` of `trees`.
    pub open spec fn texts(trees: Seq<Tree>, n: int) -> Seq<char>
        decreases trees, n,
    {
        if n <= 0 || n > trees.len() {
            Seq::empty()
        } else {
            Self::texts(trees, n - 1) + trees[n - 1].text()
        }
    }

    /// The tokens of the tree, from left to right.
    pub open spec fn tokens(self) -> Seq<Tree>
        decreases self,
    {
        match self {
            Tree::Token { .. } => seq![self],
            Tree::Node { children, .. } => Self::tokens_of(children, children.len() as int),
        }
    }

    /// The tokens of the first `n` of `trees`.
    pub open spec fn tokens_of(trees: Seq<Tree>, n: int) -> Seq<Tree>
        decreases trees, n,
    {
        if n <= 0 || n > trees.len() {
            Seq::empty()
        } else {
            Self::tokens_of(trees, n - 1) + trees[n - 1].tokens()
        }
    }

    /// The subtree that `path` leads to: each step is the index of a child.
    pub open spec fn at(self, path: Seq<int>) -> Option<Tree>
        decreases path.len(),
    {
        if path.len() == 0 {
            Some(self)
        } else if 0 <= path[0] < self.children().len() {
            self.children()[path[0]].at(path.drop_first())
        } else {
            None
        }
    }

    /// The tree with `new` in place of the subtree that `path` leads to.
    pub open spec fn replace_at(self, path: Seq<int>, new: Tree) -> Tree
        decreases path.len(),
    {
        if path.len() == 0 {
            new
        } else if 0 <= path[0] < self.children().len() {
            Tree::Node {
                kind: self.kind(),
                children: self.children().update(
                    path[0],
                    self.children()[path[0]].replace_at(path.drop_first(), new),
                ),
            }
        } else {
            self
        }
    }

    /// The number of bytes that the text of the tree takes.
    pub open spec fn size(self) -> nat {
        utf8_size(self.text())
    }

    /// The text that stands before the subtree that `path` leads to.
    pub open spec fn text_before(self, path: Seq<int>) -> Seq<char>
        decreases path.len(),
    {
        if path.len() == 0 {
            Seq::empty()
        } else if 0 <= path[0] < self.children().len() {
            Self::texts(self.children(), path[0]) + self.children()[path[0]].text_before(
                path.drop_first(),
            )
        } else {
            Seq::empty()
        }
    }

    /// The tokens that stand before the subtree that `path` leads to.
    pub open spec fn tokens_before(self, path: Seq<int>) -> Seq<Tree>
        decreases path.len(),
    {
        if path.len() == 0 {
            Seq::empty()
        } else if 0 <= path[0] < self.children().len() {
            Self::tokens_of(self.children(), path[0]) + self.children()[path[0]].tokens_before(
                path.drop_first(),
            )
        } else {
            Seq::empty()
        }
    }
}

/// A token: a kind and the text that was read as it.
#[derive(Debug)]
pub struct GreenToken {
    pub kind: SyntaxKind,
    pub text: Vec<char>,
}

/// A node: a kind and what it is made of, from left to right.
#[derive(Debug)]
pub struct GreenNode {
    pub kind: SyntaxKind,
    pub children: Vec<GreenElement>,
}

/// A child of a node: a node or a token, shared with every tree that
/// holds it.
#[derive(Debug)]
pub enum GreenElement {
    Node(Arc<GreenNode>),
    Token(Arc<GreenToken>),
}

impl GreenToken {
    /// The token as a value.
    pub open spec fn tree(&self) -> Tree {
        Tree::Token { kind: self.kind, text: self.text@ }
    }

    pub fn new(kind: SyntaxKind, text: &str) -> (r: GreenToken)
        ensures
            r@ == (Tree::Token { kind, text: text@ }),
    {
        GreenToken { kind, text: chars_of(text) }
    }
}

impl View for GreenToken {
    type V = Tree;

    open spec fn view(&self) -> Tree {
        self.tree()
    }
}

impl GreenNode {
    /// The node as a value.
    pub open spec fn tree(&self) -> Tree
        decreases self,
    {
        Tree::Node {
            kind: self.kind,
            children: Seq::new(
                self.children@.len(),
                |i: int|
                    if 0 <= i < self.children@.len() {
                        self.children@[i].tree()
                    } else {
                        Tree::Node { kind: self.kind, children: Seq::empty() }
                    },
            ),
        }
    }

    pub fn new(kind: SyntaxKind, children: Vec<GreenElement>) -> (r: GreenNode)
        ensures
            r@ == (Tree::Node { kind, children: trees(children@) }),
    {
        let r = GreenNode { kind, children };
        assert(r@.children() =~= trees(children@));
        r
    }
}

impl View for GreenNode {
    type V = Tree;

    open spec fn view(&self) -> Tree {
        self.tree()
    }
}

impl GreenElement {
    /// The element as a value.
    pub open spec fn tree(&self) -> Tree
        decreases self,
    {
        match self {
            GreenElement::Node(n) => n.tree(),
            GreenElement::Token(t) => t.tree(),
        }
    }

    /// Another handle to the same element.
    pub fn share(&self) -> (r: GreenElement)
        ensures
            r == *self,
    {
        match self {
            GreenElement::Node(n) => GreenElement::Node(share(n)),
            GreenElement::Token(t) => GreenElement::Token(share(t)),
        }
    }

    /// The node `node` as an element.
    pub fn node(node: GreenNode) -> (r: GreenElement)
        ensures
            r@ == node@,
    {
        GreenElement::Node(Arc::new(node))
    }

    /// The token of the kind `kind` with the text `text`, as an element.
    pub fn token(kind: SyntaxKind, text: &str) -> (r: GreenElement)
        ensures
            r@ == (Tree::Token { kind, text: text@ }),
    {
        GreenElement::Token(Arc::new(GreenToken::new(kind, text)))
    }

    pub fn kind(&self) -> (r: SyntaxKind)
        ensures
            r == self@.kind(),
    {
        match self {
            GreenElement::Node(n) => n.kind,
            GreenElement::Token(t) => t.kind,
        }
    }
}

impl View for GreenElement {
    type V = Tree;

    open spec fn view(&self) -> Tree {
        self.tree()
    }
}

/// The text of the first children of a node is the start of the text of
/// more of them, and each child adds its own size.
pub proof fn lemma_texts_grow(trees: Seq<Tree>, i: int, n: int)
    requires
        0 <= i <= n <= trees.len(),
    ensures
        utf8_size(Tree::texts(trees, i)) <= utf8_size(Tree::texts(trees, n)),
        i < n ==> utf8_size(Tree::texts(trees, i + 1)) == utf8_size(Tree::texts(trees, i))
            + trees[i].size(),
        i < n ==> utf8_size(Tree::texts(trees, i)) + trees[i].size() <= utf8_size(
            Tree::texts(trees, n),
        ),
    decreases n - i,
{
    if i < n {
        lemma_utf8_size_add(Tree::texts(trees, i), trees[i].text());
        lemma_texts_grow(trees, i + 1, n);
    }
}

impl GreenNode {
    /// The number of bytes that the text of the node takes, for a node
    /// whose size a machine word holds.
    pub fn byte_size(&self) -> (r: usize)
        requires
            self@.size() <= usize::MAX,
        ensures
            r == self@.size(),
        decreases self,
    {
        let mut r: usize = 0;
        let mut i: usize = 0;
        while i < self.children.len()
            invariant
                i <= self.children@.len(),
                self@.children().len() == self.children@.len(),
                self@.size() <= usize::MAX,
                r == utf8_size(Tree::texts(self@.children(), i as int)),
            decreases self.children@.len() - i,
        {
            proof {
                assert(self@.children()[i as int] == self.children@[i as int]@);
                lemma_texts_grow(self@.children(), i as int, self.children@.len() as int);
            }
            let size = match &self.children[i] {
                GreenElement::Node(n) => n.byte_size(),
                GreenElement::Token(t) => byte_size(t.text.as_slice()),
            };
            r = r + size;
            i = i + 1;
        }
        r
    }
}

impl GreenElement {
    /// The number of bytes that the text of the element takes, for an
    /// element whose size a machine word holds.
    pub fn byte_size(&self) -> (r: usize)
        requires
            self@.size() <= usize::MAX,
        ensures
            r == self@.size(),
    {
        match self {
            GreenElement::Node(n) => n.byte_size(),
            GreenElement::Token(t) => byte_size(t.text.as_slice()),
        }
    }
}

/// The trees of elements, in order.
pub open spec fn trees(elements: Seq<GreenElement>) -> Seq<Tree> {
    Seq::new(elements.len(), |i: int| elements[i]@)
}

/// The trees of elements with one more are the trees with one more.
pub proof fn lemma_trees_push(elements: Seq<GreenElement>, e: GreenElement)
    ensures
        trees(elements.push(e)) == trees(elements).push(e@),
{
    assert(trees(elements.push(e)) =~= trees(elements).push(e@));
}

} // verus!
