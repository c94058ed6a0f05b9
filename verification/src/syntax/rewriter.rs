//! Rewriting a tree by a list of what to exchange in it.

use std::sync::Arc;
use vstd::pervasive::unreached;
use vstd::prelude::*;
use crate::syntax::ast::AstNode;
use crate::syntax::green::{GreenElement, GreenNode, Tree, lemma_trees_push, trees};
use crate::syntax::node::{SyntaxElement, SyntaxNode, steps};

verus! {

/// What takes the place of an element.
#[derive(Debug)]
pub enum Replacement {
    Delete,
    Single(GreenElement),
}

/// What takes the place of an element, as a value.
pub enum ReplacementView {
    Delete,
    Single(Tree),
}

impl View for Replacement {
    type V = ReplacementView;

    open spec fn view(&self) -> ReplacementView {
        match self {
            Replacement::Delete => ReplacementView::Delete,
            Replacement::Single(e) => ReplacementView::Single(e@),
        }
    }
}

/// A list of the elements of a tree that are to go or to give way to
/// others. An element is named by its place in the tree; what is said of a
/// place last is what counts.
pub struct SyntaxRewriter {
    replacements: Vec<(Vec<usize>, Replacement)>,
}

/// The map of the first `n` of `entries`, each entry in place of what was
/// said of its place before.
pub open spec fn entries_map(entries: Seq<(Vec<usize>, Replacement)>, n: int) -> Map<
    Seq<int>,
    ReplacementView,
>
    decreases n,
{
    if n <= 0 || n > entries.len() {
        Map::empty()
    } else {
        entries_map(entries, n - 1).insert(steps(entries[n - 1].0@), entries[n - 1].1@)
    }
}

impl View for SyntaxRewriter {
    type V = Map<Seq<int>, ReplacementView>;

    closed spec fn view(&self) -> Map<Seq<int>, ReplacementView> {
        entries_map(self.replacements@, self.replacements@.len() as int)
    }
}

/// What takes the place of the tree `t` at `path`: nothing where it is to
/// go, another tree where it is to give way, and else the tree itself,
/// rewritten inside where it is a node.
pub open spec fn rewritten(t: Tree, path: Seq<int>, map: Map<Seq<int>, ReplacementView>) -> Seq<Tree>
    decreases t,
{
    if map.contains_key(path) {
        match map[path] {
            ReplacementView::Delete => Seq::empty(),
            ReplacementView::Single(new) => seq![new],
        }
    } else {
        match t {
            Tree::Token { .. } => seq![t],
            Tree::Node { kind, children } => seq![
                Tree::Node {
                    kind,
                    children: rewritten_children(children, children.len() as int, path, map),
                },
            ],
        }
    }
}

/// What takes the place of the first `n` of the children `trees` of the
/// node at `path`.
pub open spec fn rewritten_children(
    trees: Seq<Tree>,
    n: int,
    path: Seq<int>,
    map: Map<Seq<int>, ReplacementView>,
) -> Seq<Tree>
    decreases trees, n,
{
    if n <= 0 || n > trees.len() {
        Seq::empty()
    } else {
        rewritten_children(trees, n - 1, path, map) + rewritten(trees[n - 1], path.push(n - 1), map)
    }
}

/// The map of the first entries depends on those entries only.
proof fn lemma_entries_map_prefix(
    a: Seq<(Vec<usize>, Replacement)>,
    b: Seq<(Vec<usize>, Replacement)>,
    n: int,
)
    requires
        0 <= n <= a.len(),
        n <= b.len(),
        forall|i: int| 0 <= i < n ==> a[i] == b[i],
    ensures
        entries_map(a, n) == entries_map(b, n),
    decreases n,
{
    if n > 0 {
        lemma_entries_map_prefix(a, b, n - 1);
    }
}

/// Whether two ways are the same.
fn same_path(a: &Vec<usize>, b: &Vec<usize>) -> (r: bool)
    ensures
        r == (steps(a@) == steps(b@)),
{
    if a.len() != b.len() {
        assert(steps(a@).len() != steps(b@).len());
        return false;
    }
    let mut i: usize = 0;
    while i < a.len()
        invariant
            i <= a@.len(),
            a@.len() == b@.len(),
            forall|j: int| 0 <= j < i ==> a@[j] == b@[j],
        decreases a@.len() - i,
    {
        if a[i] != b[i] {
            assert(steps(a@)[i as int] != steps(b@)[i as int]);
            return false;
        }
        i = i + 1;
    }
    assert(steps(a@) =~= steps(b@));
    true
}

/// A copy of a way.
fn copy_path(path: &Vec<usize>) -> (r: Vec<usize>)
    ensures
        r@ == path@,
{
    let mut r: Vec<usize> = Vec::new();
    let mut i: usize = 0;
    while i < path.len()
        invariant
            i <= path@.len(),
            r@ == path@.subrange(0, i as int),
        decreases path@.len() - i,
    {
        r.push(path[i]);
        assert(r@ =~= path@.subrange(0, i + 1));
        i = i + 1;
    }
    assert(r@ =~= path@);
    r
}

impl SyntaxRewriter {
    /// A rewriter that leaves every tree as it is.
    pub fn new() -> (r: SyntaxRewriter)
        ensures
            r@ == Map::<Seq<int>, ReplacementView>::empty(),
    {
        SyntaxRewriter { replacements: Vec::new() }
    }

    /// Says of the place `path` that `replacement` goes there.
    fn insert(&mut self, path: Vec<usize>, replacement: Replacement)
        ensures
            final(self)@ == old(self)@.insert(steps(path@), replacement@),
    {
        proof {
            lemma_entries_map_prefix(
                self.replacements@,
                self.replacements@.push((path, replacement)),
                self.replacements@.len() as int,
            );
        }
        self.replacements.push((path, replacement));
    }

    /// Says that `what` is to go.
    pub fn delete(&mut self, what: &SyntaxElement)
        ensures
            final(self)@ == old(self)@.insert(what@.path, ReplacementView::Delete),
    {
        self.insert(copy_path(what.path()), Replacement::Delete);
    }

    /// Says that `what` is to give way to `with`.
    pub fn replace(&mut self, what: &SyntaxElement, with: GreenElement)
        ensures
            final(self)@ == old(self)@.insert(what@.path, ReplacementView::Single(with@)),
    {
        self.insert(copy_path(what.path()), Replacement::Single(with));
    }

    /// Says that the node `what` is to go.
    pub fn delete_node(&mut self, what: &SyntaxNode)
        ensures
            final(self)@ == old(self)@.insert(what@.path, ReplacementView::Delete),
    {
        self.insert(copy_path(what.path()), Replacement::Delete);
    }

    /// Says that the node `what` is to give way to the node `with`.
    pub fn replace_node(&mut self, what: &SyntaxNode, with: &SyntaxNode)
        ensures
            final(self)@ == old(self)@.insert(
                what@.path,
                ReplacementView::Single(with@.green()),
            ),
    {
        self.insert(copy_path(what.path()), Replacement::Single(with.green_element()));
    }

    /// What is said of the place `path`.
    pub fn replacement(&self, path: &Vec<usize>) -> (r: Option<&Replacement>)
        ensures
            match r {
                Some(x) => self@.contains_key(steps(path@)) && self@[steps(path@)] == x@,
                None => !self@.contains_key(steps(path@)),
            },
    {
        let mut i: usize = self.replacements.len();
        while i > 0
            invariant
                i <= self.replacements@.len(),
                self@.contains_key(steps(path@)) == entries_map(
                    self.replacements@,
                    i as int,
                ).contains_key(steps(path@)),
                self@.contains_key(steps(path@)) ==> self@[steps(path@)] == entries_map(
                    self.replacements@,
                    i as int,
                )[steps(path@)],
            decreases i,
        {
            if same_path(&self.replacements[i - 1].0, path) {
                return Some(&self.replacements[i - 1].1);
            }
            i = i - 1;
        }
        None
    }

    /// The node with everything inside it exchanged as the rewriter says,
    /// in the same place of a tree that is otherwise the same.
    pub fn rewrite(&self, node: &SyntaxNode) -> (r: SyntaxNode)
        ensures
            r@ == node@.with_children(
                rewritten_children(
                    node@.children(),
                    node@.children().len() as int,
                    node@.path,
                    self@,
                ),
            ),
            r@.kind() == node@.kind(),
    {
        let mut path = copy_path(node.path());
        let children = self.rewrite_children(node.green(), &mut path);
        node.with_children(children)
    }

    /// The node with everything inside it exchanged as the rewriter says.
    pub fn rewrite_ast<N: AstNode>(&self, node: &N) -> (r: N)
        ensures
            r@ == node@.with_children(
                rewritten_children(
                    node@.children(),
                    node@.children().len() as int,
                    node@.path,
                    self@,
                ),
            ),
    {
        match N::cast(self.rewrite(node.syntax())) {
            Some(n) => n,
            None => unreached(),
        }
    }

    /// What takes the place of the children of `node`, which stands at
    /// `path`. The way is lengthened and shortened again while the children
    /// are visited.
    fn rewrite_children(&self, node: &GreenNode, path: &mut Vec<usize>) -> (r: Vec<GreenElement>)
        ensures
            final(path)@ == old(path)@,
            trees(r@) == rewritten_children(
                node@.children(),
                node@.children().len() as int,
                steps(old(path)@),
                self@,
            ),
        decreases node,
    {
        let mut out: Vec<GreenElement> = Vec::new();
        let mut i: usize = 0;
        proof {
            assert(trees(out@) =~= rewritten_children(node@.children(), 0, steps(path@), self@));
        }
        while i < node.children.len()
            invariant
                i <= node.children@.len(),
                path@ == old(path)@,
                node@.children().len() == node.children@.len(),
                trees(out@) == rewritten_children(
                    node@.children(),
                    i as int,
                    steps(path@),
                    self@,
                ),
            decreases node.children@.len() - i,
        {
            proof {
                assert(node@.children()[i as int] == node.children@[i as int]@);
            }
            let ghost before = trees(out@);
            let ghost here = steps(path@).push(i as int);
            path.push(i);
            proof {
                assert(steps(path@) =~= here);
            }
            match self.replacement(path) {
                Some(Replacement::Delete) => {},
                Some(Replacement::Single(new)) => {
                    proof {
                        lemma_trees_push(out@, *new);
                    }
                    out.push(new.share());
                },
                None => {
                    match &node.children[i] {
                        GreenElement::Token(_) => {
                            proof {
                                lemma_trees_push(out@, node.children@[i as int]);
                            }
                            out.push(node.children[i].share());
                        },
                        GreenElement::Node(n) => {
                            let children = self.rewrite_children(n, path);
                            let new = GreenElement::Node(
                                Arc::new(GreenNode { kind: n.kind, children }),
                            );
                            proof {
                                assert(new@.children() =~= rewritten_children(
                                    n@.children(),
                                    n@.children().len() as int,
                                    here,
                                    self@,
                                ));
                                lemma_trees_push(out@, new);
                            }
                            out.push(new);
                        },
                    }
                },
            }
            path.pop();
            proof {
                assert(path@ =~= old(path)@);
                assert(trees(out@) =~= before + rewritten(node@.children()[i as int], here, self@));
            }
            i = i + 1;
        }
        out
    }
}

} // verus!
