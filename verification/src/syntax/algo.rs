//! Finding children, and nodes with children put in, taken out or
//! exchanged.

use std::sync::Arc;
use vstd::prelude::*;
use crate::syntax::green::{GreenElement, GreenToken, Tree, lemma_trees_push, trees};
use crate::syntax::kind::SyntaxKind;
use crate::syntax::node::SyntaxNode;

verus! {

/// Where new children go.
#[derive(Debug)]
pub enum InsertPosition<T> {
    First,
    Last,
    Before(T),
    After(T),
}

/// Whether `i` is the first position from `from` on at which `trees` holds
/// a tree with the property `p`.
pub open spec fn is_first_where(trees: Seq<Tree>, p: spec_fn(Tree) -> bool, from: int, i: int) -> bool {
    &&& 0 <= from <= i < trees.len()
    &&& p(trees[i])
    &&& forall|j: int| from <= j < i ==> !p(trees[j])
}

/// The first position from `from` on at which `trees` holds a tree with the
/// property `p`.
pub open spec fn first_where(trees: Seq<Tree>, p: spec_fn(Tree) -> bool, from: int) -> Option<int> {
    if exists|i: int| is_first_where(trees, p, from, i) {
        Some(choose|i: int| is_first_where(trees, p, from, i))
    } else {
        None
    }
}

/// Whether `i` is the last position at which `trees` holds a tree with the
/// property `p`.
pub open spec fn is_last_where(trees: Seq<Tree>, p: spec_fn(Tree) -> bool, i: int) -> bool {
    &&& 0 <= i < trees.len()
    &&& p(trees[i])
    &&& forall|j: int| i < j < trees.len() ==> !p(trees[j])
}

/// The last position at which `trees` holds a tree with the property `p`.
pub open spec fn last_where(trees: Seq<Tree>, p: spec_fn(Tree) -> bool) -> Option<int> {
    if exists|i: int| is_last_where(trees, p, i) {
        Some(choose|i: int| is_last_where(trees, p, i))
    } else {
        None
    }
}

/// A position that is the first with the property is what is found.
pub proof fn lemma_first_where_found(trees: Seq<Tree>, p: spec_fn(Tree) -> bool, from: int, i: int)
    requires
        is_first_where(trees, p, from, i),
    ensures
        first_where(trees, p, from) == Some(i),
{
    let k = choose|k: int| is_first_where(trees, p, from, k);
    if k < i {
        assert(!p(trees[k]));
    } else if k > i {
        assert(!p(trees[i]));
    }
}

/// Where no tree from `from` on has the property, nothing is found.
pub proof fn lemma_first_where_none(trees: Seq<Tree>, p: spec_fn(Tree) -> bool, from: int)
    requires
        forall|j: int| from <= j < trees.len() ==> !p(#[trigger] trees[j]),
    ensures
        first_where(trees, p, from) == None::<int>,
{
    assert forall|i: int| !is_first_where(trees, p, from, i) by {
        if from <= i < trees.len() {
            assert(!p(trees[i]));
        }
    }
}

/// A position that is the last with the property is what is found.
pub proof fn lemma_last_where_found(trees: Seq<Tree>, p: spec_fn(Tree) -> bool, i: int)
    requires
        is_last_where(trees, p, i),
    ensures
        last_where(trees, p) == Some(i),
{
    let k = choose|k: int| is_last_where(trees, p, k);
    if k < i {
        assert(!p(trees[i]));
    } else if k > i {
        assert(!p(trees[k]));
    }
}

/// Where no tree has the property, nothing is found.
pub proof fn lemma_last_where_none(trees: Seq<Tree>, p: spec_fn(Tree) -> bool)
    requires
        forall|j: int| 0 <= j < trees.len() ==> !p(#[trigger] trees[j]),
    ensures
        last_where(trees, p) == None::<int>,
{
    assert forall|i: int| !is_last_where(trees, p, i) by {
        if 0 <= i < trees.len() {
            assert(!p(trees[i]));
        }
    }
}

/// The property of being a tree of the kind `kind`.
pub open spec fn of_kind(kind: SyntaxKind) -> spec_fn(Tree) -> bool {
    |t: Tree| t.kind() == kind
}

/// The property of being a token of the kind `kind`.
pub open spec fn token_of_kind(kind: SyntaxKind) -> spec_fn(Tree) -> bool {
    |t: Tree| t is Token && t.kind() == kind
}

/// The property of being a node of the kind `kind`.
pub open spec fn node_of_kind(kind: SyntaxKind) -> spec_fn(Tree) -> bool {
    |t: Tree| t is Node && t.kind() == kind
}

/// The first child from `from` on that is of the kind `kind`, token or
/// node.
pub fn find_kind(children: &Vec<GreenElement>, kind: SyntaxKind, from: usize) -> (r: Option<usize>)
    ensures
        r matches Some(i) ==> first_where(trees(children@), of_kind(kind), from as int) == Some(
            i as int,
        ) && from <= i < children@.len() && i < usize::MAX && children@[i as int]@.kind() == kind,
        r is None ==> first_where(trees(children@), of_kind(kind), from as int) is None,
{
    let mut i: usize = from;
    while i < children.len()
        invariant
            from <= i,
            forall|j: int| from <= j < i && j < children@.len() ==> !of_kind(kind)(
                #[trigger] trees(children@)[j],
            ),
        decreases children@.len() - i,
    {
        if children[i].kind() == kind {
            proof {
                assert(trees(children@)[i as int] == children@[i as int]@);
                lemma_first_where_found(trees(children@), of_kind(kind), from as int, i as int);
            }
            return Some(i);
        }
        proof {
            assert(trees(children@)[i as int] == children@[i as int]@);
        }
        i = i + 1;
    }
    proof {
        lemma_first_where_none(trees(children@), of_kind(kind), from as int);
    }
    None
}

/// The first child from `from` on that is a token of the kind `kind`.
pub fn find_token(children: &Vec<GreenElement>, kind: SyntaxKind, from: usize) -> (r: Option<usize>)
    ensures
        r matches Some(i) ==> first_where(trees(children@), token_of_kind(kind), from as int)
            == Some(i as int) && from <= i < children@.len() && i < usize::MAX && children@[i as int] is Token
            && children@[i as int]@.kind() == kind,
        r is None ==> first_where(trees(children@), token_of_kind(kind), from as int) is None,
{
    let mut i: usize = from;
    while i < children.len()
        invariant
            from <= i,
            forall|j: int| from <= j < i && j < children@.len() ==> !token_of_kind(kind)(
                #[trigger] trees(children@)[j],
            ),
        decreases children@.len() - i,
    {
        let found = match &children[i] {
            GreenElement::Token(t) => t.kind == kind,
            GreenElement::Node(_) => false,
        };
        proof {
            assert(trees(children@)[i as int] == children@[i as int]@);
        }
        if found {
            proof {
                lemma_first_where_found(
                    trees(children@),
                    token_of_kind(kind),
                    from as int,
                    i as int,
                );
            }
            return Some(i);
        }
        i = i + 1;
    }
    proof {
        lemma_first_where_none(trees(children@), token_of_kind(kind), from as int);
    }
    None
}

/// The first child from `from` on that is a node of the kind `kind`.
pub fn find_node(children: &Vec<GreenElement>, kind: SyntaxKind, from: usize) -> (r: Option<usize>)
    ensures
        r matches Some(i) ==> first_where(trees(children@), node_of_kind(kind), from as int)
            == Some(i as int) && from <= i < children@.len() && i < usize::MAX && children@[i as int] is Node
            && children@[i as int]@.kind() == kind,
        r is None ==> first_where(trees(children@), node_of_kind(kind), from as int) is None,
{
    let mut i: usize = from;
    while i < children.len()
        invariant
            from <= i,
            forall|j: int| from <= j < i && j < children@.len() ==> !node_of_kind(kind)(
                #[trigger] trees(children@)[j],
            ),
        decreases children@.len() - i,
    {
        let found = match &children[i] {
            GreenElement::Node(n) => n.kind == kind,
            GreenElement::Token(_) => false,
        };
        proof {
            assert(trees(children@)[i as int] == children@[i as int]@);
        }
        if found {
            proof {
                lemma_first_where_found(trees(children@), node_of_kind(kind), from as int, i as int);
            }
            return Some(i);
        }
        i = i + 1;
    }
    proof {
        lemma_first_where_none(trees(children@), node_of_kind(kind), from as int);
    }
    None
}

/// The last child that is a node of the kind `kind`.
pub fn find_last_node(children: &Vec<GreenElement>, kind: SyntaxKind) -> (r: Option<usize>)
    ensures
        r matches Some(i) ==> last_where(trees(children@), node_of_kind(kind)) == Some(i as int)
            && i < children@.len() && i < usize::MAX && children@[i as int] is Node
            && children@[i as int]@.kind() == kind,
        r is None ==> last_where(trees(children@), node_of_kind(kind)) is None,
{
    let mut i: usize = children.len();
    while i > 0
        invariant
            i <= children@.len(),
            forall|j: int| i <= j < children@.len() ==> !node_of_kind(kind)(
                #[trigger] trees(children@)[j],
            ),
        decreases i,
    {
        let found = match &children[i - 1] {
            GreenElement::Node(n) => n.kind == kind,
            GreenElement::Token(_) => false,
        };
        proof {
            assert(trees(children@)[i - 1] == children@[i - 1]@);
        }
        if found {
            proof {
                lemma_last_where_found(trees(children@), node_of_kind(kind), i - 1);
            }
            return Some(i - 1);
        }
        i = i - 1;
    }
    proof {
        lemma_last_where_none(trees(children@), node_of_kind(kind));
    }
    None
}

/// `trees` with what stands from `start` up to `end` exchanged for
/// `inserted`.
pub open spec fn spliced(trees: Seq<Tree>, start: int, end: int, inserted: Seq<Tree>) -> Seq<Tree> {
    trees.subrange(0, start) + inserted + trees.subrange(end, trees.len() as int)
}

/// The index before which `position` puts new children among `n`.
pub open spec fn insertion_index(position: InsertPosition<usize>, n: nat) -> int {
    match position {
        InsertPosition::First => 0,
        InsertPosition::Last => n as int,
        InsertPosition::Before(anchor) => anchor as int,
        InsertPosition::After(anchor) => anchor + 1,
    }
}

/// The node with its children from `start` up to `end` exchanged for
/// `to_insert`, in the same place of a tree that is otherwise the same.
pub fn replace_children(node: &SyntaxNode, start: usize, end: usize, to_insert: &Vec<GreenElement>) -> (r:
    SyntaxNode)
    requires
        start <= end <= node@.children().len(),
    ensures
        r@ == node@.with_children(
            spliced(node@.children(), start as int, end as int, trees(to_insert@)),
        ),
        r@.kind() == node@.kind(),
        r@.children() == spliced(node@.children(), start as int, end as int, trees(to_insert@)),
{
    let old_children = node.children_with_tokens();
    let mut children: Vec<GreenElement> = Vec::new();
    let mut i: usize = 0;
    while i < start
        invariant
            i <= start <= old_children@.len(),
            trees(children@) == trees(old_children@).subrange(0, i as int),
        decreases start - i,
    {
        proof {
            lemma_trees_push(children@, old_children@[i as int]);
        }
        children.push(old_children[i].share());
        proof {
            assert(trees(children@) =~= trees(old_children@).subrange(0, i + 1));
        }
        i = i + 1;
    }
    let mut k: usize = 0;
    proof {
        assert(trees(children@) =~= trees(old_children@).subrange(0, start as int) + trees(
            to_insert@,
        ).subrange(0, 0));
    }
    while k < to_insert.len()
        invariant
            k <= to_insert@.len(),
            start <= old_children@.len(),
            trees(children@) == trees(old_children@).subrange(0, start as int) + trees(
                to_insert@,
            ).subrange(0, k as int),
        decreases to_insert@.len() - k,
    {
        proof {
            lemma_trees_push(children@, to_insert@[k as int]);
        }
        children.push(to_insert[k].share());
        proof {
            assert(trees(children@) =~= trees(old_children@).subrange(0, start as int) + trees(
                to_insert@,
            ).subrange(0, k + 1));
        }
        k = k + 1;
    }
    let mut j: usize = end;
    proof {
        assert(trees(to_insert@).subrange(0, k as int) =~= trees(to_insert@));
        assert(trees(children@) =~= trees(old_children@).subrange(0, start as int) + trees(
            to_insert@,
        ) + trees(old_children@).subrange(end as int, end as int));
    }
    while j < old_children.len()
        invariant
            start <= end <= j <= old_children@.len(),
            trees(children@) == trees(old_children@).subrange(0, start as int) + trees(
                to_insert@,
            ) + trees(old_children@).subrange(end as int, j as int),
        decreases old_children@.len() - j,
    {
        proof {
            lemma_trees_push(children@, old_children@[j as int]);
        }
        children.push(old_children[j].share());
        proof {
            assert(trees(children@) =~= trees(old_children@).subrange(0, start as int) + trees(
                to_insert@,
            ) + trees(old_children@).subrange(end as int, j + 1));
        }
        j = j + 1;
    }
    node.with_children(children)
}

/// The node with `to_insert` put among its children at `position`, in the
/// same place of a tree that is otherwise the same.
pub fn insert_children(
    node: &SyntaxNode,
    position: InsertPosition<usize>,
    to_insert: &Vec<GreenElement>,
) -> (r: SyntaxNode)
    requires
        0 <= insertion_index(position, node@.children().len()) <= node@.children().len(),
    ensures
        r@ == node@.with_children(
            spliced(
                node@.children(),
                insertion_index(position, node@.children().len()),
                insertion_index(position, node@.children().len()),
                trees(to_insert@),
            ),
        ),
        r@.kind() == node@.kind(),
{
    let n = node.children_with_tokens().len();
    let at = match position {
        InsertPosition::First => 0,
        InsertPosition::Last => n,
        InsertPosition::Before(anchor) => anchor,
        InsertPosition::After(anchor) => anchor + 1,
    };
    replace_children(node, at, at, to_insert)
}

/// A blank-space token with the text `text`.
pub fn whitespace(text: Vec<char>) -> (r: GreenElement)
    ensures
        r@ == (Tree::Token { kind: SyntaxKind::WHITESPACE, text: text@ }),
{
    GreenElement::Token(Arc::new(GreenToken { kind: SyntaxKind::WHITESPACE, text }))
}

} // verus!
