//! Nodes in their place: a node of a tree together with the tree around
//! it.

use std::sync::Arc;
use vstd::prelude::*;
use crate::ext::shared::share;
use crate::syntax::green::{GreenElement, GreenNode, GreenToken, Tree, lemma_texts_grow, trees};
use crate::syntax::kind::SyntaxKind;
use crate::syntax::text::{lemma_utf8_size_add, string_of, utf8_size};

verus! {

/// A node in its place: the whole tree, and the way from its root to the
/// node.
pub struct SyntaxNode {
    root: Arc<GreenNode>,
    path: Vec<usize>,
}

/// A node in its place as a value.
pub struct NodeView {
    pub root: Tree,
    pub path: Seq<int>,
}

impl NodeView {
    /// The way leads to a node of the tree.
    pub open spec fn wf(self) -> bool {
        self.root.at(self.path) matches Some(Tree::Node { .. })
    }

    /// The node itself, without what is around it.
    pub open spec fn green(self) -> Tree {
        self.root.at(self.path)->0
    }

    pub open spec fn kind(self) -> SyntaxKind {
        self.green().kind()
    }

    /// What the node is made of, from left to right.
    pub open spec fn children(self) -> Seq<Tree> {
        self.green().children()
    }

    /// The text that the node stands for.
    pub open spec fn text(self) -> Seq<char> {
        self.green().text()
    }

    /// The same place in the tree that has `green` there.
    pub open spec fn with_green(self, green: Tree) -> NodeView {
        NodeView { root: self.root.replace_at(self.path, green), path: self.path }
    }

    /// The same node with other children, in the same place.
    pub open spec fn with_children(self, children: Seq<Tree>) -> NodeView {
        self.with_green(Tree::Node { kind: self.kind(), children })
    }

    /// The node `n` steps up from this one, in its place.
    pub open spec fn ancestor(self, n: nat) -> Option<NodeView> {
        if n <= self.path.len() {
            Some(NodeView { root: self.root, path: self.path.subrange(0, self.path.len() - n) })
        } else {
            None
        }
    }

    /// The child at `i`, in its place.
    pub open spec fn child(self, i: int) -> NodeView {
        NodeView { root: self.root, path: self.path.push(i) }
    }

    /// The number of bytes of text that stand before the node in the tree.
    pub open spec fn offset(self) -> nat {
        utf8_size(self.root.text_before(self.path))
    }

    /// The first token of the node and the tokens that stand before it in
    /// the tree, from left to right; nothing for a node without tokens.
    pub open spec fn leading_tokens(self) -> Seq<Tree> {
        if self.green().tokens().len() == 0 {
            Seq::empty()
        } else {
            self.root.tokens_before(self.path).push(self.green().tokens()[0])
        }
    }
}

/// The steps of a way as integers.
pub open spec fn steps(path: Seq<usize>) -> Seq<int> {
    Seq::new(path.len(), |i: int| path[i] as int)
}

impl View for SyntaxNode {
    type V = NodeView;

    closed spec fn view(&self) -> NodeView {
        NodeView { root: self.root@, path: steps(self.path@) }
    }
}

/// A way that leads somewhere still does after a step less.
pub proof fn lemma_at_prefix(t: Tree, path: Seq<int>, n: int)
    requires
        t.at(path) is Some,
        0 <= n <= path.len(),
    ensures
        t.at(path.subrange(0, n)) matches Some(sub) && sub.at(path.subrange(n, path.len() as int))
            == t.at(path),
        n < path.len() ==> (t.at(path.subrange(0, n)) matches Some(Tree::Node { children, .. })
            && 0 <= path[n] < children.len()),
    decreases path.len(),
{
    if n == 0 {
        assert(path.subrange(0, 0) =~= Seq::<int>::empty());
        assert(path.subrange(0, path.len() as int) =~= path);
    } else {
        let rest = path.drop_first();
        let child = t.children()[path[0]];
        lemma_at_prefix(child, rest, n - 1);
        assert(path.subrange(0, n).drop_first() =~= rest.subrange(0, n - 1));
        assert(path.subrange(n, path.len() as int) =~= rest.subrange(n - 1, rest.len() as int));
    }
}

/// A step more from where a way leads is a way to the child.
pub proof fn lemma_at_push(t: Tree, path: Seq<int>, i: int)
    requires
        t.at(path) is Some,
    ensures
        t.at(path.push(i)) == (if 0 <= i < t.at(path)->0.children().len() {
            Some(t.at(path)->0.children()[i])
        } else {
            None
        }),
    decreases path.len(),
{
    if path.len() == 0 {
        assert(path.push(i).drop_first() =~= Seq::<int>::empty());
        assert(path.push(i)[0] == i);
        if 0 <= i < t.children().len() {
            assert(t.children()[i].at(Seq::<int>::empty()) == Some(t.children()[i]));
        }
    } else {
        let child = t.children()[path[0]];
        lemma_at_push(child, path.drop_first(), i);
        assert(path.push(i).drop_first() =~= path.drop_first().push(i));
        assert(path.push(i)[0] == path[0]);
    }
}

/// What stands before a subtree, and the subtree, are part of the tree.
pub proof fn lemma_text_before(t: Tree, path: Seq<int>)
    requires
        t.at(path) is Some,
    ensures
        utf8_size(t.text_before(path)) + t.at(path)->0.size() <= t.size(),
    decreases path.len(),
{
    if path.len() > 0 {
        let child = t.children()[path[0]];
        lemma_text_before(child, path.drop_first());
        lemma_texts_grow(t.children(), path[0], t.children().len() as int);
        lemma_utf8_size_add(Tree::texts(t.children(), path[0]), child.text_before(path.drop_first()));
    }
}

/// What is put at the end of a way is found there.
pub proof fn lemma_replace_at(t: Tree, path: Seq<int>, new: Tree)
    requires
        t.at(path) is Some,
    ensures
        t.replace_at(path, new).at(path) == Some(new),
    decreases path.len(),
{
    if path.len() > 0 {
        lemma_replace_at(t.children()[path[0]], path.drop_first(), new);
    }
}

impl SyntaxNode {
    /// A node holds its place: its way leads to a node of its tree.
    #[verifier::type_invariant]
    pub open spec fn inv(self) -> bool {
        self@.wf()
    }

    /// The tree `green` as a node in no other place than its own.
    pub fn new_root(green: GreenNode) -> (r: SyntaxNode)
        ensures
            r@ == (NodeView { root: green@, path: Seq::empty() }),
            r@.wf(),
    {
        let r = SyntaxNode { root: Arc::new(green), path: Vec::new() };
        assert(r@.path =~= Seq::<int>::empty());
        r
    }

    /// Another handle to the same node in the same place.
    pub fn share(&self) -> (r: SyntaxNode)
        ensures
            r@ == self@,
    {
        proof {
            use_type_invariant(self);
        }
        let mut path: Vec<usize> = Vec::new();
        let mut i: usize = 0;
        while i < self.path.len()
            invariant
                i <= self.path@.len(),
                path@ == self.path@.subrange(0, i as int),
            decreases self.path@.len() - i,
        {
            path.push(self.path[i]);
            assert(path@ =~= self.path@.subrange(0, i + 1));
            i = i + 1;
        }
        assert(path@ =~= self.path@);
        SyntaxNode { root: share(&self.root), path }
    }

    /// The node itself, without what is around it.
    pub fn green(&self) -> (r: &GreenNode)
        ensures
            r@ == self@.green(),
            self@.wf(),
    {
        let handle = self.green_handle();
        handle
    }

    /// The node itself as an element that another tree can hold.
    pub fn green_element(&self) -> (r: GreenElement)
        ensures
            r@ == self@.green(),
            r is Node,
    {
        GreenElement::Node(share(self.green_handle()))
    }

    /// The handle to the node itself, which another tree can share.
    fn green_handle(&self) -> (r: &Arc<GreenNode>)
        ensures
            r@ == self@.green(),
            self@.wf(),
    {
        proof {
            use_type_invariant(self);
        }
        let ghost way = steps(self.path@);
        let mut cur: &Arc<GreenNode> = &self.root;
        let mut d: usize = 0;
        proof {
            assert(way.subrange(0, way.len() as int) =~= way);
        }
        while d < self.path.len()
            invariant
                d <= self.path@.len(),
                way == steps(self.path@),
                self.root@.at(way) matches Some(Tree::Node { .. }),
                cur@.at(way.subrange(d as int, way.len() as int)) == self.root@.at(way),
            decreases self.path@.len() - d,
        {
            let ghost rest = way.subrange(d as int, way.len() as int);
            proof {
                assert(rest[0] == self.path@[d as int]);
                assert(rest.drop_first() =~= way.subrange(d + 1, way.len() as int));
                assert(cur@.children().len() == cur.children@.len());
            }
            let idx = self.path[d];
            match &cur.children[idx] {
                GreenElement::Node(n) => {
                    proof {
                        assert(cur@.children()[idx as int] == n@);
                    }
                    cur = n;
                },
                GreenElement::Token(t) => {
                    proof {
                        assert(cur@.children()[idx as int] == t@);
                        assert(t@.at(rest.drop_first()) == self.root@.at(way));
                        if rest.drop_first().len() > 0 {
                            assert(t@.children().len() == 0);
                        }
                        assert(false);
                    }
                },
            }
            d = d + 1;
        }
        proof {
            assert(way.subrange(way.len() as int, way.len() as int) =~= Seq::<int>::empty());
        }
        cur
    }

    pub fn kind(&self) -> (r: SyntaxKind)
        ensures
            r == self@.kind(),
    {
        self.green().kind
    }

    /// What the node is made of, from left to right.
    pub fn children_with_tokens(&self) -> (r: &Vec<GreenElement>)
        ensures
            trees(r@) == self@.children(),
            r@.len() == self@.children().len(),
            r@.len() <= usize::MAX,
            self@.wf(),
    {
        let g = self.green();
        assert(trees(g.children@) =~= g@.children());
        assert(g.children.len() <= usize::MAX);
        &g.children
    }

    /// The child at `i` in its place, where it is a node.
    pub fn child(&self, i: usize) -> (r: Option<SyntaxNode>)
        ensures
            match r {
                Some(c) => i < self@.children().len() && self@.children()[i as int] is Node && c@
                    == self@.child(i as int) && c@.green() == self@.children()[i as int],
                None => !(i < self@.children().len() && self@.children()[i as int] is Node),
            },
    {
        let children = self.children_with_tokens();
        if i >= children.len() {
            return None;
        }
        proof {
            assert(self@.children()[i as int] == children@[i as int]@);
        }
        match &children[i] {
            GreenElement::Token(_) => None,
            GreenElement::Node(_) => {
                let shared = self.share();
                let mut path = shared.path;
                path.push(i);
                proof {
                    use_type_invariant(self);
                    lemma_at_push(self.root@, steps(self.path@), i as int);
                    assert(steps(path@) =~= steps(self.path@).push(i as int));
                }
                Some(SyntaxNode { root: shared.root, path })
            },
        }
    }

    /// The way from the root of the tree to the node.
    pub fn path(&self) -> (r: &Vec<usize>)
        ensures
            steps(r@) == self@.path,
    {
        &self.path
    }

    /// The child at `i` in its place, node or token.
    pub fn child_or_token(&self, i: usize) -> (r: Option<SyntaxElement>)
        ensures
            match r {
                Some(e) => i < self@.children().len() && e@ == self@.child(i as int) && e@.green()
                    == self@.children()[i as int] && (e is Node <==> self@.children()[i as int]
                    is Node),
                None => i >= self@.children().len(),
            },
    {
        let children = self.children_with_tokens();
        if i >= children.len() {
            return None;
        }
        proof {
            assert(self@.children()[i as int] == children@[i as int]@);
        }
        let shared = self.share();
        let mut path = shared.path;
        path.push(i);
        proof {
            use_type_invariant(self);
            lemma_at_push(self.root@, steps(self.path@), i as int);
            assert(steps(path@) =~= steps(self.path@).push(i as int));
        }
        match &children[i] {
            GreenElement::Token(_) => Some(
                SyntaxElement::Token(SyntaxToken { root: shared.root, path }),
            ),
            GreenElement::Node(_) => Some(
                SyntaxElement::Node(SyntaxNode { root: shared.root, path }),
            ),
        }
    }

    /// What follows the node among the children of its parent, in its
    /// place.
    pub fn next_sibling_or_token(&self) -> (r: Option<SyntaxElement>)
        ensures
            match r {
                Some(e) => self@.path.len() > 0 && e@.root == self@.root && e@.path
                    == self@.path.drop_last().push(self@.path.last() + 1) && e@.root.at(e@.path)
                    is Some,
                None => self@.path.len() == 0 || self@.root.at(
                    self@.path.drop_last().push(self@.path.last() + 1),
                ) is None,
            },
    {
        let parent = match self.parent() {
            Some(p) => p,
            None => {
                return None;
            },
        };
        let index = match self.index_in_parent() {
            Some(i) => i,
            None => {
                return None;
            },
        };
        let siblings = parent.children_with_tokens();
        proof {
            use_type_invariant(self);
            lemma_at_push(self.root@, parent@.path, index as int);
            assert(index < siblings@.len()) by {
                assert(self@.path =~= parent@.path.push(index as int));
            }
            lemma_at_push(self.root@, parent@.path, index + 1);
            assert(self@.path =~= parent@.path.push(index as int));
        }
        parent.child_or_token(index + 1)
    }

    /// The node that this one is a child of, in its place; nothing for the
    /// root.
    pub fn parent(&self) -> (r: Option<SyntaxNode>)
        ensures
            match r {
                Some(p) => self@.path.len() > 0 && p@ == (NodeView {
                    root: self@.root,
                    path: self@.path.drop_last(),
                }) && p@.wf() && self@ == p@.child(self@.path.last()),
                None => self@.path.len() == 0,
            },
    {
        if self.path.len() == 0 {
            return None;
        }
        let shared = self.share();
        let mut path = shared.path;
        let last = path.pop();
        proof {
            use_type_invariant(self);
            let way = steps(self.path@);
            lemma_at_prefix(self.root@, way, way.len() - 1);
            assert(steps(path@) =~= way.drop_last());
            assert(way.subrange(0, way.len() - 1) =~= way.drop_last());
            assert(way.drop_last().push(way.last()) =~= way);
        }
        Some(SyntaxNode { root: shared.root, path })
    }

    /// Whether the two nodes stand in the same place of their trees.
    pub fn same_place(&self, other: &SyntaxNode) -> (r: bool)
        ensures
            r == (self@.path == other@.path),
    {
        if self.path.len() != other.path.len() {
            assert(self@.path.len() != other@.path.len());
            return false;
        }
        let mut i: usize = 0;
        while i < self.path.len()
            invariant
                i <= self.path@.len(),
                self.path@.len() == other.path@.len(),
                forall|j: int| 0 <= j < i ==> self.path@[j] == other.path@[j],
            decreases self.path@.len() - i,
        {
            if self.path[i] != other.path[i] {
                assert(self@.path[i as int] != other@.path[i as int]);
                return false;
            }
            i = i + 1;
        }
        assert(self@.path =~= other@.path);
        true
    }

    /// The index of the node among the children of its parent; nothing for
    /// the root.
    pub fn index_in_parent(&self) -> (r: Option<usize>)
        ensures
            match r {
                Some(i) => self@.path.len() > 0 && i == self@.path.last(),
                None => self@.path.len() == 0,
            },
    {
        if self.path.len() == 0 {
            None
        } else {
            Some(self.path[self.path.len() - 1])
        }
    }

    /// The same node with other children, in the same place of a tree that
    /// is otherwise the same.
    pub fn with_children(&self, children: Vec<GreenElement>) -> (r: SyntaxNode)
        ensures
            r@ == self@.with_children(trees(children@)),
            r@.kind() == self@.kind(),
            r@.children() == trees(children@),
    {
        let kind = self.kind();
        let new = GreenNode::new(kind, children);
        proof {
            use_type_invariant(self);
            lemma_replace_at(self.root@, steps(self.path@), new@);
            assert(steps(self.path@).subrange(0, steps(self.path@).len() as int) =~= steps(
                self.path@,
            ));
        }
        let root = replace_in(&self.root, &self.path, 0, new);
        let shared = self.share();
        SyntaxNode { root: Arc::new(root), path: shared.path }
    }

    /// The text that the node stands for.
    pub fn text(&self) -> (r: Vec<char>)
        ensures
            r@ == self@.text(),
    {
        let mut out: Vec<char> = Vec::new();
        push_text_of_node(self.green(), &mut out);
        out
    }

    /// The text that the node stands for, as a string.
    pub fn to_string(&self) -> (r: String)
        ensures
            r@ == self@.text(),
    {
        let text = self.text();
        string_of(text.as_slice())
    }

    /// The number of bytes of text that stand before the node in the tree,
    /// for a tree whose size a machine word holds.
    pub fn text_offset(&self) -> (r: usize)
        requires
            self@.root.size() <= usize::MAX,
        ensures
            r == self@.offset(),
            r + self@.green().size() <= self@.root.size(),
    {
        proof {
            use_type_invariant(self);
        }
        let ghost way = steps(self.path@);
        let ghost total = utf8_size(self.root@.text_before(way));
        let mut cur: &GreenNode = &self.root;
        let mut acc: usize = 0;
        let mut d: usize = 0;
        proof {
            assert(way.subrange(0, way.len() as int) =~= way);
            lemma_text_before(self.root@, way);
        }
        while d < self.path.len()
            invariant
                d <= self.path@.len(),
                way == steps(self.path@),
                self.root@.at(way) matches Some(Tree::Node { .. }),
                cur@.at(way.subrange(d as int, way.len() as int)) == self.root@.at(way),
                total == utf8_size(self.root@.text_before(way)),
                total + self.root@.at(way)->0.size() <= self.root@.size() <= usize::MAX,
                acc + utf8_size(cur@.text_before(way.subrange(d as int, way.len() as int)))
                    == total,
                acc + cur@.size() <= usize::MAX,
            decreases self.path@.len() - d,
        {
            let ghost rest = way.subrange(d as int, way.len() as int);
            proof {
                assert(rest[0] == self.path@[d as int]);
                assert(rest.drop_first() =~= way.subrange(d + 1, way.len() as int));
                assert(cur@.children().len() == cur.children@.len());
            }
            let idx = self.path[d];
            let ghost start = acc;
            proof {
                lemma_utf8_size_add(
                    Tree::texts(cur@.children(), idx as int),
                    cur@.children()[idx as int].text_before(rest.drop_first()),
                );
            }
            let mut k: usize = 0;
            while k < idx
                invariant
                    k <= idx < cur.children@.len(),
                    cur@.children().len() == cur.children@.len(),
                    acc == start + utf8_size(Tree::texts(cur@.children(), k as int)),
                    start + cur@.size() <= usize::MAX,
                decreases idx - k,
            {
                proof {
                    assert(cur@.children()[k as int] == cur.children@[k as int]@);
                    lemma_texts_grow(cur@.children(), k as int, cur.children@.len() as int);
                }
                acc = acc + cur.children[k].byte_size();
                k = k + 1;
            }
            proof {
                lemma_texts_grow(cur@.children(), idx as int, cur.children@.len() as int);
            }
            match &cur.children[idx] {
                GreenElement::Node(n) => {
                    proof {
                        assert(cur@.children()[idx as int] == n@);
                    }
                    cur = n;
                },
                GreenElement::Token(t) => {
                    proof {
                        assert(cur@.children()[idx as int] == t@);
                        assert(t@.at(rest.drop_first()) == self.root@.at(way));
                        if rest.drop_first().len() > 0 {
                            assert(t@.children().len() == 0);
                        }
                        assert(false);
                    }
                },
            }
            d = d + 1;
        }
        proof {
            assert(way.subrange(way.len() as int, way.len() as int) =~= Seq::<int>::empty());
        }
        acc
    }

    /// The first token of the node and the tokens that stand before it in
    /// the tree, from left to right.
    pub fn leading_tokens(&self) -> (r: Vec<Arc<GreenToken>>)
        ensures
            token_trees(r@) == self@.leading_tokens(),
    {
        proof {
            use_type_invariant(self);
        }
        let mut own: Vec<Arc<GreenToken>> = Vec::new();
        push_tokens_of_node(self.green(), &mut own);
        let mut out: Vec<Arc<GreenToken>> = Vec::new();
        if own.len() == 0 {
            assert(token_trees(out@) =~= self@.leading_tokens());
            return out;
        }
        let ghost way = steps(self.path@);
        let mut cur: &GreenNode = &self.root;
        let mut d: usize = 0;
        proof {
            assert(way.subrange(0, way.len() as int) =~= way);
            assert(token_trees(out@) + self.root@.tokens_before(way) =~= self.root@.tokens_before(
                way,
            ));
        }
        while d < self.path.len()
            invariant
                d <= self.path@.len(),
                way == steps(self.path@),
                self.root@.at(way) matches Some(Tree::Node { .. }),
                cur@.at(way.subrange(d as int, way.len() as int)) == self.root@.at(way),
                token_trees(out@) + cur@.tokens_before(way.subrange(d as int, way.len() as int))
                    == self.root@.tokens_before(way),
            decreases self.path@.len() - d,
        {
            let ghost rest = way.subrange(d as int, way.len() as int);
            proof {
                assert(rest[0] == self.path@[d as int]);
                assert(rest.drop_first() =~= way.subrange(d + 1, way.len() as int));
                assert(cur@.children().len() == cur.children@.len());
            }
            let idx = self.path[d];
            let ghost before = token_trees(out@);
            let mut k: usize = 0;
            proof {
                assert(token_trees(out@) =~= before + Tree::tokens_of(cur@.children(), 0));
            }
            while k < idx
                invariant
                    k <= idx < cur.children@.len(),
                    cur@.children().len() == cur.children@.len(),
                    token_trees(out@) == before + Tree::tokens_of(cur@.children(), k as int),
                decreases idx - k,
            {
                push_tokens_of(&cur.children[k], &mut out);
                proof {
                    assert(cur@.children()[k as int] == cur.children@[k as int]@);
                    assert(token_trees(out@) =~= before + Tree::tokens_of(cur@.children(), k + 1));
                }
                k = k + 1;
            }
            match &cur.children[idx] {
                GreenElement::Node(n) => {
                    proof {
                        assert(cur@.children()[idx as int] == n@);
                        assert(token_trees(out@) + n@.tokens_before(rest.drop_first()) =~= before
                            + cur@.tokens_before(rest));
                    }
                    cur = n;
                },
                GreenElement::Token(t) => {
                    proof {
                        assert(cur@.children()[idx as int] == t@);
                        assert(t@.at(rest.drop_first()) == self.root@.at(way));
                        if rest.drop_first().len() > 0 {
                            assert(t@.children().len() == 0);
                        }
                        assert(false);
                    }
                },
            }
            d = d + 1;
        }
        proof {
            assert(way.subrange(way.len() as int, way.len() as int) =~= Seq::<int>::empty());
            assert(token_trees(out@) =~= self.root@.tokens_before(way));
            assert(token_trees(own@)[0] == own@[0]@);
        }
        out.push(share(&own[0]));
        proof {
            assert(token_trees(out@) =~= self@.leading_tokens());
        }
        out
    }
}

/// A token in its place: the whole tree, and the way from its root to the
/// token.
pub struct SyntaxToken {
    root: Arc<GreenNode>,
    path: Vec<usize>,
}

impl View for SyntaxToken {
    type V = NodeView;

    closed spec fn view(&self) -> NodeView {
        NodeView { root: self.root@, path: steps(self.path@) }
    }
}

impl SyntaxToken {
    /// A token holds its place: its way leads to a token of its tree.
    #[verifier::type_invariant]
    pub open spec fn inv(self) -> bool {
        self@.root.at(self@.path) matches Some(Tree::Token { .. })
    }

    /// The token itself, without what is around it.
    pub fn green(&self) -> (r: &Arc<GreenToken>)
        ensures
            r@ == self@.green(),
            r@ is Token,
            self@.path.len() > 0,
    {
        proof {
            use_type_invariant(self);
        }
        let ghost way = steps(self.path@);
        let mut cur: &GreenNode = &self.root;
        let mut d: usize = 0;
        proof {
            assert(way.subrange(0, way.len() as int) =~= way);
            assert(self.root@ is Node);
            assert(way.len() > 0);
        }
        let last = self.path.len() - 1;
        while d < last
            invariant
                d <= last,
                last + 1 == self.path@.len(),
                way == steps(self.path@),
                self.root@.at(way) matches Some(Tree::Token { .. }),
                cur@.at(way.subrange(d as int, way.len() as int)) == self.root@.at(way),
            decreases self.path@.len() - d,
        {
            let ghost rest = way.subrange(d as int, way.len() as int);
            proof {
                assert(rest[0] == self.path@[d as int]);
                assert(rest.drop_first() =~= way.subrange(d + 1, way.len() as int));
                assert(cur@.children().len() == cur.children@.len());
            }
            let idx = self.path[d];
            match &cur.children[idx] {
                GreenElement::Node(n) => {
                    proof {
                        assert(cur@.children()[idx as int] == n@);
                    }
                    cur = n;
                },
                GreenElement::Token(t) => {
                    proof {
                        assert(cur@.children()[idx as int] == t@);
                        assert(rest.drop_first().len() > 0);
                        assert(t@.children().len() == 0);
                        assert(t@.at(rest.drop_first()) is None);
                        assert(false);
                    }
                },
            }
            d = d + 1;
        }
        let ghost rest = way.subrange(d as int, way.len() as int);
        proof {
            assert(rest[0] == self.path@[d as int]);
            assert(rest.drop_first() =~= Seq::<int>::empty());
            assert(cur@.children().len() == cur.children@.len());
        }
        let idx = self.path[d];
        match &cur.children[idx] {
            GreenElement::Token(t) => {
                proof {
                    assert(cur@.children()[idx as int] == t@);
                    assert(t@.at(rest.drop_first()) == Some(t@));
                }
                t
            },
            GreenElement::Node(n) => {
                proof {
                    assert(cur@.children()[idx as int] == n@);
                    assert(n@.at(rest.drop_first()) == Some(n@));
                    assert(false);
                }
                vstd::pervasive::unreached()
            },
        }
    }

    pub fn kind(&self) -> (r: SyntaxKind)
        ensures
            r == self@.kind(),
    {
        self.green().kind
    }

    /// The text of the token.
    pub fn text(&self) -> (r: &Vec<char>)
        ensures
            r@ == self@.green().token_text(),
    {
        &self.green().text
    }
}

/// A node or a token in its place.
pub enum SyntaxElement {
    Node(SyntaxNode),
    Token(SyntaxToken),
}

impl View for SyntaxElement {
    type V = NodeView;

    open spec fn view(&self) -> NodeView {
        match self {
            SyntaxElement::Node(n) => n@,
            SyntaxElement::Token(t) => t@,
        }
    }
}

impl SyntaxElement {
    /// The way from the root of the tree to the element.
    pub fn path(&self) -> (r: &Vec<usize>)
        ensures
            steps(r@) == self@.path,
    {
        match self {
            SyntaxElement::Node(n) => &n.path,
            SyntaxElement::Token(t) => &t.path,
        }
    }

    /// The element itself, without what is around it.
    pub fn green(&self) -> (r: GreenElement)
        ensures
            r@ == self@.green(),
    {
        match self {
            SyntaxElement::Node(n) => n.green_element(),
            SyntaxElement::Token(t) => GreenElement::Token(share(t.green())),
        }
    }

    pub fn kind(&self) -> (r: SyntaxKind)
        ensures
            r == self@.kind(),
    {
        match self {
            SyntaxElement::Node(n) => n.kind(),
            SyntaxElement::Token(t) => t.kind(),
        }
    }
}

impl Clone for SyntaxNode {
    fn clone(&self) -> (r: SyntaxNode)
        ensures
            r@ == self@,
    {
        self.share()
    }
}

/// The trees of tokens, in order.
pub open spec fn token_trees(tokens: Seq<Arc<GreenToken>>) -> Seq<Tree> {
    Seq::new(tokens.len(), |i: int| tokens[i]@)
}

/// The tree `node` with `new` in place of what the rest of `path` from
/// `depth` on leads to.
fn replace_in(node: &GreenNode, path: &Vec<usize>, depth: usize, new: GreenNode) -> (r: GreenNode)
    requires
        depth <= path@.len(),
        node@.at(steps(path@).subrange(depth as int, path@.len() as int)) is Some,
    ensures
        r@ == node@.replace_at(steps(path@).subrange(depth as int, path@.len() as int), new@),
    decreases path@.len() - depth,
{
    if depth == path.len() {
        proof {
            assert(steps(path@).subrange(depth as int, path@.len() as int) =~= Seq::<int>::empty());
        }
        return new;
    }
    let ghost rest = steps(path@).subrange(depth as int, path@.len() as int);
    proof {
        assert(rest[0] == path@[depth as int]);
        assert(rest.drop_first() =~= steps(path@).subrange(depth + 1, path@.len() as int));
        assert(node@.children().len() == node.children@.len());
    }
    let idx = path[depth];
    let replaced = match &node.children[idx] {
        GreenElement::Node(n) => {
            proof {
                assert(node@.children()[idx as int] == n@);
            }
            GreenElement::Node(Arc::new(replace_in(n, path, depth + 1, new)))
        },
        GreenElement::Token(t) => {
            proof {
                assert(node@.children()[idx as int] == t@);
                assert(t@.children().len() == 0);
            }
            // a way goes on through nodes only, so it ends here
            if depth + 1 == path.len() {
                proof {
                    assert(rest.drop_first() =~= Seq::<int>::empty());
                }
                GreenElement::Node(Arc::new(new))
            } else {
                proof {
                    assert(rest.drop_first().len() > 0);
                    assert(t@.at(rest.drop_first()) is None);
                    assert(false);
                }
                GreenElement::Token(share(t))
            }
        },
    };
    let ghost target = node@.children()[idx as int].replace_at(rest.drop_first(), new@);
    let mut children: Vec<GreenElement> = Vec::new();
    let mut i: usize = 0;
    while i < node.children.len()
        invariant
            i <= node.children@.len(),
            idx < node.children@.len(),
            replaced@ == target,
            children@.len() == i,
            forall|j: int|
                0 <= j < i ==> (#[trigger] children@[j])@ == (if j == idx {
                    target
                } else {
                    node.children@[j]@
                }),
        decreases node.children@.len() - i,
    {
        if i == idx {
            children.push(replaced.share());
        } else {
            children.push(node.children[i].share());
        }
        i = i + 1;
    }
    let r = GreenNode { kind: node.kind, children };
    proof {
        assert(r@.children() =~= node@.children().update(idx as int, target));
    }
    r
}

/// Appends the text of `node` to `out`.
fn push_text_of_node(node: &GreenNode, out: &mut Vec<char>)
    ensures
        final(out)@ == old(out)@ + node@.text(),
    decreases node,
{
    let mut i: usize = 0;
    proof {
        assert(out@ =~= old(out)@ + Tree::texts(node@.children(), 0));
    }
    while i < node.children.len()
        invariant
            i <= node.children@.len(),
            node@.children().len() == node.children@.len(),
            out@ == old(out)@ + Tree::texts(node@.children(), i as int),
        decreases node.children@.len() - i,
    {
        let ghost sofar = out@;
        proof {
            assert(node@.children()[i as int] == node.children@[i as int]@);
        }
        match &node.children[i] {
            GreenElement::Node(n) => {
                push_text_of_node(n, out);
                assert(node@.children()[i as int].text() == n@.text());
            },
            GreenElement::Token(t) => {
                assert(node@.children()[i as int].text() == t.text@);
                assert(out@ =~= sofar + t.text@.subrange(0, 0));
                let mut k: usize = 0;
                while k < t.text.len()
                    invariant
                        k <= t.text@.len(),
                        out@ == sofar + t.text@.subrange(0, k as int),
                    decreases t.text@.len() - k,
                {
                    out.push(t.text[k]);
                    assert(out@ =~= sofar + t.text@.subrange(0, k + 1));
                    k = k + 1;
                }
                assert(t.text@.subrange(0, k as int) =~= t.text@);
            },
        }
        proof {
            assert(out@ =~= old(out)@ + Tree::texts(node@.children(), i + 1));
        }
        i = i + 1;
    }
}

/// Appends the tokens of `element` to `out`.
fn push_tokens_of(element: &GreenElement, out: &mut Vec<Arc<GreenToken>>)
    ensures
        token_trees(final(out)@) == token_trees(old(out)@) + element@.tokens(),
    decreases element, 1int,
{
    match element {
        GreenElement::Node(n) => {
            push_tokens_of_node(n, out);
        },
        GreenElement::Token(t) => {
            out.push(share(t));
            proof {
                assert(token_trees(out@) =~= token_trees(old(out)@) + element@.tokens());
            }
        },
    }
}

/// Appends the tokens of `node` to `out`.
fn push_tokens_of_node(node: &GreenNode, out: &mut Vec<Arc<GreenToken>>)
    ensures
        token_trees(final(out)@) == token_trees(old(out)@) + node@.tokens(),
    decreases node, 0int,
{
    let mut i: usize = 0;
    proof {
        assert(token_trees(out@) =~= token_trees(old(out)@) + Tree::tokens_of(
            node@.children(),
            0,
        ));
    }
    while i < node.children.len()
        invariant
            i <= node.children@.len(),
            node@.children().len() == node.children@.len(),
            token_trees(out@) == token_trees(old(out)@) + Tree::tokens_of(
                node@.children(),
                i as int,
            ),
        decreases node.children@.len() - i,
    {
        proof {
            assert(node@.children()[i as int] == node.children@[i as int]@);
        }
        push_tokens_of(&node.children[i], out);
        proof {
            assert(token_trees(out@) =~= token_trees(old(out)@) + Tree::tokens_of(
                node@.children(),
                i + 1,
            ));
        }
        i = i + 1;
    }
}

} // verus!
