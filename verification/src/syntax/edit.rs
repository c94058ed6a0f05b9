//! Edits of syntax trees. A tree is never changed: every edit gives a tree
//! of its own, with the edited node in the place of the old one and
//! everything around it as it was.

use std::sync::Arc;
use vstd::pervasive::unreached;
use vstd::prelude::*;
use crate::ext::array_vec::{
    insertion_insert, insertion_into_vec, insertion_items, insertion_new, insertion_pop,
    insertion_push,
};
use crate::syntax::algo::{
    InsertPosition, find_kind, find_token, first_where, insert_children, insertion_index,
    last_where, lemma_first_where_found, lemma_first_where_none, lemma_last_where_found,
    lemma_last_where_none, of_kind, replace_children, spliced, token_of_kind, whitespace,
};
use crate::syntax::ast::{
    Alias, AstNode, BinExpr, Block, BlockExpr, FnDef, ImplItem, ItemList, MatchArm, MatchArmList,
    Pat, Path, PathSegment, RecordField, RecordFieldList, TypeArgList, TypeBoundList, TypeParam,
    UseItem, UseTree, UseTreeList, castable, child, find_child, find_last_child,
};
use crate::syntax::green::{GreenElement, GreenNode, Tree, lemma_trees_push, trees};
use crate::syntax::kind::SyntaxKind;
use crate::syntax::make;
use crate::syntax::make::{
    blank, fixed_token, greens, qualified_children, root_of, single_space, token,
    unqualified_children, use_tree_children, use_tree_list_children,
};
use crate::syntax::node::{NodeView, SyntaxElement, SyntaxNode, lemma_at_push, token_trees};
use crate::syntax::rewriter::{ReplacementView, SyntaxRewriter, rewritten_children};
use crate::syntax::text::{
    after_last_newline, blanks, chars_of, contains_newline, dedent, has_newline, join, pad,
    remove_indent, suffix_after_last_newline,
};

verus! {

/// The indentation that the first `n` of `tokens` end with, read from the
/// right: what follows the last line break of the first blank-space token
/// that holds one. Another token that holds a line break ends the search.
pub open spec fn indent_in(tokens: Seq<Tree>, n: int) -> Option<Seq<char>>
    decreases n,
{
    if n <= 0 || n > tokens.len() {
        None
    } else {
        let token = tokens[n - 1];
        if token.kind() == SyntaxKind::WHITESPACE && has_newline(token.token_text()) {
            Some(after_last_newline(token.token_text()))
        } else if has_newline(token.token_text()) {
            None
        } else {
            indent_in(tokens, n - 1)
        }
    }
}

/// The indentation of the line on which the node starts.
pub open spec fn spec_leading_indent(node: NodeView) -> Option<Seq<char>> {
    indent_in(node.leading_tokens(), node.leading_tokens().len() as int)
}

/// The indentation of the line on which the node starts: the blank space
/// between the last line break before the node and the node. Nothing where
/// no line break stands before the node, or where the last one stands
/// inside a token that is no blank space.
pub fn leading_indent(node: &SyntaxNode) -> (r: Option<Vec<char>>)
    ensures
        match r {
            Some(indent) => spec_leading_indent(node@) == Some(indent@),
            None => spec_leading_indent(node@) is None,
        },
{
    let tokens = node.leading_tokens();
    let ghost all = token_trees(tokens@);
    let mut i: usize = tokens.len();
    while i > 0
        invariant
            i <= tokens@.len(),
            all == token_trees(tokens@),
            all == node@.leading_tokens(),
            indent_in(all, all.len() as int) == indent_in(all, i as int),
        decreases i,
    {
        let token = &tokens[i - 1];
        proof {
            assert(all[i - 1] == token@);
        }
        if token.kind == SyntaxKind::WHITESPACE {
            if let Some(tail) = suffix_after_last_newline(token.text.as_slice()) {
                return Some(tail);
            }
        }
        if contains_newline(token.text.as_slice()) {
            return None;
        }
        i = i - 1;
    }
    None
}

/// The depth of the indentation that the first `n` of `tokens` end with,
/// read from the right: a quarter of what follows the last line break of
/// the first blank-space token that holds one.
pub open spec fn level_in(tokens: Seq<Tree>, n: int) -> nat
    decreases n,
{
    if n <= 0 || n > tokens.len() {
        0
    } else {
        let token = tokens[n - 1];
        if token.kind() == SyntaxKind::WHITESPACE && has_newline(token.token_text()) {
            after_last_newline(token.token_text()).len() / 4
        } else {
            level_in(tokens, n - 1)
        }
    }
}

/// The text of a blank-space token after a shift by `width` blanks: with
/// the blanks appended when the indentation grows, and with as many blanks
/// taken out after every line break when it shrinks.
pub open spec fn shifted_text(text: Seq<char>, width: nat, increase: bool) -> Seq<char> {
    if increase {
        text + blanks(width)
    } else {
        dedent(text, width)
    }
}

/// The tree with every blank-space token that holds a line break shifted.
pub open spec fn shifted(t: Tree, width: nat, increase: bool) -> Tree
    decreases t,
{
    match t {
        Tree::Token { kind, text } => if kind == SyntaxKind::WHITESPACE && has_newline(text) {
            Tree::Token { kind, text: shifted_text(text, width, increase) }
        } else {
            t
        },
        Tree::Node { kind, children } => Tree::Node {
            kind,
            children: Seq::new(
                children.len(),
                |i: int|
                    if 0 <= i < children.len() {
                        shifted(children[i], width, increase)
                    } else {
                        t
                    },
            ),
        },
    }
}

/// The children of a node, each shifted.
pub open spec fn shifted_children(node: Tree, width: nat, increase: bool) -> Seq<Tree> {
    shifted(node, width, increase).children()
}

/// The children of `node`, each with its blank-space tokens shifted.
fn shift_children(node: &GreenNode, width: usize, increase: bool) -> (r: Vec<GreenElement>)
    ensures
        trees(r@) == shifted_children(node@, width as nat, increase),
    decreases node,
{
    let mut out: Vec<GreenElement> = Vec::new();
    let mut i: usize = 0;
    while i < node.children.len()
        invariant
            i <= node.children@.len(),
            node@.children().len() == node.children@.len(),
            out@.len() == i,
            forall|j: int|
                0 <= j < i ==> (#[trigger] out@[j])@ == shifted(
                    node@.children()[j],
                    width as nat,
                    increase,
                ),
        decreases node.children@.len() - i,
    {
        proof {
            assert(node@.children()[i as int] == node.children@[i as int]@);
        }
        let shifted_child = match &node.children[i] {
            GreenElement::Node(n) => {
                let children = shift_children(n, width, increase);
                let new = GreenNode { kind: n.kind, children };
                proof {
                    assert(new@.children() =~= shifted(n@, width as nat, increase).children());
                }
                GreenElement::Node(Arc::new(new))
            },
            GreenElement::Token(t) => {
                if t.kind == SyntaxKind::WHITESPACE && contains_newline(t.text.as_slice()) {
                    let text = if increase {
                        pad(t.text.as_slice(), width)
                    } else {
                        remove_indent(t.text.as_slice(), width)
                    };
                    whitespace(text)
                } else {
                    node.children[i].share()
                }
            },
        };
        out.push(shifted_child);
        i = i + 1;
    }
    proof {
        assert(trees(out@) =~= shifted_children(node@, width as nat, increase));
    }
    out
}

/// The node `syntax` taken as `N`, for a node of a kind that `N` stands
/// for.
fn recast<N: AstNode>(syntax: SyntaxNode) -> (r: N)
    requires
        N::can_cast(syntax@.kind()),
    ensures
        r@ == syntax@,
{
    match N::cast(syntax) {
        Some(n) => n,
        None => unreached(),
    }
}

/// One element as a list.
fn single(element: GreenElement) -> (r: Vec<GreenElement>)
    ensures
        trees(r@) == seq![element@],
{
    let mut r: Vec<GreenElement> = Vec::new();
    r.push(element);
    proof {
        assert(trees(r@) =~= seq![element@]);
    }
    r
}

/// The node with `new` in place of its first child that can be taken as
/// `C`; the node as it is where it has no such child.
pub open spec fn with_first_replaced<C: AstNode>(node: NodeView, new: Tree) -> NodeView {
    match first_where(node.children(), castable::<C>(), 0) {
        Some(i) => node.with_children(spliced(node.children(), i, i + 1, seq![new])),
        None => node,
    }
}

/// The node with `new` in place of its first child that can be taken as
/// `C`.
fn replace_first_child<N: AstNode, C: AstNode>(node: &N, new: &C) -> (r: N)
    ensures
        r@ == with_first_replaced::<C>(node@, new@.green()),
{
    let syntax = node.syntax();
    match find_child::<C>(syntax.children_with_tokens(), 0) {
        Some(i) => {
            let to_insert = single(new.syntax().green_element());
            recast(replace_children(syntax, i, i + 1, &to_insert))
        },
        None => recast(syntax.share()),
    }
}

/// The property of being the operator of a binary expression.
pub open spec fn bin_op_token() -> spec_fn(Tree) -> bool {
    |t: Tree| t is Token && t.kind().spec_is_bin_op()
}

impl BinExpr {
    /// The index of the operator among the children: the first token of
    /// the kind of a binary operator.
    pub fn op_index(&self) -> (r: Option<usize>)
        ensures
            match r {
                Some(i) => first_where(self@.children(), bin_op_token(), 0) == Some(i as int) && i
                    < self@.children().len() && i < usize::MAX,
                None => first_where(self@.children(), bin_op_token(), 0) is None,
            },
    {
        let children = self.syntax().children_with_tokens();
        let mut i: usize = 0;
        while i < children.len()
            invariant
                trees(children@) == self@.children(),
                forall|j: int| 0 <= j < i && j < children@.len() ==> !bin_op_token()(
                    #[trigger] trees(children@)[j],
                ),
            decreases children@.len() - i,
        {
            let found = match &children[i] {
                GreenElement::Token(t) => t.kind.is_bin_op(),
                GreenElement::Node(_) => false,
            };
            proof {
                assert(trees(children@)[i as int] == children@[i as int]@);
            }
            if found {
                proof {
                    lemma_first_where_found(trees(children@), bin_op_token(), 0, i as int);
                }
                return Some(i);
            }
            i = i + 1;
        }
        proof {
            lemma_first_where_none(trees(children@), bin_op_token(), 0);
        }
        None
    }

    /// The expression with the operator `op` in place of its own; nothing
    /// for an expression without an operator.
    #[must_use]
    pub fn replace_op(&self, op: SyntaxKind) -> (r: Option<BinExpr>)
        requires
            op.spec_fixed_text() is Some,
        ensures
            match first_where(self@.children(), bin_op_token(), 0) {
                Some(i) => r matches Some(e) && e@ == self@.with_children(
                    spliced(self@.children(), i, i + 1, seq![fixed_token(op)]),
                ),
                None => r is None,
            },
    {
        let i = match self.op_index() {
            Some(i) => i,
            None => {
                return None;
            },
        };
        let to_insert = single(token(op));
        Some(recast(replace_children(self.syntax(), i, i + 1, &to_insert)))
    }
}

/// The function with the body `body`: in place of its own body, or in place
/// of the semicolon that stands for one, or at its end.
pub open spec fn spec_with_body(def: NodeView, body: Tree) -> NodeView {
    let cs = def.children();
    match first_where(cs, castable::<BlockExpr>(), 0) {
        Some(i) => def.with_children(spliced(cs, i, i + 1, seq![body])),
        None => match first_where(cs, token_of_kind(SyntaxKind::SEMI), 0) {
            Some(i) => def.with_children(spliced(cs, i, i + 1, seq![blank(" "@), body])),
            None => def.with_children(
                spliced(cs, cs.len() as int, cs.len() as int, seq![blank(" "@), body]),
            ),
        },
    }
}

impl FnDef {
    /// The function with the body `body`.
    #[must_use]
    pub fn with_body(&self, body: Block) -> (r: FnDef)
        ensures
            r@ == spec_with_body(self@, body@.green()),
    {
        let syntax = self.syntax();
        let children = syntax.children_with_tokens();
        let mut to_insert = insertion_new();
        let (start, end) = if let Some(i) = find_child::<BlockExpr>(children, 0) {
            (i, i + 1)
        } else if let Some(i) = find_token(children, SyntaxKind::SEMI, 0) {
            insertion_push(&mut to_insert, single_space());
            (i, i + 1)
        } else {
            insertion_push(&mut to_insert, single_space());
            (children.len(), children.len())
        };
        insertion_push(&mut to_insert, body.syntax().green_element());
        let to_insert = insertion_into_vec(to_insert);
        proof {
            if first_where(self@.children(), castable::<BlockExpr>(), 0) is Some {
                assert(trees(to_insert@) =~= seq![body@.green()]);
            } else {
                assert(trees(to_insert@) =~= seq![blank(" "@), body@.green()]);
            }
        }
        recast(replace_children(syntax, start, end, &to_insert))
    }
}

/// The text of a line break followed by `indent`, or by nothing where
/// there is no indentation.
pub open spec fn newline_and(indent: Option<Seq<char>>) -> Seq<char> {
    seq!['\n'] + indent_or_empty(indent)
}

/// The indentation, or the empty text where there is none.
pub open spec fn indent_or_empty(indent: Option<Seq<char>>) -> Seq<char> {
    match indent {
        Some(text) => text,
        None => Seq::empty(),
    }
}

/// A line break followed by the indentation of `node`.
fn newline_indent_of(node: &SyntaxNode) -> (r: Vec<char>)
    ensures
        r@ == newline_and(spec_leading_indent(node@)),
{
    let mut text: Vec<char> = Vec::new();
    text.push('\n');
    match leading_indent(node) {
        Some(indent) => {
            let r = join(text.as_slice(), indent.as_slice());
            assert(r@ =~= newline_and(spec_leading_indent(node@)));
            r
        },
        None => {
            assert(text@ =~= newline_and(spec_leading_indent(node@)));
            text
        },
    }
}

/// The node with a line break after its opening brace: a list that is
/// written on one line is opened up. A node without an opening brace, a
/// node that ends with it and a node that has a line break there stay as
/// they are.
pub open spec fn spec_make_multiline(node: NodeView) -> NodeView {
    let cs = node.children();
    match first_where(cs, of_kind(SyntaxKind::L_CURLY), 0) {
        None => node,
        Some(l) => if l + 1 >= cs.len() {
            node
        } else {
            let ws = blank(newline_and(spec_leading_indent(node)));
            if cs[l + 1] is Token && cs[l + 1].kind() == SyntaxKind::WHITESPACE {
                if has_newline(cs[l + 1].token_text()) {
                    node
                } else {
                    node.with_children(spliced(cs, l + 1, l + 2, seq![ws]))
                }
            } else {
                node.with_children(spliced(cs, l + 1, l + 1, seq![ws]))
            }
        },
    }
}

/// The node with a line break after its opening brace.
fn make_multiline<N: AstNode>(node: N) -> (r: N)
    ensures
        r@ == spec_make_multiline(node@),
{
    let syntax = node.syntax();
    let children = syntax.children_with_tokens();
    let l_curly = match find_kind(children, SyntaxKind::L_CURLY, 0) {
        Some(it) => it,
        None => {
            return node;
        },
    };
    if l_curly + 1 >= children.len() {
        return node;
    }
    proof {
        assert(node@.children()[l_curly + 1] == children@[l_curly + 1]@);
    }
    let existing_ws = match &children[l_curly + 1] {
        GreenElement::Node(_) => false,
        GreenElement::Token(tok) => {
            if tok.kind != SyntaxKind::WHITESPACE {
                false
            } else {
                if contains_newline(tok.text.as_slice()) {
                    return node;
                }
                true
            }
        },
    };
    let to_insert = single(whitespace(newline_indent_of(syntax)));
    let end = if existing_ws {
        l_curly + 2
    } else {
        l_curly + 1
    };
    recast(replace_children(syntax, l_curly + 1, end, &to_insert))
}

/// The list with `item` after its last item, on a line of its own that is
/// indented as that item is; in a list without items, after the opening
/// brace and four blanks deeper than the list. A list without items and
/// without an opening brace stays as it is.
pub open spec fn spec_append_item(list: NodeView, item: Tree) -> NodeView {
    let cs = list.children();
    match last_where(cs, castable::<ImplItem>()) {
        Some(i) => list.with_children(
            spliced(
                cs,
                i + 1,
                i + 1,
                seq![blank(newline_and(spec_leading_indent(list.child(i)))), item],
            ),
        ),
        None => match first_where(cs, token_of_kind(SyntaxKind::L_CURLY), 0) {
            Some(l) => list.with_children(
                spliced(
                    cs,
                    l + 1,
                    l + 1,
                    seq![
                        blank(seq!['\n'] + "    "@ + indent_or_empty(spec_leading_indent(list))),
                        item,
                    ],
                ),
            ),
            None => list,
        },
    }
}

/// The list after the first `n` of `items` were appended one by one to the
/// list opened up, where it stood on one line.
pub open spec fn spec_append_items(list: NodeView, items: Seq<Tree>, n: int) -> NodeView
    decreases n,
{
    if n <= 0 {
        if has_newline(list.text()) {
            list
        } else {
            spec_make_multiline(list)
        }
    } else {
        spec_append_item(spec_append_items(list, items, n - 1), items[n - 1])
    }
}

/// The nodes of typed views, without what is around them.
pub open spec fn greens_of<N: AstNode>(nodes: Seq<N>) -> Seq<Tree> {
    Seq::new(nodes.len(), |i: int| nodes[i]@.green())
}

impl ItemList {
    /// The list with `items` appended, each on a line of its own.
    #[must_use]
    pub fn append_items(&self, items: Vec<ImplItem>) -> (r: ItemList)
        ensures
            r@ == spec_append_items(self@, greens_of(items@), items@.len() as int),
    {
        let mut res = self.clone();
        let text = self.syntax().text();
        if !contains_newline(text.as_slice()) {
            res = make_multiline(res);
        }
        let mut i: usize = 0;
        while i < items.len()
            invariant
                i <= items@.len(),
                res@ == spec_append_items(self@, greens_of(items@), i as int),
            decreases items@.len() - i,
        {
            proof {
                assert(greens_of(items@)[i as int] == items@[i as int]@.green());
            }
            res = res.append_item(items[i].clone());
            i = i + 1;
        }
        res
    }

    /// The list with `item` appended on a line of its own.
    #[must_use]
    pub fn append_item(&self, item: ImplItem) -> (r: ItemList)
        ensures
            r@ == spec_append_item(self@, item@.green()),
    {
        let syntax = self.syntax();
        let children = syntax.children_with_tokens();
        let (indent, position) = match find_last_child::<ImplItem>(children) {
            Some(i) => {
                proof {
                    assert(self@.children()[i as int] == children@[i as int]@);
                }
                match syntax.child(i) {
                    Some(it) => (newline_indent_of(&it), i + 1),
                    None => {
                        return self.clone();
                    },
                }
            },
            None => match find_token(children, SyntaxKind::L_CURLY, 0) {
                Some(l) => {
                    let step = chars_of("    ");
                    let own = match leading_indent(syntax) {
                        Some(indent) => indent,
                        None => Vec::new(),
                    };
                    let mut text: Vec<char> = Vec::new();
                    text.push('\n');
                    let text = join(text.as_slice(), step.as_slice());
                    let text = join(text.as_slice(), own.as_slice());
                    proof {
                        assert(text@ =~= seq!['\n'] + "    "@ + indent_or_empty(
                            spec_leading_indent(self@),
                        ));
                    }
                    (text, l + 1)
                },
                None => {
                    return self.clone();
                },
            },
        };
        let mut to_insert = insertion_new();
        insertion_push(&mut to_insert, whitespace(indent));
        insertion_push(&mut to_insert, item.syntax().green_element());
        let to_insert = insertion_into_vec(to_insert);
        proof {
            assert(trees(to_insert@) =~= seq![blank(indent@), item@.green()]);
        }
        recast(replace_children(syntax, position, position, &to_insert))
    }
}

/// Where a field goes, by the index of the field that it goes next to.
pub open spec fn anchor_index(position: InsertPosition<&RecordField>) -> InsertPosition<int> {
    match position {
        InsertPosition::First => InsertPosition::First,
        InsertPosition::Last => InsertPosition::Last,
        InsertPosition::Before(anchor) => InsertPosition::Before(anchor@.path.last()),
        InsertPosition::After(anchor) => InsertPosition::After(anchor@.path.last()),
    }
}

/// Whether the fields that `position` names are fields of `list`.
pub open spec fn anchored_in(position: InsertPosition<&RecordField>, list: NodeView) -> bool {
    match position {
        InsertPosition::First => true,
        InsertPosition::Last => true,
        InsertPosition::Before(anchor) => anchor@.path.len() > 0 && anchor@ == list.child(
            anchor@.path.last(),
        ),
        InsertPosition::After(anchor) => anchor@.path.len() > 0 && anchor@ == list.child(
            anchor@.path.last(),
        ),
    }
}

/// The list with `to_insert` after the first comma from the field at
/// `anchor` on; where no comma follows the field, after the field and a
/// comma.
pub open spec fn inserted_after_field(list: NodeView, anchor: int, to_insert: Seq<Tree>) -> NodeView {
    let cs = list.children();
    match first_where(cs, of_kind(SyntaxKind::COMMA), anchor) {
        Some(c) => list.with_children(spliced(cs, c + 1, c + 1, to_insert)),
        None => list.with_children(
            spliced(cs, anchor + 1, anchor + 1, seq![fixed_token(SyntaxKind::COMMA)] + to_insert),
        ),
    }
}

/// The list with `to_insert` after its opening brace; the list as it is
/// where it has none.
pub open spec fn inserted_after_brace(list: NodeView, to_insert: Seq<Tree>) -> NodeView {
    let cs = list.children();
    match first_where(cs, token_of_kind(SyntaxKind::L_CURLY), 0) {
        Some(l) => list.with_children(spliced(cs, l + 1, l + 1, to_insert)),
        None => list,
    }
}

/// The list with `field` put in at `position`. In a list that spans lines
/// the field goes on a line of its own, four blanks deeper than the list,
/// and is followed by a comma; in a list on one line it follows a blank,
/// and at the end of such a list no comma follows it.
pub open spec fn spec_insert_field(list: NodeView, position: InsertPosition<int>, field: Tree) -> NodeView {
    let cs = list.children();
    let multiline = has_newline(list.text());
    let space = if multiline {
        blank(seq!['\n'] + indent_or_empty(spec_leading_indent(list)) + "    "@)
    } else {
        blank(" "@)
    };
    let full = seq![space, field, fixed_token(SyntaxKind::COMMA)];
    match position {
        InsertPosition::First => inserted_after_brace(list, full),
        InsertPosition::Last => {
            let to_insert = if multiline {
                full
            } else {
                seq![space, field]
            };
            match last_where(cs, castable::<RecordField>()) {
                Some(i) => inserted_after_field(list, i, to_insert),
                None => inserted_after_brace(list, to_insert),
            }
        },
        InsertPosition::Before(anchor) => list.with_children(spliced(cs, anchor, anchor, full)),
        InsertPosition::After(anchor) => inserted_after_field(list, anchor, full),
    }
}

impl RecordFieldList {
    /// The list with `field` as its last field.
    #[must_use]
    pub fn append_field(&self, field: &RecordField) -> (r: RecordFieldList)
        ensures
            r@ == spec_insert_field(self@, InsertPosition::Last, field@.green()),
    {
        self.insert_field(InsertPosition::Last, field)
    }

    /// The list with `field` put in at `position`. A field that `position`
    /// names is a field of this list.
    #[must_use]
    pub fn insert_field(&self, position: InsertPosition<&RecordField>, field: &RecordField) -> (r:
        RecordFieldList)
        requires
            anchored_in(position, self@),
        ensures
            r@ == spec_insert_field(self@, anchor_index(position), field@.green()),
    {
        let syntax = self.syntax();
        let children = syntax.children_with_tokens();
        let text = syntax.text();
        let is_multiline = contains_newline(text.as_slice());
        let space = if is_multiline {
            let text = newline_indent_of(syntax);
            let step = chars_of("    ");
            let text = join(text.as_slice(), step.as_slice());
            whitespace(text)
        } else {
            single_space()
        };
        let ghost space_tree = space@;
        let ghost full = seq![space_tree, field@.green(), fixed_token(SyntaxKind::COMMA)];
        let mut to_insert = insertion_new();
        insertion_push(&mut to_insert, space);
        insertion_push(&mut to_insert, field.syntax().green_element());
        insertion_push(&mut to_insert, token(SyntaxKind::COMMA));
        proof {
            assert(trees(insertion_items(to_insert)) =~= full);
        }
        // the index of the field after which the new one goes, where it
        // goes after a field
        let after_field: Option<usize>;
        let mut at: usize = 0;
        match position {
            InsertPosition::First => {
                after_field = None;
                match find_token(children, SyntaxKind::L_CURLY, 0) {
                    Some(l) => {
                        at = l + 1;
                    },
                    None => {
                        return self.clone();
                    },
                }
            },
            InsertPosition::Last => {
                if !is_multiline {
                    // no comma before the closing brace
                    let comma = insertion_pop(&mut to_insert);
                    proof {
                        assert(trees(insertion_items(to_insert)) =~= seq![
                            space_tree,
                            field@.green(),
                        ]);
                    }
                }
                match find_last_child::<RecordField>(children) {
                    Some(i) => {
                        after_field = Some(i);
                    },
                    None => {
                        after_field = None;
                        match find_token(children, SyntaxKind::L_CURLY, 0) {
                            Some(l) => {
                                at = l + 1;
                            },
                            None => {
                                return self.clone();
                            },
                        }
                    },
                }
            },
            InsertPosition::Before(anchor) => {
                after_field = None;
                let anchor_syntax = anchor.syntax();
                match anchor_syntax.index_in_parent() {
                    Some(i) => {
                        proof {
                            lemma_child_in_range(self@, i as int);
                        }
                        at = i;
                    },
                    None => {
                        return self.clone();
                    },
                }
            },
            InsertPosition::After(anchor) => {
                let anchor_syntax = anchor.syntax();
                match anchor_syntax.index_in_parent() {
                    Some(i) => {
                        proof {
                            lemma_child_in_range(self@, i as int);
                        }
                        after_field = Some(i);
                    },
                    None => {
                        return self.clone();
                    },
                }
            },
        }
        if let Some(i) = after_field {
            match find_kind(children, SyntaxKind::COMMA, i) {
                Some(comma) => {
                    at = comma + 1;
                },
                None => {
                    let ghost before = trees(insertion_items(to_insert));
                    insertion_insert(&mut to_insert, 0, token(SyntaxKind::COMMA));
                    proof {
                        assert(trees(insertion_items(to_insert)) =~= seq![
                            fixed_token(SyntaxKind::COMMA),
                        ] + before);
                    }
                    at = i + 1;
                },
            }
        }
        let to_insert = insertion_into_vec(to_insert);
        recast(replace_children(syntax, at, at, &to_insert))
    }
}

/// A child that is a node in its place stands among the children.
pub proof fn lemma_child_in_range(parent: NodeView, i: int)
    requires
        parent.wf(),
        parent.child(i).wf(),
    ensures
        0 <= i < parent.children().len(),
        parent.child(i).green() == parent.children()[i],
{
    lemma_at_push(parent.root, parent.path, i);
}

/// The parameter without its colon and its bounds: what stands from the
/// colon up to the bounds, or the colon alone where no bounds follow it, is
/// taken out.
pub open spec fn spec_remove_bounds(param: NodeView) -> NodeView {
    let cs = param.children();
    match first_where(cs, token_of_kind(SyntaxKind::COLON), 0) {
        None => param,
        Some(colon) => {
            let end = match first_where(cs, castable::<TypeBoundList>(), 0) {
                Some(bounds) => bounds,
                None => colon,
            };
            param.with_children(spliced(cs, colon, end + 1, Seq::empty()))
        },
    }
}

/// Whether the bounds of a parameter, where it has a colon and bounds, do
/// not stand before the colon.
pub open spec fn bounds_follow_colon(param: NodeView) -> bool {
    let cs = param.children();
    match (
        first_where(cs, token_of_kind(SyntaxKind::COLON), 0),
        first_where(cs, castable::<TypeBoundList>(), 0),
    ) {
        (Some(colon), Some(bounds)) => colon <= bounds + 1,
        _ => true,
    }
}

impl TypeParam {
    /// The parameter without its bounds. The call is for a parameter whose
    /// bounds do not stand before its colon.
    #[must_use]
    pub fn remove_bounds(&self) -> (r: TypeParam)
        requires
            bounds_follow_colon(self@),
        ensures
            r@ == spec_remove_bounds(self@),
    {
        let syntax = self.syntax();
        let children = syntax.children_with_tokens();
        let colon = match find_token(children, SyntaxKind::COLON, 0) {
            Some(it) => it,
            None => {
                return self.clone();
            },
        };
        let end = match find_child::<TypeBoundList>(children, 0) {
            Some(it) => it,
            None => colon,
        };
        let to_insert: Vec<GreenElement> = Vec::new();
        proof {
            assert(trees(to_insert@) =~= Seq::<Tree>::empty());
        }
        recast(replace_children(syntax, colon, end + 1, &to_insert))
    }
}

impl Path {
    /// The path with `segment` in place of its own segment; the path as it
    /// is where it has none.
    #[must_use]
    pub fn with_segment(&self, segment: PathSegment) -> (r: Path)
        ensures
            r@ == with_first_replaced::<PathSegment>(self@, segment@.green()),
    {
        replace_first_child(self, &segment)
    }
}

/// The segment with the type arguments `args`: in place of its own, or at
/// its end, after `::` where `turbo` is set.
pub open spec fn spec_with_type_args(segment: NodeView, args: Tree, turbo: bool) -> NodeView {
    let cs = segment.children();
    match first_where(cs, castable::<TypeArgList>(), 0) {
        Some(i) => segment.with_children(spliced(cs, i, i + 1, seq![args])),
        None => segment.with_children(
            spliced(
                cs,
                cs.len() as int,
                cs.len() as int,
                if turbo {
                    seq![fixed_token(SyntaxKind::COLONCOLON), args]
                } else {
                    seq![args]
                },
            ),
        ),
    }
}

impl PathSegment {
    /// The segment with the type arguments `type_args`: `Vec<T>`.
    #[must_use]
    pub fn with_type_args(&self, type_args: TypeArgList) -> (r: PathSegment)
        ensures
            r@ == spec_with_type_args(self@, type_args@.green(), false),
    {
        self._with_type_args(type_args, false)
    }

    /// The segment with the type arguments `type_args` after `::`:
    /// `collect::<T>`.
    #[must_use]
    pub fn with_turbo_fish(&self, type_args: TypeArgList) -> (r: PathSegment)
        ensures
            r@ == spec_with_type_args(self@, type_args@.green(), true),
    {
        self._with_type_args(type_args, true)
    }

    /// The segment with the type arguments `type_args`, after `::` where
    /// `turbo` is set and the segment has none yet.
    fn _with_type_args(&self, type_args: TypeArgList, turbo: bool) -> (r: PathSegment)
        ensures
            r@ == spec_with_type_args(self@, type_args@.green(), turbo),
    {
        let syntax = self.syntax();
        let children = syntax.children_with_tokens();
        if let Some(i) = find_child::<TypeArgList>(children, 0) {
            let to_insert = single(type_args.syntax().green_element());
            return recast(replace_children(syntax, i, i + 1, &to_insert));
        }
        let mut to_insert = insertion_new();
        if turbo {
            insertion_push(&mut to_insert, token(SyntaxKind::COLONCOLON));
        }
        insertion_push(&mut to_insert, type_args.syntax().green_element());
        let to_insert = insertion_into_vec(to_insert);
        proof {
            if turbo {
                assert(trees(to_insert@) =~= seq![
                    fixed_token(SyntaxKind::COLONCOLON),
                    type_args@.green(),
                ]);
            } else {
                assert(trees(to_insert@) =~= seq![type_args@.green()]);
            }
        }
        recast(insert_children(syntax, InsertPosition::Last, &to_insert))
    }
}

impl UseItem {
    /// The item with `use_tree` in place of its own use tree; the item as
    /// it is where it has none.
    #[must_use]
    pub fn with_use_tree(&self, use_tree: UseTree) -> (r: UseItem)
        ensures
            r@ == with_first_replaced::<UseTree>(self@, use_tree@.green()),
    {
        replace_first_child(self, &use_tree)
    }
}

/// The path that `path` is the start of, one step up; nothing where the
/// parent of `path` is no path.
pub open spec fn parent_path(path: NodeView) -> Option<NodeView> {
    match path.ancestor(1) {
        Some(parent) => if path.path.len() > 0 && parent.kind() == SyntaxKind::PATH {
            Some(parent)
        } else {
            None
        },
        None => None,
    }
}

/// The first child of `node` that can be taken as `N`, without what is
/// around it.
pub open spec fn first_green<N: AstNode>(node: NodeView) -> Option<Tree> {
    match first_where(node.children(), castable::<N>(), 0) {
        Some(i) => Some(node.children()[i]),
        None => None,
    }
}

/// The path `res`, which holds the segments from after a prefix up to the
/// path `at`, carried on with the segments of the paths that `at` is the
/// start of. Nothing where one of them has no segment.
pub open spec fn suffix_from(at: NodeView, res: Tree) -> Option<Tree>
    decreases at.path.len(),
{
    match parent_path(at) {
        None => Some(res),
        Some(parent) => match first_green::<PathSegment>(parent) {
            None => None,
            Some(segment) => suffix_from(
                parent,
                Tree::Node { kind: SyntaxKind::PATH, children: qualified_children(res, segment) },
            ),
        },
    }
}

/// What the path that `prefix` is the start of goes on with after it.
/// Nothing where `prefix` is the start of no path.
pub open spec fn spec_split_path_prefix(prefix: NodeView) -> Option<Tree> {
    match parent_path(prefix) {
        None => None,
        Some(parent) => match first_green::<PathSegment>(parent) {
            None => None,
            Some(segment) => suffix_from(
                parent,
                Tree::Node { kind: SyntaxKind::PATH, children: unqualified_children(segment) },
            ),
        },
    }
}

/// Whether a node holds a token of the kind `kind`.
pub open spec fn has_token(node: NodeView, kind: SyntaxKind) -> bool {
    first_where(node.children(), token_of_kind(kind), 0) is Some
}

/// The use tree `prefix::{rest}` for the use tree `tree`.
pub open spec fn spec_split_prefix(tree: NodeView, prefix: NodeView) -> NodeView {
    match spec_split_path_prefix(prefix) {
        None => tree,
        Some(suffix) => {
            let inner = Tree::Node {
                kind: SyntaxKind::USE_TREE,
                children: use_tree_children(
                    suffix,
                    first_green::<UseTreeList>(tree),
                    first_green::<Alias>(tree),
                    has_token(tree, SyntaxKind::STAR),
                ),
            };
            let nested = Tree::Node {
                kind: SyntaxKind::USE_TREE_LIST,
                children: use_tree_list_children(seq![inner]),
            };
            root_of(
                SyntaxKind::USE_TREE,
                use_tree_children(prefix.green(), Some(nested), None, false),
            )
        },
    }
}

impl Path {
    /// The path that this one is the start of, one step up.
    pub fn parent_path(&self) -> (r: Option<Path>)
        ensures
            match r {
                Some(p) => parent_path(self@) == Some(p@),
                None => parent_path(self@) is None,
            },
    {
        let syntax = self.syntax();
        match syntax.parent() {
            Some(parent) => {
                proof {
                    assert(self@.path.subrange(0, self@.path.len() - 1) =~= self@.path.drop_last());
                }
                Path::cast(parent)
            },
            None => None,
        }
    }
}

/// What the path that `prefix` is the start of goes on with after it, as a
/// path of its own.
fn split_path_prefix(prefix: &Path) -> (r: Option<Path>)
    ensures
        match r {
            Some(suffix) => spec_split_path_prefix(prefix@) == Some(suffix@.green())
                && suffix@.path.len() == 0,
            None => spec_split_path_prefix(prefix@) is None,
        },
{
    let parent = match prefix.parent_path() {
        Some(it) => it,
        None => {
            return None;
        },
    };
    let segment = match child::<PathSegment>(parent.syntax()) {
        Some(it) => it,
        None => {
            return None;
        },
    };
    let mut res = make::path_unqualified(segment);
    let mut cur = parent;
    loop
        invariant
            res@.path.len() == 0,
            res@.root is Node,
            res@.root.kind() == SyntaxKind::PATH,
            spec_split_path_prefix(prefix@) == suffix_from(cur@, res@.root),
        decreases cur@.path.len(),
    {
        let next = match cur.parent_path() {
            Some(it) => it,
            None => {
                proof {
                    assert(res@.green() == res@.root);
                }
                return Some(res);
            },
        };
        let segment = match child::<PathSegment>(next.syntax()) {
            Some(it) => it,
            None => {
                return None;
            },
        };
        proof {
            assert(res@.green() == res@.root);
        }
        res = make::path_qualified(res, segment);
        cur = next;
    }
}

/// The place after `path` among the children of the same parent.
pub open spec fn next_place(path: Seq<int>) -> Seq<int> {
    path.drop_last().push(path.last() + 1)
}

/// What it takes to remove a use item from its tree: the item goes, and
/// the blank space after it loses its first character where that is a line
/// break, or goes too where nothing else is in it.
pub open spec fn use_item_removal(item: NodeView) -> Map<Seq<int>, ReplacementView> {
    let gone = Map::<Seq<int>, ReplacementView>::empty().insert(
        item.path,
        ReplacementView::Delete,
    );
    if item.path.len() == 0 {
        gone
    } else {
        match item.root.at(next_place(item.path)) {
            Some(Tree::Token { kind: SyntaxKind::WHITESPACE, text }) => if text.len() > 0
                && text[0] == '\n' {
                if text.len() == 1 {
                    gone.insert(next_place(item.path), ReplacementView::Delete)
                } else {
                    gone.insert(
                        next_place(item.path),
                        ReplacementView::Single(blank(text.subrange(1, text.len() as int))),
                    )
                }
            } else {
                gone
            },
            _ => gone,
        }
    }
}

impl UseItem {
    /// What it takes to remove the item from its tree, with the line break
    /// that follows it.
    pub fn remove(&self) -> (r: SyntaxRewriter)
        ensures
            r@ == use_item_removal(self@),
    {
        let syntax = self.syntax();
        let mut res = SyntaxRewriter::new();
        res.delete_node(syntax);
        let next = match syntax.next_sibling_or_token() {
            Some(next) => next,
            None => {
                return res;
            },
        };
        match &next {
            SyntaxElement::Node(n) => {
                proof {
                    use_type_invariant(n);
                }
            },
            SyntaxElement::Token(next_ws) => {
                let kind = next_ws.kind();
                let ws_text = next_ws.text();
                proof {
                    assert(self@.root.at(next_place(self@.path)) == Some(next@.green()));
                }
                if kind == SyntaxKind::WHITESPACE && ws_text.len() > 0 && ws_text[0] == '\n' {
                    if ws_text.len() == 1 {
                        res.delete(&next);
                    } else {
                        let mut rest: Vec<char> = Vec::new();
                        let mut i: usize = 1;
                        while i < ws_text.len()
                            invariant
                                1 <= i <= ws_text@.len(),
                                rest@ == ws_text@.subrange(1, i as int),
                            decreases ws_text@.len() - i,
                        {
                            rest.push(ws_text[i]);
                            assert(rest@ =~= ws_text@.subrange(1, i + 1));
                            i = i + 1;
                        }
                        res.replace(&next, whitespace(rest));
                    }
                }
            },
        }
        res
    }
}

/// The map that says of the place `own`, and of the places from `from` up
/// to `to` among the children of the node at `parent`, that what is there
/// is to go.
pub open spec fn removal(own: Seq<int>, parent: Seq<int>, from: int, to: int) -> Map<
    Seq<int>,
    ReplacementView,
> {
    Map::new(
        |p: Seq<int>| p == own || exists|k: int| from <= k < to && p == #[trigger] parent.push(k),
        |p: Seq<int>| ReplacementView::Delete,
    )
}

/// What it takes to remove a use tree from its list: the use tree goes,
/// and so does what stands between it and the use tree after it in the
/// list; where none comes after it, what stands between it and the use
/// tree before it.
pub open spec fn use_tree_removal(tree: NodeView) -> Map<Seq<int>, ReplacementView> {
    if tree.path.len() == 0 {
        removal(tree.path, tree.path, 0, 0)
    } else {
        let parent = tree.path.drop_last();
        let own = tree.path.last();
        let cs = tree.root.at(parent)->0.children();
        match first_where(cs, castable::<UseTree>(), own + 1) {
            Some(next) => removal(tree.path, parent, own + 1, next),
            None => match last_where(cs.subrange(0, own), castable::<UseTree>()) {
                Some(prev) => removal(tree.path, parent, prev + 1, own),
                None => removal(tree.path, parent, 0, 0),
            },
        }
    }
}

impl UseTree {
    /// What it takes to remove the use tree from the list that it stands
    /// in, with the comma and the blank space on one side of it.
    pub fn remove(&self) -> (r: SyntaxRewriter)
        ensures
            r@ == use_tree_removal(self@),
    {
        let syntax = self.syntax();
        let mut res = SyntaxRewriter::new();
        res.delete_node(syntax);
        proof {
            assert(res@ =~= removal(self@.path, self@.path, 0, 0));
        }
        let parent = match syntax.parent() {
            Some(p) => p,
            None => {
                return res;
            },
        };
        let own = match syntax.index_in_parent() {
            Some(i) => i,
            None => {
                return res;
            },
        };
        let children = parent.children_with_tokens();
        proof {
            lemma_at_push(self@.root, parent@.path, own as int);
            assert(self@.path =~= parent@.path.push(own as int));
            assert(own < parent@.children().len());
            assert(trees(children@).len() == children@.len());
            assert(res@ =~= removal(self@.path, parent@.path, own + 1, own + 1));
        }
        let (from, to) = match find_child::<UseTree>(children, own + 1) {
            Some(next) => (own + 1, next),
            None => {
                // no use tree comes after this one: look before it
                let mut j: usize = own;
                while j > 0 && !is_use_tree(&children[j - 1])
                    invariant
                        j <= own < children@.len(),
                        forall|k: int| j <= k < own ==> !castable::<UseTree>()(
                            #[trigger] trees(children@).subrange(0, own as int)[k],
                        ),
                    decreases j,
                {
                    proof {
                        assert(trees(children@).subrange(0, own as int)[j - 1] == children@[j
                            - 1]@);
                    }
                    j = j - 1;
                }
                if j == 0 {
                    proof {
                        lemma_last_where_none(
                            trees(children@).subrange(0, own as int),
                            castable::<UseTree>(),
                        );
                    }
                    return res;
                }
                proof {
                    assert(trees(children@).subrange(0, own as int)[j - 1] == children@[j - 1]@);
                    lemma_last_where_found(
                        trees(children@).subrange(0, own as int),
                        castable::<UseTree>(),
                        j - 1,
                    );
                    assert(res@ =~= removal(self@.path, parent@.path, j as int, j as int));
                }
                (j, own)
            },
        };
        let mut k: usize = from;
        while k < to
            invariant
                from <= k <= to <= children@.len(),
                trees(children@) == parent@.children(),
                res@ == removal(self@.path, parent@.path, from as int, k as int),
            decreases to - k,
        {
            if let Some(element) = parent.child_or_token(k) {
                res.delete(&element);
                proof {
                    assert(res@ =~= removal(self@.path, parent@.path, from as int, k + 1)) by {
                        assert forall|p: Seq<int>|
                            removal(
                                self@.path,
                                parent@.path,
                                from as int,
                                k + 1,
                            ).contains_key(p) implies res@.contains_key(p) by {
                            if p != self@.path {
                                let w = choose|w: int|
                                    from <= w < k + 1 && p == #[trigger] parent@.path.push(w);
                                if w < k {
                                    assert(removal(
                                        self@.path,
                                        parent@.path,
                                        from as int,
                                        k as int,
                                    ).contains_key(p));
                                }
                            }
                        }
                    }
                }
            }
            k = k + 1;
        }
        res
    }

    /// The use tree with its path cut in two: `prefix::{rest}`, where
    /// `prefix` is a path inside the path of this use tree and `rest` is
    /// what the path goes on with after it, with the list, the star and the
    /// alias of this use tree. The use tree as it is, where its path does
    /// not go on after `prefix`.
    #[must_use]
    pub fn split_prefix(&self, prefix: &Path) -> (r: UseTree)
        ensures
            r@ == spec_split_prefix(self@, prefix@),
    {
        let suffix = match split_path_prefix(prefix) {
            Some(it) => it,
            None => {
                return self.clone();
            },
        };
        let syntax = self.syntax();
        let children = syntax.children_with_tokens();
        let has_star = find_token(children, SyntaxKind::STAR, 0).is_some();
        let use_tree = make::use_tree(
            suffix,
            child::<UseTreeList>(syntax),
            child::<Alias>(syntax),
            has_star,
        );
        let mut nested: Vec<UseTree> = Vec::new();
        let ghost inner = use_tree@.green();
        nested.push(use_tree);
        proof {
            assert(greens(nested@) =~= seq![inner]);
        }
        let nested = make::use_tree_list(nested);
        make::use_tree(prefix.clone(), Some(nested), None, false)
    }

    /// The use tree with `path` in place of its own path; the use tree as
    /// it is where it has none.
    #[must_use]
    pub fn with_path(&self, path: Path) -> (r: UseTree)
        ensures
            r@ == with_first_replaced::<Path>(self@, path@.green()),
    {
        replace_first_child(self, &path)
    }

    /// The use tree with `use_tree_list` in place of its own list; the use
    /// tree as it is where it has none.
    #[must_use]
    pub fn with_use_tree_list(&self, use_tree_list: UseTreeList) -> (r: UseTree)
        ensures
            r@ == with_first_replaced::<UseTreeList>(self@, use_tree_list@.green()),
    {
        replace_first_child(self, &use_tree_list)
    }
}

/// Whether `element` is a use tree.
fn is_use_tree(element: &GreenElement) -> (r: bool)
    ensures
        r == castable::<UseTree>()(element@),
{
    match element {
        GreenElement::Node(n) => UseTree::can_cast_kind(n.kind),
        GreenElement::Token(_) => false,
    }
}

/// The property of carrying meaning: of being neither blank space nor a
/// comment.
pub open spec fn non_trivia() -> spec_fn(Tree) -> bool {
    |t: Tree| !t.kind().spec_is_trivia()
}

/// The property of being blank space.
pub open spec fn blank_space() -> spec_fn(Tree) -> bool {
    |t: Tree| t.kind() == SyntaxKind::WHITESPACE
}

/// The list without what stands between its braces, where that is blank
/// space only and not nothing.
pub open spec fn spec_strip_if_only_whitespace(list: NodeView) -> NodeView {
    let cs = list.children();
    let start = match first_where(cs, of_kind(SyntaxKind::L_CURLY), 0) {
        Some(l) => l + 1,
        None => cs.len() as int,
    };
    let end = match first_where(cs, of_kind(SyntaxKind::R_CURLY), start) {
        Some(r) => r,
        None => cs.len() as int,
    };
    if start < end && cs.len() >= end && forall|j: int|
        start <= j < end ==> (#[trigger] cs[j]).kind() == SyntaxKind::WHITESPACE {
        list.with_children(spliced(cs, start, end, Seq::empty()))
    } else {
        list
    }
}

/// The list without the arm at `arm`, and without the comma that follows
/// the arm after blank space and comments at most.
pub open spec fn spec_remove_arm(list: NodeView, arm: int) -> NodeView {
    let cs = list.children();
    let end = match first_where(cs, non_trivia(), arm + 1) {
        Some(e) => if cs[e].kind() == SyntaxKind::COMMA {
            e
        } else {
            arm
        },
        None => arm,
    };
    list.with_children(spliced(cs, arm, end + 1, Seq::empty()))
}

/// The property of being an arm whose pattern is `_`.
pub open spec fn placeholder_arm() -> spec_fn(Tree) -> bool {
    |t: Tree|
        castable::<MatchArm>()(t) && (first_where(t.children(), castable::<Pat>(), 0) matches Some(
            p,
        ) && t.children()[p].kind() == SyntaxKind::PLACEHOLDER_PAT)
}

/// The list with `item` before its closing brace, four blanks deeper than
/// the line on which the list starts, and the closing brace on a line of
/// its own. A list without a closing brace stays as it is.
pub open spec fn spec_append_arm(list: NodeView, item: Tree) -> NodeView {
    let cs = list.children();
    match first_where(cs, of_kind(SyntaxKind::R_CURLY), 0) {
        Some(r) => list.with_children(
            spliced(
                cs,
                r,
                r,
                seq![blank("    "@), item, blank(newline_and(spec_leading_indent(list)))],
            ),
        ),
        None => list,
    }
}

/// The list after the first `n` of `items` were appended one by one to the
/// list without blank space between its braces and opened up, where it
/// stood on one line.
pub open spec fn spec_append_arms(list: NodeView, items: Seq<Tree>, n: int) -> NodeView
    decreases n,
{
    if n <= 0 {
        let stripped = spec_strip_if_only_whitespace(list);
        if has_newline(stripped.text()) {
            stripped
        } else {
            spec_make_multiline(stripped)
        }
    } else {
        spec_append_arm(spec_append_arms(list, items, n - 1), items[n - 1])
    }
}

impl MatchArmList {
    /// The list with `items` appended, each on a line of its own.
    #[must_use]
    pub fn append_arms(&self, items: Vec<MatchArm>) -> (r: MatchArmList)
        ensures
            r@ == spec_append_arms(self@, greens_of(items@), items@.len() as int),
    {
        let mut res = self.strip_if_only_whitespace();
        let text = res.syntax().text();
        if !contains_newline(text.as_slice()) {
            res = make_multiline(res);
        }
        let mut i: usize = 0;
        while i < items.len()
            invariant
                i <= items@.len(),
                res@ == spec_append_arms(self@, greens_of(items@), i as int),
            decreases items@.len() - i,
        {
            proof {
                assert(greens_of(items@)[i as int] == items@[i as int]@.green());
            }
            res = res.append_arm(items[i].clone());
            i = i + 1;
        }
        res
    }

    /// The list without the blank space between its braces, where nothing
    /// else stands there.
    pub fn strip_if_only_whitespace(&self) -> (r: MatchArmList)
        ensures
            r@ == spec_strip_if_only_whitespace(self@),
    {
        let syntax = self.syntax();
        let children = syntax.children_with_tokens();
        let start = match find_kind(children, SyntaxKind::L_CURLY, 0) {
            Some(l) => l + 1,
            None => children.len(),
        };
        let end = match find_kind(children, SyntaxKind::R_CURLY, start) {
            Some(r) => r,
            None => children.len(),
        };
        if start >= end {
            return self.clone();
        }
        let mut i: usize = start;
        while i < end
            invariant
                start <= i <= end <= children@.len(),
                trees(children@) == self@.children(),
                start as int == (match first_where(
                    self@.children(),
                    of_kind(SyntaxKind::L_CURLY),
                    0,
                ) {
                    Some(l) => l + 1,
                    None => self@.children().len() as int,
                }),
                end as int == (match first_where(
                    self@.children(),
                    of_kind(SyntaxKind::R_CURLY),
                    start as int,
                ) {
                    Some(r) => r,
                    None => self@.children().len() as int,
                }),
                forall|j: int|
                    start <= j < i ==> (#[trigger] self@.children()[j]).kind()
                        == SyntaxKind::WHITESPACE,
            decreases end - i,
        {
            proof {
                assert(self@.children()[i as int] == children@[i as int]@);
            }
            if !(children[i].kind() == SyntaxKind::WHITESPACE) {
                return self.clone();
            }
            i = i + 1;
        }
        let to_insert: Vec<GreenElement> = Vec::new();
        proof {
            assert(trees(to_insert@) =~= Seq::<Tree>::empty());
        }
        recast(replace_children(syntax, start, end, &to_insert))
    }

    /// The list without its first arm whose pattern is `_`, and without the
    /// comma after that arm; the list as it is where it has no such arm.
    #[must_use]
    pub fn remove_placeholder(&self) -> (r: MatchArmList)
        ensures
            r@ == (match first_where(self@.children(), placeholder_arm(), 0) {
                Some(arm) => spec_remove_arm(self@, arm),
                None => self@,
            }),
    {
        let syntax = self.syntax();
        let children = syntax.children_with_tokens();
        let mut i: usize = 0;
        while i < children.len()
            invariant
                trees(children@) == self@.children(),
                forall|j: int| 0 <= j < i && j < children@.len() ==> !placeholder_arm()(
                    #[trigger] self@.children()[j],
                ),
            decreases children@.len() - i,
        {
            proof {
                assert(self@.children()[i as int] == children@[i as int]@);
            }
            let found = match &children[i] {
                GreenElement::Node(arm) => {
                    if MatchArm::can_cast_kind(arm.kind) {
                        proof {
                            assert(trees(arm.children@) =~= arm@.children());
                        }
                        match find_child::<Pat>(&arm.children, 0) {
                            Some(p) => {
                                proof {
                                    assert(arm@.children()[p as int] == arm.children@[p as int]@);
                                }
                                arm.children[p].kind() == SyntaxKind::PLACEHOLDER_PAT
                            },
                            None => false,
                        }
                    } else {
                        false
                    }
                },
                GreenElement::Token(_) => false,
            };
            if found {
                proof {
                    lemma_first_where_found(self@.children(), placeholder_arm(), 0, i as int);
                }
                return self.remove_arm_at(i);
            }
            i = i + 1;
        }
        proof {
            lemma_first_where_none(self@.children(), placeholder_arm(), 0);
        }
        self.clone()
    }

    /// The list without its child `arm`, and without the comma after it.
    #[must_use]
    pub fn remove_arm(&self, arm: &MatchArm) -> (r: MatchArmList)
        requires
            arm@.path.len() > 0,
            arm@ == self@.child(arm@.path.last()),
        ensures
            r@ == spec_remove_arm(self@, arm@.path.last()),
    {
        let syntax = self.syntax();
        let arm_syntax = arm.syntax();
        match arm_syntax.index_in_parent() {
            Some(i) => {
                proof {
                    lemma_child_in_range(self@, i as int);
                }
                self.remove_arm_at(i)
            },
            None => self.clone(),
        }
    }

    /// The list without the arm at `start`, and without the comma after it.
    fn remove_arm_at(&self, start: usize) -> (r: MatchArmList)
        requires
            start < self@.children().len(),
        ensures
            r@ == spec_remove_arm(self@, start as int),
    {
        let syntax = self.syntax();
        let children = syntax.children_with_tokens();
        let mut i: usize = start + 1;
        while i < children.len() && children[i].kind().is_trivia()
            invariant
                start < i,
                trees(children@) == self@.children(),
                forall|j: int| start < j < i && j < children@.len() ==> !non_trivia()(
                    #[trigger] self@.children()[j],
                ),
            decreases children@.len() - i,
        {
            proof {
                assert(self@.children()[i as int] == children@[i as int]@);
            }
            i = i + 1;
        }
        let end = if i < children.len() {
            proof {
                assert(self@.children()[i as int] == children@[i as int]@);
                lemma_first_where_found(self@.children(), non_trivia(), start + 1, i as int);
            }
            if children[i].kind() == SyntaxKind::COMMA {
                i
            } else {
                start
            }
        } else {
            proof {
                lemma_first_where_none(self@.children(), non_trivia(), start + 1);
            }
            start
        };
        let to_insert: Vec<GreenElement> = Vec::new();
        proof {
            assert(trees(to_insert@) =~= Seq::<Tree>::empty());
        }
        recast(replace_children(syntax, start, end + 1, &to_insert))
    }

    /// The list with `item` as its last arm.
    #[must_use]
    pub fn append_arm(&self, item: MatchArm) -> (r: MatchArmList)
        ensures
            r@ == spec_append_arm(self@, item@.green()),
    {
        let syntax = self.syntax();
        let children = syntax.children_with_tokens();
        let r_curly = match find_kind(children, SyntaxKind::R_CURLY, 0) {
            Some(t) => t,
            None => {
                return self.clone();
            },
        };
        let arm_ws = whitespace(chars_of("    "));
        let match_ws = whitespace(newline_indent_of(syntax));
        let mut to_insert = insertion_new();
        insertion_push(&mut to_insert, arm_ws);
        insertion_push(&mut to_insert, item.syntax().green_element());
        insertion_push(&mut to_insert, match_ws);
        let to_insert = insertion_into_vec(to_insert);
        proof {
            assert(trees(to_insert@) =~= seq![
                blank("    "@),
                item@.green(),
                blank(newline_and(spec_leading_indent(self@))),
            ]);
        }
        recast(insert_children(syntax, InsertPosition::Before(r_curly), &to_insert))
    }
}

/// The property of being an attribute or a comment.
pub open spec fn attr_or_comment() -> spec_fn(Tree) -> bool {
    |t: Tree| t.kind() == SyntaxKind::ATTR || t.kind() == SyntaxKind::COMMENT
}

/// The trees from `at` on without the attributes and comments among them,
/// and without the blank space that follows one of them directly.
pub open spec fn stripped_from(trees: Seq<Tree>, at: int) -> Seq<Tree>
    decreases trees.len() - at,
{
    if at < 0 || at >= trees.len() {
        Seq::empty()
    } else if attr_or_comment()(trees[at]) {
        if at + 1 < trees.len() && trees[at + 1].kind() == SyntaxKind::WHITESPACE {
            stripped_from(trees, at + 2)
        } else {
            stripped_from(trees, at + 1)
        }
    } else {
        seq![trees[at]] + stripped_from(trees, at + 1)
    }
}

/// The node without the attributes and comments among its children, and
/// without the blank space that follows one of them directly. What is
/// inside the other children stays.
#[must_use]
pub fn remove_attrs_and_docs<N: AstNode>(node: &N) -> (r: N)
    ensures
        r@ == node@.with_children(stripped_from(node@.children(), 0)),
{
    let syntax = node.syntax();
    let children = syntax.children_with_tokens();
    let n = children.len();
    let mut kept: Vec<GreenElement> = Vec::new();
    let mut i: usize = 0;
    proof {
        assert(trees(kept@) + stripped_from(node@.children(), 0) =~= stripped_from(
            node@.children(),
            0,
        ));
    }
    while i < n
        invariant
            i <= n,
            n == children@.len(),
            trees(children@) == node@.children(),
            trees(kept@) + stripped_from(node@.children(), i as int) == stripped_from(
                node@.children(),
                0,
            ),
        decreases n - i,
    {
        proof {
            assert(node@.children()[i as int] == children@[i as int]@);
        }
        let kind = children[i].kind();
        if kind == SyntaxKind::ATTR || kind == SyntaxKind::COMMENT {
            if i + 1 < n && children[i + 1].kind() == SyntaxKind::WHITESPACE {
                proof {
                    assert(node@.children()[i + 1] == children@[i + 1]@);
                }
                i = i + 2;
            } else {
                proof {
                    if i + 1 < n {
                        assert(node@.children()[i + 1] == children@[i + 1]@);
                    }
                }
                i = i + 1;
            }
        } else {
            let ghost before = trees(kept@);
            proof {
                lemma_trees_push(kept@, children@[i as int]);
            }
            kept.push(children[i].share());
            proof {
                assert(trees(kept@) + stripped_from(node@.children(), i + 1) =~= before + (seq![
                    node@.children()[i as int],
                ] + stripped_from(node@.children(), i + 1)));
            }
            i = i + 1;
        }
    }
    proof {
        assert(trees(kept@) + stripped_from(node@.children(), i as int) =~= trees(kept@));
    }
    recast(syntax.with_children(kept))
}

/// The index of the child that `position` names, for a position next to a
/// child.
pub open spec fn element_index(position: InsertPosition<SyntaxElement>) -> InsertPosition<usize> {
    match position {
        InsertPosition::First => InsertPosition::First,
        InsertPosition::Last => InsertPosition::Last,
        InsertPosition::Before(anchor) => InsertPosition::Before(anchor@.path.last() as usize),
        InsertPosition::After(anchor) => InsertPosition::After(anchor@.path.last() as usize),
    }
}

/// Whether `element` is a child of `parent`.
pub open spec fn is_child_of(element: NodeView, parent: NodeView) -> bool {
    &&& element.path.len() > 0
    &&& element == parent.child(element.path.last())
    &&& 0 <= element.path.last() < parent.children().len()
}

/// Whether the element that `position` names is a child of `parent`.
pub open spec fn positioned_in(position: InsertPosition<SyntaxElement>, parent: NodeView) -> bool {
    match position {
        InsertPosition::First => true,
        InsertPosition::Last => true,
        InsertPosition::Before(anchor) => is_child_of(anchor@, parent),
        InsertPosition::After(anchor) => is_child_of(anchor@, parent),
    }
}

/// Edits that every typed view of a node has.
pub trait AstNodeEdit: AstNode {
    /// The node with `to_insert` put among its children at `position`. An
    /// element that `position` names is a child of this node.
    #[must_use]
    fn insert_children(&self, position: InsertPosition<SyntaxElement>, to_insert: Vec<GreenElement>) -> (r:
        Self)
        requires
            positioned_in(position, self@),
        ensures
            r@ == self@.with_children(
                spliced(
                    self@.children(),
                    insertion_index(element_index(position), self@.children().len()),
                    insertion_index(element_index(position), self@.children().len()),
                    trees(to_insert@),
                ),
            ),
    {
        let syntax = self.syntax();
        let children = syntax.children_with_tokens();
        let at = match &position {
            InsertPosition::First => InsertPosition::First,
            InsertPosition::Last => InsertPosition::Last,
            InsertPosition::Before(anchor) => InsertPosition::Before(last_step(anchor)),
            InsertPosition::After(anchor) => InsertPosition::After(last_step(anchor)),
        };
        recast(insert_children(syntax, at, &to_insert))
    }

    /// The node with its children from `first` up to `last`, both of them
    /// its children and in this order, exchanged for `to_insert`.
    #[must_use]
    fn replace_children(&self, first: &SyntaxElement, last: &SyntaxElement, to_insert: Vec<GreenElement>) -> (r:
        Self)
        requires
            is_child_of(first@, self@),
            is_child_of(last@, self@),
            first@.path.last() <= last@.path.last() + 1,
        ensures
            r@ == self@.with_children(
                spliced(
                    self@.children(),
                    first@.path.last(),
                    last@.path.last() + 1,
                    trees(to_insert@),
                ),
            ),
    {
        let syntax = self.syntax();
        let children = syntax.children_with_tokens();
        let start = last_step(first);
        let end = last_step(last);
        recast(replace_children(syntax, start, end + 1, &to_insert))
    }

    /// The node with `new` in place of `old` inside it.
    #[must_use]
    fn replace_descendant<D: AstNode>(&self, old: D, new: D) -> (r: Self)
        ensures
            r@ == self@.with_children(
                rewritten_children(
                    self@.children(),
                    self@.children().len() as int,
                    self@.path,
                    Map::<Seq<int>, ReplacementView>::empty().insert(
                        old@.path,
                        ReplacementView::Single(new@.green()),
                    ),
                ),
            ),
    {
        let mut rewriter = SyntaxRewriter::new();
        rewriter.replace_node(old.syntax(), new.syntax());
        rewriter.rewrite_ast(self)
    }

    /// The node with, for each pair of `replacement_map` in turn, the
    /// second in place of the first inside it.
    #[must_use]
    fn replace_descendants<D: AstNode>(&self, replacement_map: Vec<(D, D)>) -> (r: Self)
        ensures
            r@ == self@.with_children(
                rewritten_children(
                    self@.children(),
                    self@.children().len() as int,
                    self@.path,
                    replacements_of(replacement_map@, replacement_map@.len() as int),
                ),
            ),
    {
        let mut rewriter = SyntaxRewriter::new();
        let mut i: usize = 0;
        while i < replacement_map.len()
            invariant
                i <= replacement_map@.len(),
                rewriter@ == replacements_of(replacement_map@, i as int),
            decreases replacement_map@.len() - i,
        {
            rewriter.replace_node(replacement_map[i].0.syntax(), replacement_map[i].1.syntax());
            i = i + 1;
        }
        rewriter.rewrite_ast(self)
    }
}

impl<N: AstNode> AstNodeEdit for N {

}

/// What the first `n` pairs of `pairs` say: the second of each pair is to
/// take the place of the first.
pub open spec fn replacements_of<D: AstNode>(pairs: Seq<(D, D)>, n: int) -> Map<
    Seq<int>,
    ReplacementView,
>
    decreases n,
{
    if n <= 0 || n > pairs.len() {
        Map::empty()
    } else {
        replacements_of(pairs, n - 1).insert(
            pairs[n - 1].0@.path,
            ReplacementView::Single(pairs[n - 1].1@.green()),
        )
    }
}

/// The index of an element among the children of its parent.
fn last_step(element: &SyntaxElement) -> (r: usize)
    requires
        element@.path.len() > 0,
    ensures
        r == element@.path.last(),
{
    let path = element.path();
    path[path.len() - 1]
}

/// A depth of indentation, in steps of four blanks.
#[derive(Debug, Clone, Copy)]
pub struct IndentLevel(pub u8);

impl From<u8> for IndentLevel {
    fn from(level: u8) -> (r: IndentLevel) {
        IndentLevel(level)
    }
}

impl vstd::std_specs::convert::FromSpecImpl<u8> for IndentLevel {
    open spec fn obeys_from_spec() -> bool {
        true
    }

    open spec fn from_spec(level: u8) -> IndentLevel {
        IndentLevel(level)
    }
}

impl IndentLevel {
    /// The number of blanks that the level stands for.
    pub open spec fn width(self) -> nat {
        (self.0 * 4) as nat
    }

    /// The depth at which the node stands: a quarter of the blanks between
    /// the last line break before the node and the node, as far as eight
    /// bits hold it, and zero where no line break stands before the node.
    pub fn from_node(node: &SyntaxNode) -> (r: IndentLevel)
        ensures
            r.0 == level_in(node@.leading_tokens(), node@.leading_tokens().len() as int) % 256,
    {
        let tokens = node.leading_tokens();
        let ghost all = token_trees(tokens@);
        let mut i: usize = tokens.len();
        while i > 0
            invariant
                i <= tokens@.len(),
                all == token_trees(tokens@),
                all == node@.leading_tokens(),
                level_in(all, all.len() as int) == level_in(all, i as int),
            decreases i,
        {
            let token = &tokens[i - 1];
            proof {
                assert(all[i - 1] == token@);
            }
            if token.kind == SyntaxKind::WHITESPACE {
                if let Some(tail) = suffix_after_last_newline(token.text.as_slice()) {
                    let level = tail.len() / 4;
                    return IndentLevel((level % 256) as u8);
                }
            }
            i = i - 1;
        }
        IndentLevel(0)
    }

    /// The node with its lines moved to the right by this level: every
    /// blank-space token inside the node that holds a line break gets four
    /// blanks for each step appended. Nothing else changes, inside the node
    /// and around it.
    pub fn increase_indent<N: AstNode>(self, node: N) -> (r: N)
        ensures
            r@ == node@.with_children(shifted_children(node@.green(), self.width(), true)),
    {
        let syntax = node.syntax();
        let children = shift_children(syntax.green(), self.0 as usize * 4, true);
        match N::cast(syntax.with_children(children)) {
            Some(n) => n,
            None => unreached(),
        }
    }

    /// The node with its lines moved to the left by this level: in every
    /// blank-space token inside the node, each line break that is followed
    /// by four blanks for each step loses them. Nothing else changes,
    /// inside the node and around it.
    pub fn decrease_indent<N: AstNode>(self, node: N) -> (r: N)
        ensures
            r@ == node@.with_children(shifted_children(node@.green(), self.width(), false)),
    {
        let syntax = node.syntax();
        let children = shift_children(syntax.green(), self.0 as usize * 4, false);
        match N::cast(syntax.with_children(children)) {
            Some(n) => n,
            None => unreached(),
        }
    }
}

} // verus!
