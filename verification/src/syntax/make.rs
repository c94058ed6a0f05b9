//! Pieces of syntax made from nothing: each is a tree of its own, shaped
//! as the parser shapes the text that it stands for.

use vstd::pervasive::unreached;
use vstd::prelude::*;
use crate::syntax::algo::whitespace;
use crate::syntax::ast::{
    Alias, AstNode, Expr, MatchArm, MatchArmList, Pat, Path, PathSegment, PlaceholderPat,
    UseTree, UseTreeList,
};
use crate::syntax::green::{GreenElement, GreenNode, Tree, lemma_trees_push, trees};
use crate::syntax::kind::SyntaxKind;
use crate::syntax::node::{NodeView, SyntaxNode};
use crate::syntax::text::chars_of;

verus! {

/// The token of a kind that always reads the same.
pub open spec fn fixed_token(kind: SyntaxKind) -> Tree {
    Tree::Token { kind, text: kind.spec_fixed_text()->0 }
}

/// A blank-space token.
pub open spec fn blank(text: Seq<char>) -> Tree {
    Tree::Token { kind: SyntaxKind::WHITESPACE, text }
}

/// A tree of its own, as a node in its place.
pub open spec fn root_of(kind: SyntaxKind, children: Seq<Tree>) -> NodeView {
    NodeView { root: Tree::Node { kind, children }, path: Seq::empty() }
}

/// The token of the kind `kind`, for a kind whose tokens always read the
/// same.
pub fn token(kind: SyntaxKind) -> (r: GreenElement)
    requires
        kind.spec_fixed_text() is Some,
    ensures
        r@ == fixed_token(kind),
{
    match kind.fixed_text() {
        Some(text) => GreenElement::token(kind, text),
        None => unreached(),
    }
}

/// One blank.
pub fn single_space() -> (r: GreenElement)
    ensures
        r@ == blank(" "@),
{
    whitespace(chars_of(" "))
}

/// The node of the kind `kind` with the children `children`, as a tree of
/// its own and taken as `N`.
fn root<N: AstNode>(kind: SyntaxKind, children: Vec<GreenElement>) -> (r: N)
    requires
        N::can_cast(kind),
    ensures
        r@ == root_of(kind, trees(children@)),
{
    let node = SyntaxNode::new_root(GreenNode::new(kind, children));
    match N::cast(node) {
        Some(n) => n,
        None => unreached(),
    }
}

/// `_`
pub fn placeholder_pat() -> (r: PlaceholderPat)
    ensures
        r@ == root_of(SyntaxKind::PLACEHOLDER_PAT, seq![fixed_token(SyntaxKind::UNDERSCORE)]),
{
    let mut children: Vec<GreenElement> = Vec::new();
    children.push(token(SyntaxKind::UNDERSCORE));
    proof {
        assert(trees(children@) =~= seq![fixed_token(SyntaxKind::UNDERSCORE)]);
    }
    root(SyntaxKind::PLACEHOLDER_PAT, children)
}

/// `()`
pub fn expr_unit() -> (r: Expr)
    ensures
        r@ == root_of(
            SyntaxKind::TUPLE_EXPR,
            seq![fixed_token(SyntaxKind::L_PAREN), fixed_token(SyntaxKind::R_PAREN)],
        ),
{
    let mut children: Vec<GreenElement> = Vec::new();
    children.push(token(SyntaxKind::L_PAREN));
    children.push(token(SyntaxKind::R_PAREN));
    proof {
        assert(trees(children@) =~= seq![
            fixed_token(SyntaxKind::L_PAREN),
            fixed_token(SyntaxKind::R_PAREN),
        ]);
    }
    root(SyntaxKind::TUPLE_EXPR, children)
}

/// The children of an arm with the first `n` of the patterns `pats`, before
/// its arrow: the patterns with ` | ` between them.
pub open spec fn arm_patterns(pats: Seq<Tree>, n: int) -> Seq<Tree>
    decreases n,
{
    if n <= 0 {
        Seq::empty()
    } else if n == 1 {
        seq![pats[0]]
    } else {
        arm_patterns(pats, n - 1) + seq![
            blank(" "@),
            fixed_token(SyntaxKind::PIPE),
            blank(" "@),
            pats[n - 1],
        ]
    }
}

/// The children of the arm `pats => expr`.
pub open spec fn arm_children(pats: Seq<Tree>, expr: Tree) -> Seq<Tree> {
    arm_patterns(pats, pats.len() as int) + seq![
        blank(" "@),
        fixed_token(SyntaxKind::FAT_ARROW),
        blank(" "@),
        expr,
    ]
}

/// The nodes of typed views, without what is around them.
pub open spec fn greens<N: AstNode>(nodes: Seq<N>) -> Seq<Tree> {
    Seq::new(nodes.len(), |i: int| nodes[i]@.green())
}

/// `pat | pat => expr`
pub fn match_arm(pats: Vec<Pat>, expr: Expr) -> (r: MatchArm)
    ensures
        r@ == root_of(SyntaxKind::MATCH_ARM, arm_children(greens(pats@), expr@.green())),
{
    let mut children: Vec<GreenElement> = Vec::new();
    let mut i: usize = 0;
    proof {
        assert(trees(children@) =~= arm_patterns(greens(pats@), 0));
    }
    while i < pats.len()
        invariant
            i <= pats@.len(),
            trees(children@) == arm_patterns(greens(pats@), i as int),
        decreases pats@.len() - i,
    {
        let ghost before = trees(children@);
        if i > 0 {
            let space = single_space();
            proof {
                lemma_trees_push(children@, space);
            }
            children.push(space);
            let pipe = token(SyntaxKind::PIPE);
            proof {
                lemma_trees_push(children@, pipe);
            }
            children.push(pipe);
            let space = single_space();
            proof {
                lemma_trees_push(children@, space);
            }
            children.push(space);
        }
        let pat = pats[i].syntax().green_element();
        proof {
            lemma_trees_push(children@, pat);
            assert(greens(pats@)[i as int] == pat@);
        }
        children.push(pat);
        proof {
            assert(trees(children@) =~= arm_patterns(greens(pats@), i + 1));
        }
        i = i + 1;
    }
    let ghost before = trees(children@);
    let space = single_space();
    proof {
        lemma_trees_push(children@, space);
    }
    children.push(space);
    let arrow = token(SyntaxKind::FAT_ARROW);
    proof {
        lemma_trees_push(children@, arrow);
    }
    children.push(arrow);
    let space = single_space();
    proof {
        lemma_trees_push(children@, space);
    }
    children.push(space);
    let body = expr.syntax().green_element();
    proof {
        lemma_trees_push(children@, body);
    }
    children.push(body);
    proof {
        assert(trees(children@) =~= arm_children(greens(pats@), expr@.green()));
    }
    root(SyntaxKind::MATCH_ARM, children)
}

/// The children of an arm list with the first `n` of the arms `arms`,
/// after its opening brace: each arm on a line of its own, indented by four
/// blanks and followed by a comma.
pub open spec fn listed_arms(arms: Seq<Tree>, n: int) -> Seq<Tree>
    decreases n,
{
    if n <= 0 {
        Seq::empty()
    } else {
        listed_arms(arms, n - 1) + seq![
            blank("\n    "@),
            arms[n - 1],
            fixed_token(SyntaxKind::COMMA),
        ]
    }
}

/// The children of the arm list of `arms`.
pub open spec fn arm_list_children(arms: Seq<Tree>) -> Seq<Tree> {
    seq![fixed_token(SyntaxKind::L_CURLY)] + listed_arms(arms, arms.len() as int) + seq![
        blank("\n"@),
        fixed_token(SyntaxKind::R_CURLY),
    ]
}

/// The arm list of `arms`, one arm on each line.
pub fn match_arm_list(arms: Vec<MatchArm>) -> (r: MatchArmList)
    ensures
        r@ == root_of(SyntaxKind::MATCH_ARM_LIST, arm_list_children(greens(arms@))),
{
    let mut children: Vec<GreenElement> = Vec::new();
    let open = token(SyntaxKind::L_CURLY);
    proof {
        lemma_trees_push(children@, open);
    }
    children.push(open);
    let mut i: usize = 0;
    proof {
        assert(trees(children@) =~= seq![fixed_token(SyntaxKind::L_CURLY)] + listed_arms(
            greens(arms@),
            0,
        ));
    }
    while i < arms.len()
        invariant
            i <= arms@.len(),
            trees(children@) == seq![fixed_token(SyntaxKind::L_CURLY)] + listed_arms(
                greens(arms@),
                i as int,
            ),
        decreases arms@.len() - i,
    {
        let ghost before = trees(children@);
        let ws = whitespace(chars_of("\n    "));
        proof {
            lemma_trees_push(children@, ws);
        }
        children.push(ws);
        let arm = arms[i].syntax().green_element();
        proof {
            lemma_trees_push(children@, arm);
            assert(greens(arms@)[i as int] == arm@);
        }
        children.push(arm);
        let comma = token(SyntaxKind::COMMA);
        proof {
            lemma_trees_push(children@, comma);
        }
        children.push(comma);
        proof {
            assert(trees(children@) =~= seq![fixed_token(SyntaxKind::L_CURLY)] + listed_arms(
                greens(arms@),
                i + 1,
            ));
        }
        i = i + 1;
    }
    let ws = whitespace(chars_of("\n"));
    proof {
        lemma_trees_push(children@, ws);
    }
    children.push(ws);
    let close = token(SyntaxKind::R_CURLY);
    proof {
        lemma_trees_push(children@, close);
    }
    children.push(close);
    proof {
        assert(trees(children@) =~= arm_list_children(greens(arms@)));
    }
    root(SyntaxKind::MATCH_ARM_LIST, children)
}

/// The children of the path that is the one segment `segment`.
pub open spec fn unqualified_children(segment: Tree) -> Seq<Tree> {
    seq![segment]
}

/// The path that is the one segment `segment`.
pub fn path_unqualified(segment: PathSegment) -> (r: Path)
    ensures
        r@ == root_of(SyntaxKind::PATH, unqualified_children(segment@.green())),
{
    let mut children: Vec<GreenElement> = Vec::new();
    children.push(segment.syntax().green_element());
    proof {
        assert(trees(children@) =~= unqualified_children(segment@.green()));
    }
    root(SyntaxKind::PATH, children)
}

/// The children of the path `qual::segment`.
pub open spec fn qualified_children(qual: Tree, segment: Tree) -> Seq<Tree> {
    seq![qual, fixed_token(SyntaxKind::COLONCOLON), segment]
}

/// The path `qual::segment`.
pub fn path_qualified(qual: Path, segment: PathSegment) -> (r: Path)
    ensures
        r@ == root_of(SyntaxKind::PATH, qualified_children(qual@.green(), segment@.green())),
{
    let mut children: Vec<GreenElement> = Vec::new();
    children.push(qual.syntax().green_element());
    children.push(token(SyntaxKind::COLONCOLON));
    children.push(segment.syntax().green_element());
    proof {
        assert(trees(children@) =~= qualified_children(qual@.green(), segment@.green()));
    }
    root(SyntaxKind::PATH, children)
}

/// The children of a use tree: its path, then `::` and its list where it
/// has one, then `::*` where it ends with a star, then a blank and its
/// alias where it has one.
pub open spec fn use_tree_children(path: Tree, list: Option<Tree>, alias: Option<Tree>, add_star: bool) -> Seq<Tree> {
    seq![path] + (match list {
        Some(list) => seq![fixed_token(SyntaxKind::COLONCOLON), list],
        None => Seq::empty(),
    }) + (if add_star {
        seq![fixed_token(SyntaxKind::COLONCOLON), fixed_token(SyntaxKind::STAR)]
    } else {
        Seq::empty()
    }) + (match alias {
        Some(alias) => seq![blank(" "@), alias],
        None => Seq::empty(),
    })
}

/// The green node of an optional typed view.
pub open spec fn green_of<N: AstNode>(node: Option<N>) -> Option<Tree> {
    match node {
        Some(n) => Some(n@.green()),
        None => None,
    }
}

/// The use tree `path::{..}::* alias`, with the parts that are given.
pub fn use_tree(path: Path, use_tree_list: Option<UseTreeList>, alias: Option<Alias>, add_star: bool) -> (r:
    UseTree)
    ensures
        r@ == root_of(
            SyntaxKind::USE_TREE,
            use_tree_children(path@.green(), green_of(use_tree_list), green_of(alias), add_star),
        ),
{
    let mut children: Vec<GreenElement> = Vec::new();
    let first = path.syntax().green_element();
    proof {
        lemma_trees_push(children@, first);
    }
    children.push(first);
    proof {
        assert(trees(children@) =~= seq![path@.green()]);
    }
    if let Some(list) = &use_tree_list {
        let ghost before = trees(children@);
        let sep = token(SyntaxKind::COLONCOLON);
        proof {
            lemma_trees_push(children@, sep);
        }
        children.push(sep);
        let list = list.syntax().green_element();
        proof {
            lemma_trees_push(children@, list);
        }
        children.push(list);
        proof {
            assert(trees(children@) =~= before + seq![fixed_token(SyntaxKind::COLONCOLON), list@]);
        }
    }
    let ghost with_list = trees(children@);
    if add_star {
        let sep = token(SyntaxKind::COLONCOLON);
        proof {
            lemma_trees_push(children@, sep);
        }
        children.push(sep);
        let star = token(SyntaxKind::STAR);
        proof {
            lemma_trees_push(children@, star);
        }
        children.push(star);
        proof {
            assert(trees(children@) =~= with_list + seq![
                fixed_token(SyntaxKind::COLONCOLON),
                fixed_token(SyntaxKind::STAR),
            ]);
        }
    }
    let ghost with_star = trees(children@);
    if let Some(alias) = &alias {
        let space = single_space();
        proof {
            lemma_trees_push(children@, space);
        }
        children.push(space);
        let alias = alias.syntax().green_element();
        proof {
            lemma_trees_push(children@, alias);
        }
        children.push(alias);
        proof {
            assert(trees(children@) =~= with_star + seq![blank(" "@), alias@]);
        }
    }
    proof {
        assert(trees(children@) =~= use_tree_children(
            path@.green(),
            green_of(use_tree_list),
            green_of(alias),
            add_star,
        ));
    }
    root(SyntaxKind::USE_TREE, children)
}

/// The children of a use tree list with the first `n` of `use_trees`,
/// after its opening brace: the use trees with `, ` between them.
pub open spec fn listed_use_trees(use_trees: Seq<Tree>, n: int) -> Seq<Tree>
    decreases n,
{
    if n <= 0 {
        Seq::empty()
    } else if n == 1 {
        seq![use_trees[0]]
    } else {
        listed_use_trees(use_trees, n - 1) + seq![
            fixed_token(SyntaxKind::COMMA),
            blank(" "@),
            use_trees[n - 1],
        ]
    }
}

/// The children of the use tree list of `use_trees`.
pub open spec fn use_tree_list_children(use_trees: Seq<Tree>) -> Seq<Tree> {
    seq![fixed_token(SyntaxKind::L_CURLY)] + listed_use_trees(use_trees, use_trees.len() as int)
        + seq![fixed_token(SyntaxKind::R_CURLY)]
}

/// The list `{a, b}` of `use_trees`.
pub fn use_tree_list(use_trees: Vec<UseTree>) -> (r: UseTreeList)
    ensures
        r@ == root_of(SyntaxKind::USE_TREE_LIST, use_tree_list_children(greens(use_trees@))),
{
    let mut children: Vec<GreenElement> = Vec::new();
    let open = token(SyntaxKind::L_CURLY);
    proof {
        lemma_trees_push(children@, open);
    }
    children.push(open);
    let mut i: usize = 0;
    proof {
        assert(trees(children@) =~= seq![fixed_token(SyntaxKind::L_CURLY)] + listed_use_trees(
            greens(use_trees@),
            0,
        ));
    }
    while i < use_trees.len()
        invariant
            i <= use_trees@.len(),
            trees(children@) == seq![fixed_token(SyntaxKind::L_CURLY)] + listed_use_trees(
                greens(use_trees@),
                i as int,
            ),
        decreases use_trees@.len() - i,
    {
        if i > 0 {
            let comma = token(SyntaxKind::COMMA);
            proof {
                lemma_trees_push(children@, comma);
            }
            children.push(comma);
            let space = single_space();
            proof {
                lemma_trees_push(children@, space);
            }
            children.push(space);
        }
        let tree = use_trees[i].syntax().green_element();
        proof {
            lemma_trees_push(children@, tree);
            assert(greens(use_trees@)[i as int] == tree@);
        }
        children.push(tree);
        proof {
            assert(trees(children@) =~= seq![fixed_token(SyntaxKind::L_CURLY)] + listed_use_trees(
                greens(use_trees@),
                i + 1,
            ));
        }
        i = i + 1;
    }
    let close = token(SyntaxKind::R_CURLY);
    proof {
        lemma_trees_push(children@, close);
    }
    children.push(close);
    proof {
        assert(trees(children@) =~= use_tree_list_children(greens(use_trees@)));
    }
    root(SyntaxKind::USE_TREE_LIST, children)
}

} // verus!
