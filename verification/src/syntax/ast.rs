//! Typed views of nodes: a node of a known kind, with names for its parts.

use vstd::prelude::*;
use crate::syntax::algo::{
    first_where, last_where, lemma_first_where_found, lemma_first_where_none,
    lemma_last_where_found, lemma_last_where_none,
};
use crate::syntax::green::{GreenElement, Tree, trees};
use crate::syntax::kind::SyntaxKind;
use crate::syntax::node::{NodeView, SyntaxNode};

verus! {

/// A node of one of the kinds that the type stands for.
pub trait AstNode: Sized + View<V = NodeView> {
    /// Whether a node of the kind `kind` can be taken as this type.
    spec fn can_cast(kind: SyntaxKind) -> bool;

    /// Whether a node of the kind `kind` can be taken as this type.
    fn can_cast_kind(kind: SyntaxKind) -> (r: bool)
        ensures
            r == Self::can_cast(kind),
    ;

    /// The node as this type, where its kind allows it.
    fn cast(syntax: SyntaxNode) -> (r: Option<Self>)
        ensures
            r is Some <==> Self::can_cast(syntax@.kind()),
            r matches Some(n) ==> n@ == syntax@,
    ;

    /// The node that is viewed.
    fn syntax(&self) -> (r: &SyntaxNode)
        ensures
            r@ == self@,
            r@.wf(),
            Self::can_cast(r@.kind()),
    ;
}

/// The property of being a node that can be taken as `N`.
pub open spec fn castable<N: AstNode>() -> spec_fn(Tree) -> bool {
    |t: Tree| t is Node && N::can_cast(t.kind())
}

/// The first child from `from` on that can be taken as `N`.
pub fn find_child<N: AstNode>(children: &Vec<GreenElement>, from: usize) -> (r: Option<usize>)
    ensures
        r matches Some(i) ==> first_where(trees(children@), castable::<N>(), from as int) == Some(
            i as int,
        ) && from <= i < children@.len() && i < usize::MAX && children@[i as int] is Node && N::can_cast(
            children@[i as int]@.kind(),
        ),
        r is None ==> first_where(trees(children@), castable::<N>(), from as int) is None,
{
    let mut i: usize = from;
    while i < children.len()
        invariant
            from <= i,
            forall|j: int| from <= j < i && j < children@.len() ==> !castable::<N>()(
                #[trigger] trees(children@)[j],
            ),
        decreases children@.len() - i,
    {
        let found = match &children[i] {
            GreenElement::Node(n) => N::can_cast_kind(n.kind),
            GreenElement::Token(_) => false,
        };
        proof {
            assert(trees(children@)[i as int] == children@[i as int]@);
        }
        if found {
            proof {
                lemma_first_where_found(trees(children@), castable::<N>(), from as int, i as int);
            }
            return Some(i);
        }
        i = i + 1;
    }
    proof {
        lemma_first_where_none(trees(children@), castable::<N>(), from as int);
    }
    None
}

/// The last child that can be taken as `N`.
pub fn find_last_child<N: AstNode>(children: &Vec<GreenElement>) -> (r: Option<usize>)
    ensures
        r matches Some(i) ==> last_where(trees(children@), castable::<N>()) == Some(i as int) && i
            < children@.len() && i < usize::MAX && children@[i as int] is Node && N::can_cast(
            children@[i as int]@.kind(),
        ),
        r is None ==> last_where(trees(children@), castable::<N>()) is None,
{
    let mut i: usize = children.len();
    while i > 0
        invariant
            i <= children@.len(),
            forall|j: int| i <= j < children@.len() ==> !castable::<N>()(
                #[trigger] trees(children@)[j],
            ),
        decreases i,
    {
        let found = match &children[i - 1] {
            GreenElement::Node(n) => N::can_cast_kind(n.kind),
            GreenElement::Token(_) => false,
        };
        proof {
            assert(trees(children@)[i - 1] == children@[i - 1]@);
        }
        if found {
            proof {
                lemma_last_where_found(trees(children@), castable::<N>(), i - 1);
            }
            return Some(i - 1);
        }
        i = i - 1;
    }
    proof {
        lemma_last_where_none(trees(children@), castable::<N>());
    }
    None
}

/// The first child of `parent` that can be taken as `N`, in its place.
pub fn child<N: AstNode>(parent: &SyntaxNode) -> (r: Option<N>)
    ensures
        match first_where(parent@.children(), castable::<N>(), 0) {
            Some(i) => r matches Some(n) && n@ == parent@.child(i) && n@.green()
                == parent@.children()[i],
            None => r is None,
        },
{
    let children = parent.children_with_tokens();
    match find_child::<N>(children, 0) {
        Some(i) => {
            proof {
                assert(parent@.children()[i as int] == children@[i as int]@);
            }
            match parent.child(i) {
                Some(c) => N::cast(c),
                None => None,
            }
        },
        None => None,
    }
}

/// A binary expression: `a + b`.
pub struct BinExpr {
    syntax: SyntaxNode,
}

impl View for BinExpr {
    type V = NodeView;

    closed spec fn view(&self) -> NodeView {
        self.syntax@
    }
}

impl BinExpr {
    #[verifier::type_invariant]
    closed spec fn inv(self) -> bool {
        Self::can_cast(self.syntax@.kind())
    }
}

impl AstNode for BinExpr {
    open spec fn can_cast(kind: SyntaxKind) -> bool {
        kind == SyntaxKind::BIN_EXPR
    }

    fn can_cast_kind(kind: SyntaxKind) -> (r: bool) {
        kind == SyntaxKind::BIN_EXPR
    }

    fn cast(syntax: SyntaxNode) -> (r: Option<Self>) {
        if Self::can_cast_kind(syntax.kind()) {
            Some(BinExpr { syntax })
        } else {
            None
        }
    }

    fn syntax(&self) -> (r: &SyntaxNode) {
        proof {
            use_type_invariant(self);
            use_type_invariant(&self.syntax);
        }
        &self.syntax
    }
}

/// A function: `fn f() {}`.
pub struct FnDef {
    syntax: SyntaxNode,
}

impl View for FnDef {
    type V = NodeView;

    closed spec fn view(&self) -> NodeView {
        self.syntax@
    }
}

impl FnDef {
    #[verifier::type_invariant]
    closed spec fn inv(self) -> bool {
        Self::can_cast(self.syntax@.kind())
    }
}

impl AstNode for FnDef {
    open spec fn can_cast(kind: SyntaxKind) -> bool {
        kind == SyntaxKind::FN_DEF
    }

    fn can_cast_kind(kind: SyntaxKind) -> (r: bool) {
        kind == SyntaxKind::FN_DEF
    }

    fn cast(syntax: SyntaxNode) -> (r: Option<Self>) {
        if Self::can_cast_kind(syntax.kind()) {
            Some(FnDef { syntax })
        } else {
            None
        }
    }

    fn syntax(&self) -> (r: &SyntaxNode) {
        proof {
            use_type_invariant(self);
            use_type_invariant(&self.syntax);
        }
        &self.syntax
    }
}

/// The statements of a block, between their braces.
pub struct Block {
    syntax: SyntaxNode,
}

impl View for Block {
    type V = NodeView;

    closed spec fn view(&self) -> NodeView {
        self.syntax@
    }
}

impl Block {
    #[verifier::type_invariant]
    closed spec fn inv(self) -> bool {
        Self::can_cast(self.syntax@.kind())
    }
}

impl AstNode for Block {
    open spec fn can_cast(kind: SyntaxKind) -> bool {
        kind == SyntaxKind::BLOCK
    }

    fn can_cast_kind(kind: SyntaxKind) -> (r: bool) {
        kind == SyntaxKind::BLOCK
    }

    fn cast(syntax: SyntaxNode) -> (r: Option<Self>) {
        if Self::can_cast_kind(syntax.kind()) {
            Some(Block { syntax })
        } else {
            None
        }
    }

    fn syntax(&self) -> (r: &SyntaxNode) {
        proof {
            use_type_invariant(self);
            use_type_invariant(&self.syntax);
        }
        &self.syntax
    }
}

/// A block as an expression.
pub struct BlockExpr {
    syntax: SyntaxNode,
}

impl View for BlockExpr {
    type V = NodeView;

    closed spec fn view(&self) -> NodeView {
        self.syntax@
    }
}

impl BlockExpr {
    #[verifier::type_invariant]
    closed spec fn inv(self) -> bool {
        Self::can_cast(self.syntax@.kind())
    }
}

impl AstNode for BlockExpr {
    open spec fn can_cast(kind: SyntaxKind) -> bool {
        kind == SyntaxKind::BLOCK_EXPR
    }

    fn can_cast_kind(kind: SyntaxKind) -> (r: bool) {
        kind == SyntaxKind::BLOCK_EXPR
    }

    fn cast(syntax: SyntaxNode) -> (r: Option<Self>) {
        if Self::can_cast_kind(syntax.kind()) {
            Some(BlockExpr { syntax })
        } else {
            None
        }
    }

    fn syntax(&self) -> (r: &SyntaxNode) {
        proof {
            use_type_invariant(self);
            use_type_invariant(&self.syntax);
        }
        &self.syntax
    }
}

/// The items of an impl or a trait, between their braces.
pub struct ItemList {
    syntax: SyntaxNode,
}

impl View for ItemList {
    type V = NodeView;

    closed spec fn view(&self) -> NodeView {
        self.syntax@
    }
}

impl ItemList {
    #[verifier::type_invariant]
    closed spec fn inv(self) -> bool {
        Self::can_cast(self.syntax@.kind())
    }
}

impl AstNode for ItemList {
    open spec fn can_cast(kind: SyntaxKind) -> bool {
        kind == SyntaxKind::ITEM_LIST
    }

    fn can_cast_kind(kind: SyntaxKind) -> (r: bool) {
        kind == SyntaxKind::ITEM_LIST
    }

    fn cast(syntax: SyntaxNode) -> (r: Option<Self>) {
        if Self::can_cast_kind(syntax.kind()) {
            Some(ItemList { syntax })
        } else {
            None
        }
    }

    fn syntax(&self) -> (r: &SyntaxNode) {
        proof {
            use_type_invariant(self);
            use_type_invariant(&self.syntax);
        }
        &self.syntax
    }
}

/// The fields of a record literal, between their braces.
pub struct RecordFieldList {
    syntax: SyntaxNode,
}

impl View for RecordFieldList {
    type V = NodeView;

    closed spec fn view(&self) -> NodeView {
        self.syntax@
    }
}

impl RecordFieldList {
    #[verifier::type_invariant]
    closed spec fn inv(self) -> bool {
        Self::can_cast(self.syntax@.kind())
    }
}

impl AstNode for RecordFieldList {
    open spec fn can_cast(kind: SyntaxKind) -> bool {
        kind == SyntaxKind::RECORD_FIELD_LIST
    }

    fn can_cast_kind(kind: SyntaxKind) -> (r: bool) {
        kind == SyntaxKind::RECORD_FIELD_LIST
    }

    fn cast(syntax: SyntaxNode) -> (r: Option<Self>) {
        if Self::can_cast_kind(syntax.kind()) {
            Some(RecordFieldList { syntax })
        } else {
            None
        }
    }

    fn syntax(&self) -> (r: &SyntaxNode) {
        proof {
            use_type_invariant(self);
            use_type_invariant(&self.syntax);
        }
        &self.syntax
    }
}

/// A field of a record literal: `x: 1`.
pub struct RecordField {
    syntax: SyntaxNode,
}

impl View for RecordField {
    type V = NodeView;

    closed spec fn view(&self) -> NodeView {
        self.syntax@
    }
}

impl RecordField {
    #[verifier::type_invariant]
    closed spec fn inv(self) -> bool {
        Self::can_cast(self.syntax@.kind())
    }
}

impl AstNode for RecordField {
    open spec fn can_cast(kind: SyntaxKind) -> bool {
        kind == SyntaxKind::RECORD_FIELD
    }

    fn can_cast_kind(kind: SyntaxKind) -> (r: bool) {
        kind == SyntaxKind::RECORD_FIELD
    }

    fn cast(syntax: SyntaxNode) -> (r: Option<Self>) {
        if Self::can_cast_kind(syntax.kind()) {
            Some(RecordField { syntax })
        } else {
            None
        }
    }

    fn syntax(&self) -> (r: &SyntaxNode) {
        proof {
            use_type_invariant(self);
            use_type_invariant(&self.syntax);
        }
        &self.syntax
    }
}

/// A type parameter with its bounds: `T: Clone`.
pub struct TypeParam {
    syntax: SyntaxNode,
}

impl View for TypeParam {
    type V = NodeView;

    closed spec fn view(&self) -> NodeView {
        self.syntax@
    }
}

impl TypeParam {
    #[verifier::type_invariant]
    closed spec fn inv(self) -> bool {
        Self::can_cast(self.syntax@.kind())
    }
}

impl AstNode for TypeParam {
    open spec fn can_cast(kind: SyntaxKind) -> bool {
        kind == SyntaxKind::TYPE_PARAM
    }

    fn can_cast_kind(kind: SyntaxKind) -> (r: bool) {
        kind == SyntaxKind::TYPE_PARAM
    }

    fn cast(syntax: SyntaxNode) -> (r: Option<Self>) {
        if Self::can_cast_kind(syntax.kind()) {
            Some(TypeParam { syntax })
        } else {
            None
        }
    }

    fn syntax(&self) -> (r: &SyntaxNode) {
        proof {
            use_type_invariant(self);
            use_type_invariant(&self.syntax);
        }
        &self.syntax
    }
}

/// The bounds of a type parameter.
pub struct TypeBoundList {
    syntax: SyntaxNode,
}

impl View for TypeBoundList {
    type V = NodeView;

    closed spec fn view(&self) -> NodeView {
        self.syntax@
    }
}

impl TypeBoundList {
    #[verifier::type_invariant]
    closed spec fn inv(self) -> bool {
        Self::can_cast(self.syntax@.kind())
    }
}

impl AstNode for TypeBoundList {
    open spec fn can_cast(kind: SyntaxKind) -> bool {
        kind == SyntaxKind::TYPE_BOUND_LIST
    }

    fn can_cast_kind(kind: SyntaxKind) -> (r: bool) {
        kind == SyntaxKind::TYPE_BOUND_LIST
    }

    fn cast(syntax: SyntaxNode) -> (r: Option<Self>) {
        if Self::can_cast_kind(syntax.kind()) {
            Some(TypeBoundList { syntax })
        } else {
            None
        }
    }

    fn syntax(&self) -> (r: &SyntaxNode) {
        proof {
            use_type_invariant(self);
            use_type_invariant(&self.syntax);
        }
        &self.syntax
    }
}

/// A path: `a::b::c`.
pub struct Path {
    syntax: SyntaxNode,
}

impl View for Path {
    type V = NodeView;

    closed spec fn view(&self) -> NodeView {
        self.syntax@
    }
}

impl Path {
    #[verifier::type_invariant]
    closed spec fn inv(self) -> bool {
        Self::can_cast(self.syntax@.kind())
    }
}

impl AstNode for Path {
    open spec fn can_cast(kind: SyntaxKind) -> bool {
        kind == SyntaxKind::PATH
    }

    fn can_cast_kind(kind: SyntaxKind) -> (r: bool) {
        kind == SyntaxKind::PATH
    }

    fn cast(syntax: SyntaxNode) -> (r: Option<Self>) {
        if Self::can_cast_kind(syntax.kind()) {
            Some(Path { syntax })
        } else {
            None
        }
    }

    fn syntax(&self) -> (r: &SyntaxNode) {
        proof {
            use_type_invariant(self);
            use_type_invariant(&self.syntax);
        }
        &self.syntax
    }
}

/// One segment of a path.
pub struct PathSegment {
    syntax: SyntaxNode,
}

impl View for PathSegment {
    type V = NodeView;

    closed spec fn view(&self) -> NodeView {
        self.syntax@
    }
}

impl PathSegment {
    #[verifier::type_invariant]
    closed spec fn inv(self) -> bool {
        Self::can_cast(self.syntax@.kind())
    }
}

impl AstNode for PathSegment {
    open spec fn can_cast(kind: SyntaxKind) -> bool {
        kind == SyntaxKind::PATH_SEGMENT
    }

    fn can_cast_kind(kind: SyntaxKind) -> (r: bool) {
        kind == SyntaxKind::PATH_SEGMENT
    }

    fn cast(syntax: SyntaxNode) -> (r: Option<Self>) {
        if Self::can_cast_kind(syntax.kind()) {
            Some(PathSegment { syntax })
        } else {
            None
        }
    }

    fn syntax(&self) -> (r: &SyntaxNode) {
        proof {
            use_type_invariant(self);
            use_type_invariant(&self.syntax);
        }
        &self.syntax
    }
}

/// The type arguments of a path segment: `<T, U>`.
pub struct TypeArgList {
    syntax: SyntaxNode,
}

impl View for TypeArgList {
    type V = NodeView;

    closed spec fn view(&self) -> NodeView {
        self.syntax@
    }
}

impl TypeArgList {
    #[verifier::type_invariant]
    closed spec fn inv(self) -> bool {
        Self::can_cast(self.syntax@.kind())
    }
}

impl AstNode for TypeArgList {
    open spec fn can_cast(kind: SyntaxKind) -> bool {
        kind == SyntaxKind::TYPE_ARG_LIST
    }

    fn can_cast_kind(kind: SyntaxKind) -> (r: bool) {
        kind == SyntaxKind::TYPE_ARG_LIST
    }

    fn cast(syntax: SyntaxNode) -> (r: Option<Self>) {
        if Self::can_cast_kind(syntax.kind()) {
            Some(TypeArgList { syntax })
        } else {
            None
        }
    }

    fn syntax(&self) -> (r: &SyntaxNode) {
        proof {
            use_type_invariant(self);
            use_type_invariant(&self.syntax);
        }
        &self.syntax
    }
}

/// A use item: `use a::b;`.
pub struct UseItem {
    syntax: SyntaxNode,
}

impl View for UseItem {
    type V = NodeView;

    closed spec fn view(&self) -> NodeView {
        self.syntax@
    }
}

impl UseItem {
    #[verifier::type_invariant]
    closed spec fn inv(self) -> bool {
        Self::can_cast(self.syntax@.kind())
    }
}

impl AstNode for UseItem {
    open spec fn can_cast(kind: SyntaxKind) -> bool {
        kind == SyntaxKind::USE_ITEM
    }

    fn can_cast_kind(kind: SyntaxKind) -> (r: bool) {
        kind == SyntaxKind::USE_ITEM
    }

    fn cast(syntax: SyntaxNode) -> (r: Option<Self>) {
        if Self::can_cast_kind(syntax.kind()) {
            Some(UseItem { syntax })
        } else {
            None
        }
    }

    fn syntax(&self) -> (r: &SyntaxNode) {
        proof {
            use_type_invariant(self);
            use_type_invariant(&self.syntax);
        }
        &self.syntax
    }
}

/// A use tree: `a::{b, c}`.
pub struct UseTree {
    syntax: SyntaxNode,
}

impl View for UseTree {
    type V = NodeView;

    closed spec fn view(&self) -> NodeView {
        self.syntax@
    }
}

impl UseTree {
    #[verifier::type_invariant]
    closed spec fn inv(self) -> bool {
        Self::can_cast(self.syntax@.kind())
    }
}

impl AstNode for UseTree {
    open spec fn can_cast(kind: SyntaxKind) -> bool {
        kind == SyntaxKind::USE_TREE
    }

    fn can_cast_kind(kind: SyntaxKind) -> (r: bool) {
        kind == SyntaxKind::USE_TREE
    }

    fn cast(syntax: SyntaxNode) -> (r: Option<Self>) {
        if Self::can_cast_kind(syntax.kind()) {
            Some(UseTree { syntax })
        } else {
            None
        }
    }

    fn syntax(&self) -> (r: &SyntaxNode) {
        proof {
            use_type_invariant(self);
            use_type_invariant(&self.syntax);
        }
        &self.syntax
    }
}

/// The use trees between braces.
pub struct UseTreeList {
    syntax: SyntaxNode,
}

impl View for UseTreeList {
    type V = NodeView;

    closed spec fn view(&self) -> NodeView {
        self.syntax@
    }
}

impl UseTreeList {
    #[verifier::type_invariant]
    closed spec fn inv(self) -> bool {
        Self::can_cast(self.syntax@.kind())
    }
}

impl AstNode for UseTreeList {
    open spec fn can_cast(kind: SyntaxKind) -> bool {
        kind == SyntaxKind::USE_TREE_LIST
    }

    fn can_cast_kind(kind: SyntaxKind) -> (r: bool) {
        kind == SyntaxKind::USE_TREE_LIST
    }

    fn cast(syntax: SyntaxNode) -> (r: Option<Self>) {
        if Self::can_cast_kind(syntax.kind()) {
            Some(UseTreeList { syntax })
        } else {
            None
        }
    }

    fn syntax(&self) -> (r: &SyntaxNode) {
        proof {
            use_type_invariant(self);
            use_type_invariant(&self.syntax);
        }
        &self.syntax
    }
}

/// An alias: `as name`.
pub struct Alias {
    syntax: SyntaxNode,
}

impl View for Alias {
    type V = NodeView;

    closed spec fn view(&self) -> NodeView {
        self.syntax@
    }
}

impl Alias {
    #[verifier::type_invariant]
    closed spec fn inv(self) -> bool {
        Self::can_cast(self.syntax@.kind())
    }
}

impl AstNode for Alias {
    open spec fn can_cast(kind: SyntaxKind) -> bool {
        kind == SyntaxKind::ALIAS
    }

    fn can_cast_kind(kind: SyntaxKind) -> (r: bool) {
        kind == SyntaxKind::ALIAS
    }

    fn cast(syntax: SyntaxNode) -> (r: Option<Self>) {
        if Self::can_cast_kind(syntax.kind()) {
            Some(Alias { syntax })
        } else {
            None
        }
    }

    fn syntax(&self) -> (r: &SyntaxNode) {
        proof {
            use_type_invariant(self);
            use_type_invariant(&self.syntax);
        }
        &self.syntax
    }
}

/// The arms of a match, between their braces.
pub struct MatchArmList {
    syntax: SyntaxNode,
}

impl View for MatchArmList {
    type V = NodeView;

    closed spec fn view(&self) -> NodeView {
        self.syntax@
    }
}

impl MatchArmList {
    #[verifier::type_invariant]
    closed spec fn inv(self) -> bool {
        Self::can_cast(self.syntax@.kind())
    }
}

impl AstNode for MatchArmList {
    open spec fn can_cast(kind: SyntaxKind) -> bool {
        kind == SyntaxKind::MATCH_ARM_LIST
    }

    fn can_cast_kind(kind: SyntaxKind) -> (r: bool) {
        kind == SyntaxKind::MATCH_ARM_LIST
    }

    fn cast(syntax: SyntaxNode) -> (r: Option<Self>) {
        if Self::can_cast_kind(syntax.kind()) {
            Some(MatchArmList { syntax })
        } else {
            None
        }
    }

    fn syntax(&self) -> (r: &SyntaxNode) {
        proof {
            use_type_invariant(self);
            use_type_invariant(&self.syntax);
        }
        &self.syntax
    }
}

/// An arm of a match: `pat => expr`.
pub struct MatchArm {
    syntax: SyntaxNode,
}

impl View for MatchArm {
    type V = NodeView;

    closed spec fn view(&self) -> NodeView {
        self.syntax@
    }
}

impl MatchArm {
    #[verifier::type_invariant]
    closed spec fn inv(self) -> bool {
        Self::can_cast(self.syntax@.kind())
    }
}

impl AstNode for MatchArm {
    open spec fn can_cast(kind: SyntaxKind) -> bool {
        kind == SyntaxKind::MATCH_ARM
    }

    fn can_cast_kind(kind: SyntaxKind) -> (r: bool) {
        kind == SyntaxKind::MATCH_ARM
    }

    fn cast(syntax: SyntaxNode) -> (r: Option<Self>) {
        if Self::can_cast_kind(syntax.kind()) {
            Some(MatchArm { syntax })
        } else {
            None
        }
    }

    fn syntax(&self) -> (r: &SyntaxNode) {
        proof {
            use_type_invariant(self);
            use_type_invariant(&self.syntax);
        }
        &self.syntax
    }
}

/// The pattern `_`.
pub struct PlaceholderPat {
    syntax: SyntaxNode,
}

impl View for PlaceholderPat {
    type V = NodeView;

    closed spec fn view(&self) -> NodeView {
        self.syntax@
    }
}

impl PlaceholderPat {
    #[verifier::type_invariant]
    closed spec fn inv(self) -> bool {
        Self::can_cast(self.syntax@.kind())
    }
}

impl AstNode for PlaceholderPat {
    open spec fn can_cast(kind: SyntaxKind) -> bool {
        kind == SyntaxKind::PLACEHOLDER_PAT
    }

    fn can_cast_kind(kind: SyntaxKind) -> (r: bool) {
        kind == SyntaxKind::PLACEHOLDER_PAT
    }

    fn cast(syntax: SyntaxNode) -> (r: Option<Self>) {
        if Self::can_cast_kind(syntax.kind()) {
            Some(PlaceholderPat { syntax })
        } else {
            None
        }
    }

    fn syntax(&self) -> (r: &SyntaxNode) {
        proof {
            use_type_invariant(self);
            use_type_invariant(&self.syntax);
        }
        &self.syntax
    }
}

/// An item of an impl: a function, a type alias or a constant.
pub struct ImplItem {
    syntax: SyntaxNode,
}

impl View for ImplItem {
    type V = NodeView;

    closed spec fn view(&self) -> NodeView {
        self.syntax@
    }
}

impl ImplItem {
    #[verifier::type_invariant]
    closed spec fn inv(self) -> bool {
        Self::can_cast(self.syntax@.kind())
    }
}

impl AstNode for ImplItem {
    open spec fn can_cast(kind: SyntaxKind) -> bool {
        kind == SyntaxKind::FN_DEF || kind == SyntaxKind::TYPE_ALIAS_DEF
            || kind == SyntaxKind::CONST_DEF
    }

    fn can_cast_kind(kind: SyntaxKind) -> (r: bool) {
        match kind {
            SyntaxKind::FN_DEF
            | SyntaxKind::TYPE_ALIAS_DEF
            | SyntaxKind::CONST_DEF => true,
            _ => false,
        }
    }

    fn cast(syntax: SyntaxNode) -> (r: Option<Self>) {
        if Self::can_cast_kind(syntax.kind()) {
            Some(ImplItem { syntax })
        } else {
            None
        }
    }

    fn syntax(&self) -> (r: &SyntaxNode) {
        proof {
            use_type_invariant(self);
            use_type_invariant(&self.syntax);
        }
        &self.syntax
    }
}

/// A pattern.
pub struct Pat {
    syntax: SyntaxNode,
}

impl View for Pat {
    type V = NodeView;

    closed spec fn view(&self) -> NodeView {
        self.syntax@
    }
}

impl Pat {
    #[verifier::type_invariant]
    closed spec fn inv(self) -> bool {
        Self::can_cast(self.syntax@.kind())
    }
}

impl AstNode for Pat {
    open spec fn can_cast(kind: SyntaxKind) -> bool {
        kind == SyntaxKind::PLACEHOLDER_PAT || kind == SyntaxKind::BIND_PAT
            || kind == SyntaxKind::PATH_PAT
    }

    fn can_cast_kind(kind: SyntaxKind) -> (r: bool) {
        match kind {
            SyntaxKind::PLACEHOLDER_PAT
            | SyntaxKind::BIND_PAT
            | SyntaxKind::PATH_PAT => true,
            _ => false,
        }
    }

    fn cast(syntax: SyntaxNode) -> (r: Option<Self>) {
        if Self::can_cast_kind(syntax.kind()) {
            Some(Pat { syntax })
        } else {
            None
        }
    }

    fn syntax(&self) -> (r: &SyntaxNode) {
        proof {
            use_type_invariant(self);
            use_type_invariant(&self.syntax);
        }
        &self.syntax
    }
}

/// An expression.
pub struct Expr {
    syntax: SyntaxNode,
}

impl View for Expr {
    type V = NodeView;

    closed spec fn view(&self) -> NodeView {
        self.syntax@
    }
}

impl Expr {
    #[verifier::type_invariant]
    closed spec fn inv(self) -> bool {
        Self::can_cast(self.syntax@.kind())
    }
}

impl AstNode for Expr {
    open spec fn can_cast(kind: SyntaxKind) -> bool {
        kind == SyntaxKind::TUPLE_EXPR || kind == SyntaxKind::BIN_EXPR
            || kind == SyntaxKind::PATH_EXPR || kind == SyntaxKind::LITERAL
            || kind == SyntaxKind::MATCH_EXPR || kind == SyntaxKind::BLOCK_EXPR
            || kind == SyntaxKind::RECORD_LIT || kind == SyntaxKind::FIELD_EXPR
            || kind == SyntaxKind::RANGE_EXPR || kind == SyntaxKind::PREFIX_EXPR
    }

    fn can_cast_kind(kind: SyntaxKind) -> (r: bool) {
        match kind {
            SyntaxKind::TUPLE_EXPR
            | SyntaxKind::BIN_EXPR
            | SyntaxKind::PATH_EXPR
            | SyntaxKind::LITERAL
            | SyntaxKind::MATCH_EXPR
            | SyntaxKind::BLOCK_EXPR
            | SyntaxKind::RECORD_LIT
            | SyntaxKind::FIELD_EXPR
            | SyntaxKind::RANGE_EXPR
            | SyntaxKind::PREFIX_EXPR => true,
            _ => false,
        }
    }

    fn cast(syntax: SyntaxNode) -> (r: Option<Self>) {
        if Self::can_cast_kind(syntax.kind()) {
            Some(Expr { syntax })
        } else {
            None
        }
    }

    fn syntax(&self) -> (r: &SyntaxNode) {
        proof {
            use_type_invariant(self);
            use_type_invariant(&self.syntax);
        }
        &self.syntax
    }
}

impl Clone for BinExpr {
    fn clone(&self) -> (r: Self)
        ensures
            r@ == self@,
    {
        proof {
            use_type_invariant(self);
        }
        BinExpr { syntax: self.syntax.share() }
    }
}

impl Clone for FnDef {
    fn clone(&self) -> (r: Self)
        ensures
            r@ == self@,
    {
        proof {
            use_type_invariant(self);
        }
        FnDef { syntax: self.syntax.share() }
    }
}

impl Clone for Block {
    fn clone(&self) -> (r: Self)
        ensures
            r@ == self@,
    {
        proof {
            use_type_invariant(self);
        }
        Block { syntax: self.syntax.share() }
    }
}

impl Clone for BlockExpr {
    fn clone(&self) -> (r: Self)
        ensures
            r@ == self@,
    {
        proof {
            use_type_invariant(self);
        }
        BlockExpr { syntax: self.syntax.share() }
    }
}

impl Clone for ItemList {
    fn clone(&self) -> (r: Self)
        ensures
            r@ == self@,
    {
        proof {
            use_type_invariant(self);
        }
        ItemList { syntax: self.syntax.share() }
    }
}

impl Clone for RecordFieldList {
    fn clone(&self) -> (r: Self)
        ensures
            r@ == self@,
    {
        proof {
            use_type_invariant(self);
        }
        RecordFieldList { syntax: self.syntax.share() }
    }
}

impl Clone for RecordField {
    fn clone(&self) -> (r: Self)
        ensures
            r@ == self@,
    {
        proof {
            use_type_invariant(self);
        }
        RecordField { syntax: self.syntax.share() }
    }
}

impl Clone for TypeParam {
    fn clone(&self) -> (r: Self)
        ensures
            r@ == self@,
    {
        proof {
            use_type_invariant(self);
        }
        TypeParam { syntax: self.syntax.share() }
    }
}

impl Clone for TypeBoundList {
    fn clone(&self) -> (r: Self)
        ensures
            r@ == self@,
    {
        proof {
            use_type_invariant(self);
        }
        TypeBoundList { syntax: self.syntax.share() }
    }
}

impl Clone for Path {
    fn clone(&self) -> (r: Self)
        ensures
            r@ == self@,
    {
        proof {
            use_type_invariant(self);
        }
        Path { syntax: self.syntax.share() }
    }
}

impl Clone for PathSegment {
    fn clone(&self) -> (r: Self)
        ensures
            r@ == self@,
    {
        proof {
            use_type_invariant(self);
        }
        PathSegment { syntax: self.syntax.share() }
    }
}

impl Clone for TypeArgList {
    fn clone(&self) -> (r: Self)
        ensures
            r@ == self@,
    {
        proof {
            use_type_invariant(self);
        }
        TypeArgList { syntax: self.syntax.share() }
    }
}

impl Clone for UseItem {
    fn clone(&self) -> (r: Self)
        ensures
            r@ == self@,
    {
        proof {
            use_type_invariant(self);
        }
        UseItem { syntax: self.syntax.share() }
    }
}

impl Clone for UseTree {
    fn clone(&self) -> (r: Self)
        ensures
            r@ == self@,
    {
        proof {
            use_type_invariant(self);
        }
        UseTree { syntax: self.syntax.share() }
    }
}

impl Clone for UseTreeList {
    fn clone(&self) -> (r: Self)
        ensures
            r@ == self@,
    {
        proof {
            use_type_invariant(self);
        }
        UseTreeList { syntax: self.syntax.share() }
    }
}

impl Clone for Alias {
    fn clone(&self) -> (r: Self)
        ensures
            r@ == self@,
    {
        proof {
            use_type_invariant(self);
        }
        Alias { syntax: self.syntax.share() }
    }
}

impl Clone for MatchArmList {
    fn clone(&self) -> (r: Self)
        ensures
            r@ == self@,
    {
        proof {
            use_type_invariant(self);
        }
        MatchArmList { syntax: self.syntax.share() }
    }
}

impl Clone for MatchArm {
    fn clone(&self) -> (r: Self)
        ensures
            r@ == self@,
    {
        proof {
            use_type_invariant(self);
        }
        MatchArm { syntax: self.syntax.share() }
    }
}

impl Clone for PlaceholderPat {
    fn clone(&self) -> (r: Self)
        ensures
            r@ == self@,
    {
        proof {
            use_type_invariant(self);
        }
        PlaceholderPat { syntax: self.syntax.share() }
    }
}

impl Clone for ImplItem {
    fn clone(&self) -> (r: Self)
        ensures
            r@ == self@,
    {
        proof {
            use_type_invariant(self);
        }
        ImplItem { syntax: self.syntax.share() }
    }
}

impl Clone for Pat {
    fn clone(&self) -> (r: Self)
        ensures
            r@ == self@,
    {
        proof {
            use_type_invariant(self);
        }
        Pat { syntax: self.syntax.share() }
    }
}

impl Clone for Expr {
    fn clone(&self) -> (r: Self)
        ensures
            r@ == self@,
    {
        proof {
            use_type_invariant(self);
        }
        Expr { syntax: self.syntax.share() }
    }
}

/// A literal: `1`, `'a'`, `"text"`.
pub struct Literal {
    syntax: SyntaxNode,
}

impl View for Literal {
    type V = NodeView;

    closed spec fn view(&self) -> NodeView {
        self.syntax@
    }
}

impl Literal {
    #[verifier::type_invariant]
    closed spec fn inv(self) -> bool {
        Self::can_cast(self.syntax@.kind())
    }
}

impl AstNode for Literal {
    open spec fn can_cast(kind: SyntaxKind) -> bool {
        kind == SyntaxKind::LITERAL
    }

    fn can_cast_kind(kind: SyntaxKind) -> (r: bool) {
        kind == SyntaxKind::LITERAL
    }

    fn cast(syntax: SyntaxNode) -> (r: Option<Self>) {
        if Self::can_cast_kind(syntax.kind()) {
            Some(Literal { syntax })
        } else {
            None
        }
    }

    fn syntax(&self) -> (r: &SyntaxNode) {
        proof {
            use_type_invariant(self);
            use_type_invariant(&self.syntax);
        }
        &self.syntax
    }
}

impl Clone for Literal {
    fn clone(&self) -> (r: Self)
        ensures
            r@ == self@,
    {
        proof {
            use_type_invariant(self);
        }
        Literal { syntax: self.syntax.share() }
    }
}

/// A field access: `a.b`.
pub struct FieldExpr {
    syntax: SyntaxNode,
}

impl View for FieldExpr {
    type V = NodeView;

    closed spec fn view(&self) -> NodeView {
        self.syntax@
    }
}

impl FieldExpr {
    #[verifier::type_invariant]
    closed spec fn inv(self) -> bool {
        Self::can_cast(self.syntax@.kind())
    }
}

impl AstNode for FieldExpr {
    open spec fn can_cast(kind: SyntaxKind) -> bool {
        kind == SyntaxKind::FIELD_EXPR
    }

    fn can_cast_kind(kind: SyntaxKind) -> (r: bool) {
        kind == SyntaxKind::FIELD_EXPR
    }

    fn cast(syntax: SyntaxNode) -> (r: Option<Self>) {
        if Self::can_cast_kind(syntax.kind()) {
            Some(FieldExpr { syntax })
        } else {
            None
        }
    }

    fn syntax(&self) -> (r: &SyntaxNode) {
        proof {
            use_type_invariant(self);
            use_type_invariant(&self.syntax);
        }
        &self.syntax
    }
}

impl Clone for FieldExpr {
    fn clone(&self) -> (r: Self)
        ensures
            r@ == self@,
    {
        proof {
            use_type_invariant(self);
        }
        FieldExpr { syntax: self.syntax.share() }
    }
}

/// A visibility: `pub(crate)`.
pub struct Visibility {
    syntax: SyntaxNode,
}

impl View for Visibility {
    type V = NodeView;

    closed spec fn view(&self) -> NodeView {
        self.syntax@
    }
}

impl Visibility {
    #[verifier::type_invariant]
    closed spec fn inv(self) -> bool {
        Self::can_cast(self.syntax@.kind())
    }
}

impl AstNode for Visibility {
    open spec fn can_cast(kind: SyntaxKind) -> bool {
        kind == SyntaxKind::VISIBILITY
    }

    fn can_cast_kind(kind: SyntaxKind) -> (r: bool) {
        kind == SyntaxKind::VISIBILITY
    }

    fn cast(syntax: SyntaxNode) -> (r: Option<Self>) {
        if Self::can_cast_kind(syntax.kind()) {
            Some(Visibility { syntax })
        } else {
            None
        }
    }

    fn syntax(&self) -> (r: &SyntaxNode) {
        proof {
            use_type_invariant(self);
            use_type_invariant(&self.syntax);
        }
        &self.syntax
    }
}

impl Clone for Visibility {
    fn clone(&self) -> (r: Self)
        ensures
            r@ == self@,
    {
        proof {
            use_type_invariant(self);
        }
        Visibility { syntax: self.syntax.share() }
    }
}

/// A range: `a..b`.
pub struct RangeExpr {
    syntax: SyntaxNode,
}

impl View for RangeExpr {
    type V = NodeView;

    closed spec fn view(&self) -> NodeView {
        self.syntax@
    }
}

impl RangeExpr {
    #[verifier::type_invariant]
    closed spec fn inv(self) -> bool {
        Self::can_cast(self.syntax@.kind())
    }
}

impl AstNode for RangeExpr {
    open spec fn can_cast(kind: SyntaxKind) -> bool {
        kind == SyntaxKind::RANGE_EXPR
    }

    fn can_cast_kind(kind: SyntaxKind) -> (r: bool) {
        kind == SyntaxKind::RANGE_EXPR
    }

    fn cast(syntax: SyntaxNode) -> (r: Option<Self>) {
        if Self::can_cast_kind(syntax.kind()) {
            Some(RangeExpr { syntax })
        } else {
            None
        }
    }

    fn syntax(&self) -> (r: &SyntaxNode) {
        proof {
            use_type_invariant(self);
            use_type_invariant(&self.syntax);
        }
        &self.syntax
    }
}

impl Clone for RangeExpr {
    fn clone(&self) -> (r: Self)
        ensures
            r@ == self@,
    {
        proof {
            use_type_invariant(self);
        }
        RangeExpr { syntax: self.syntax.share() }
    }
}

/// An impl: `impl T for S {}`.
pub struct ImplDef {
    syntax: SyntaxNode,
}

impl View for ImplDef {
    type V = NodeView;

    closed spec fn view(&self) -> NodeView {
        self.syntax@
    }
}

impl ImplDef {
    #[verifier::type_invariant]
    closed spec fn inv(self) -> bool {
        Self::can_cast(self.syntax@.kind())
    }
}

impl AstNode for ImplDef {
    open spec fn can_cast(kind: SyntaxKind) -> bool {
        kind == SyntaxKind::IMPL_DEF
    }

    fn can_cast_kind(kind: SyntaxKind) -> (r: bool) {
        kind == SyntaxKind::IMPL_DEF
    }

    fn cast(syntax: SyntaxNode) -> (r: Option<Self>) {
        if Self::can_cast_kind(syntax.kind()) {
            Some(ImplDef { syntax })
        } else {
            None
        }
    }

    fn syntax(&self) -> (r: &SyntaxNode) {
        proof {
            use_type_invariant(self);
            use_type_invariant(&self.syntax);
        }
        &self.syntax
    }
}

impl Clone for ImplDef {
    fn clone(&self) -> (r: Self)
        ensures
            r@ == self@,
    {
        proof {
            use_type_invariant(self);
        }
        ImplDef { syntax: self.syntax.share() }
    }
}

/// A name that refers to a definition.
pub struct NameRef {
    syntax: SyntaxNode,
}

impl View for NameRef {
    type V = NodeView;

    closed spec fn view(&self) -> NodeView {
        self.syntax@
    }
}

impl NameRef {
    #[verifier::type_invariant]
    closed spec fn inv(self) -> bool {
        Self::can_cast(self.syntax@.kind())
    }
}

impl AstNode for NameRef {
    open spec fn can_cast(kind: SyntaxKind) -> bool {
        kind == SyntaxKind::NAME_REF
    }

    fn can_cast_kind(kind: SyntaxKind) -> (r: bool) {
        kind == SyntaxKind::NAME_REF
    }

    fn cast(syntax: SyntaxNode) -> (r: Option<Self>) {
        if Self::can_cast_kind(syntax.kind()) {
            Some(NameRef { syntax })
        } else {
            None
        }
    }

    fn syntax(&self) -> (r: &SyntaxNode) {
        proof {
            use_type_invariant(self);
            use_type_invariant(&self.syntax);
        }
        &self.syntax
    }
}

impl Clone for NameRef {
    fn clone(&self) -> (r: Self)
        ensures
            r@ == self@,
    {
        proof {
            use_type_invariant(self);
        }
        NameRef { syntax: self.syntax.share() }
    }
}

/// A type as it is written.
pub struct TypeRef {
    syntax: SyntaxNode,
}

impl View for TypeRef {
    type V = NodeView;

    closed spec fn view(&self) -> NodeView {
        self.syntax@
    }
}

impl TypeRef {
    #[verifier::type_invariant]
    closed spec fn inv(self) -> bool {
        Self::can_cast(self.syntax@.kind())
    }
}

impl AstNode for TypeRef {
    open spec fn can_cast(kind: SyntaxKind) -> bool {
        kind == SyntaxKind::PATH_TYPE || kind == SyntaxKind::PAREN_TYPE
            || kind == SyntaxKind::TUPLE_TYPE || kind == SyntaxKind::NEVER_TYPE
            || kind == SyntaxKind::POINTER_TYPE || kind == SyntaxKind::ARRAY_TYPE
            || kind == SyntaxKind::SLICE_TYPE || kind == SyntaxKind::REFERENCE_TYPE
            || kind == SyntaxKind::PLACEHOLDER_TYPE || kind == SyntaxKind::FN_POINTER_TYPE
            || kind == SyntaxKind::FOR_TYPE || kind == SyntaxKind::IMPL_TRAIT_TYPE
            || kind == SyntaxKind::DYN_TRAIT_TYPE
    }

    fn can_cast_kind(kind: SyntaxKind) -> (r: bool) {
        match kind {
            SyntaxKind::PATH_TYPE
            | SyntaxKind::PAREN_TYPE
            | SyntaxKind::TUPLE_TYPE
            | SyntaxKind::NEVER_TYPE
            | SyntaxKind::POINTER_TYPE
            | SyntaxKind::ARRAY_TYPE
            | SyntaxKind::SLICE_TYPE
            | SyntaxKind::REFERENCE_TYPE
            | SyntaxKind::PLACEHOLDER_TYPE
            | SyntaxKind::FN_POINTER_TYPE
            | SyntaxKind::FOR_TYPE
            | SyntaxKind::IMPL_TRAIT_TYPE
            | SyntaxKind::DYN_TRAIT_TYPE => true,
            _ => false,
        }
    }

    fn cast(syntax: SyntaxNode) -> (r: Option<Self>) {
        if Self::can_cast_kind(syntax.kind()) {
            Some(TypeRef { syntax })
        } else {
            None
        }
    }

    fn syntax(&self) -> (r: &SyntaxNode) {
        proof {
            use_type_invariant(self);
            use_type_invariant(&self.syntax);
        }
        &self.syntax
    }
}

impl Clone for TypeRef {
    fn clone(&self) -> (r: Self)
        ensures
            r@ == self@,
    {
        proof {
            use_type_invariant(self);
        }
        TypeRef { syntax: self.syntax.share() }
    }
}

} // verus!
