//! Function bodies after lowering: expressions and patterns in arenas, and
//! the way back from each to the syntax that it was written as.

use vstd::prelude::*;
use either::Either;
use crate::arena::{Arena, ArenaMap};
use crate::ids::{ExprId, PatId};
use crate::name::Name;
use crate::source::InFile;
use crate::syntax::kind::AstPtr;

verus! {

/// `name: expr` in a record literal.
#[derive(Debug)]
pub struct RecordLitField {
    pub name: Name,
    pub expr: ExprId,
}

/// `pat if guard => expr` in a match.
#[derive(Debug)]
pub struct MatchArm {
    pub pat: PatId,
    pub guard: Option<ExprId>,
    pub expr: ExprId,
}

/// An expression. The kinds that no check looks into are `Other`.
#[derive(Debug)]
pub enum Expr {
    Missing,
    Block { statements: Vec<ExprId>, tail: Option<ExprId> },
    Match { expr: ExprId, arms: Vec<MatchArm> },
    RecordLit { fields: Vec<RecordLitField>, spread: Option<ExprId> },
    Other,
}

/// `name: pat` in a record pattern.
#[derive(Debug)]
pub struct RecordFieldPat {
    pub name: Name,
    pub pat: PatId,
}

/// A pattern. The kinds that no check looks into are `Other`.
#[derive(Debug)]
pub enum Pat {
    Missing,
    Wild,
    Record { args: Vec<RecordFieldPat> },
    Other,
}

/// The body of a function: its expressions and patterns in the order in
/// which the lowering met them, and the expression that is the body itself.
#[derive(Debug)]
pub struct Body {
    pub exprs: Arena<Expr>,
    pub pats: Arena<Pat>,
    pub body_expr: ExprId,
}

/// What the concrete node of an expression holds, as far as a diagnostic
/// points into it.
#[derive(Clone, Copy, PartialEq, Eq, Structural, Debug)]
pub enum ExprSyntax {
    /// A record literal, with its field list where it has one.
    RecordLit { record_field_list: Option<AstPtr> },
    /// A match, with its scrutinee and its arm list where it has them.
    MatchExpr { expr: Option<AstPtr>, match_arm_list: Option<AstPtr> },
    Other,
}

/// A pointer to the node of an expression, with what the node holds.
#[derive(Clone, Copy, PartialEq, Eq, Structural, Debug)]
pub struct ExprPtr {
    pub ptr: AstPtr,
    pub syntax: ExprSyntax,
}

/// Where an expression stands in the source: an expression node on the
/// left, the record field that it is the shorthand of on the right.
pub type ExprSource = InFile<Either<ExprPtr, AstPtr>>;

/// The answer for an expression that was made up by the lowering and has no
/// node of its own.
#[derive(Clone, Copy, PartialEq, Eq, Structural, Debug)]
pub struct SyntheticSyntax;

/// The way back from the expressions of a body to the source.
#[derive(Debug)]
pub struct BodySourceMap {
    pub expr_map_back: ArenaMap<ExprSource>,
}

impl BodySourceMap {
    pub fn new() -> (r: BodySourceMap)
        ensures
            r.expr_map_back@ == Map::<usize, ExprSource>::empty(),
    {
        BodySourceMap { expr_map_back: ArenaMap::new() }
    }

    /// What `expr_syntax` answers.
    pub open spec fn spec_expr_syntax(&self, id: ExprId) -> Result<ExprSource, SyntheticSyntax> {
        if self.expr_map_back@.contains_key(id.0) {
            Ok(self.expr_map_back@[id.0])
        } else {
            Err(SyntheticSyntax)
        }
    }

    /// Where the expression `id` stands in the source.
    pub fn expr_syntax(&self, id: ExprId) -> (r: Result<ExprSource, SyntheticSyntax>)
        ensures
            r == self.spec_expr_syntax(id),
    {
        match self.expr_map_back.get(id.0) {
            Some(src) => Ok(InFile { file_id: src.file_id, value: src.value }),
            None => Err(SyntheticSyntax),
        }
    }
}

/// The names that a record literal gives values to, in order.
pub open spec fn literal_names(fields: Seq<RecordLitField>) -> Seq<crate::name::NameView> {
    Seq::new(fields.len(), |i: int| fields[i].name@)
}

/// The names that a record pattern binds, in order.
pub open spec fn pattern_names(args: Seq<RecordFieldPat>) -> Seq<crate::name::NameView> {
    Seq::new(args.len(), |i: int| args[i].name@)
}

} // verus!
