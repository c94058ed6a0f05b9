//! The checks that run over the body of a function once its types are
//! inferred: record literals that leave fields out, matches that do not
//! cover their scrutinee, and tail expressions that want wrapping in `Ok`.
//!
//! Every check stays silent where it cannot be sure: an unresolved
//! definition, an unknown type, an expression without a node in the source
//! or an undecided answer of the usefulness oracle yields no finding.

use std::sync::Arc;
use vstd::prelude::*;
use either::Either;
use rustc_hash::FxHashSet;
use crate::adt::{field_names, field_views};
use crate::body::{
    Expr, ExprPtr, ExprSource, ExprSyntax, MatchArm, Pat, SyntheticSyntax, literal_names,
    pattern_names,
};
use crate::db::{FunctionData, HirDatabase};
use crate::diagnostics::{
    Diagnostic, DiagnosticSink, DiagnosticView, MissingFields, MissingMatchArms,
    MissingOkInTailExpr,
};
use crate::ext::fx_hash::{name_set_contains, name_set_insert, name_set_items, name_set_new};
use crate::ext::shared::share;
use crate::ids::{AdtId, ExprId, FunctionId, LocalStructFieldId, PatId, VariantId};
use crate::infer::InferenceResult;
use crate::name::{Name, NameView, name_views};
use crate::ty::{Ty, TyView, TypeCtor};

verus! {

/// The head of a row of patterns: a pattern of the body, or the wildcard
/// that matches everything.
#[derive(Clone, Copy, PartialEq, Eq, Structural, Debug)]
pub enum PatIdOrWild {
    PatId(PatId),
    Wild,
}

/// A row of the pattern matrix.
#[derive(Clone, Copy, PartialEq, Eq, Structural, Debug)]
pub struct PatStack {
    pub head: PatIdOrWild,
}

impl PatStack {
    /// The row of the pattern `pat`.
    pub open spec fn spec_from_pattern(pat: PatId) -> PatStack {
        PatStack { head: PatIdOrWild::PatId(pat) }
    }

    /// The row of the pattern `pat`.
    #[verifier::when_used_as_spec(spec_from_pattern)]
    pub fn from_pattern(pat: PatId) -> (r: PatStack)
        ensures
            r == Self::spec_from_pattern(pat),
    {
        PatStack { head: PatIdOrWild::PatId(pat) }
    }

    /// The row of the wildcard.
    pub open spec fn spec_from_wild() -> PatStack {
        PatStack { head: PatIdOrWild::Wild }
    }

    /// The row of the wildcard.
    #[verifier::when_used_as_spec(spec_from_wild)]
    pub fn from_wild() -> (r: PatStack)
        ensures
            r == Self::spec_from_wild(),
    {
        PatStack { head: PatIdOrWild::Wild }
    }
}

/// The patterns of the arms that a match is checked against, one row for
/// each, in the order of the arms.
#[derive(Debug)]
pub struct Matrix {
    pub rows: Vec<PatStack>,
}

impl View for Matrix {
    type V = Seq<PatStack>;

    open spec fn view(&self) -> Seq<PatStack> {
        self.rows@
    }
}

impl Matrix {
    pub fn empty() -> (r: Matrix)
        ensures
            r@ == Seq::<PatStack>::empty(),
    {
        Matrix { rows: Vec::new() }
    }

    pub fn push(&mut self, row: PatStack)
        ensures
            final(self)@ == old(self)@.push(row),
    {
        self.rows.push(row);
    }
}

/// Whether some value is matched by a row and by none of a matrix.
#[derive(Clone, Copy, PartialEq, Eq, Structural, Debug)]
pub enum Usefulness {
    Useful,
    NotUseful,
}

/// Why the oracle did not decide.
#[derive(Clone, Copy, PartialEq, Eq, Structural, Debug)]
pub enum MatchCheckErr {
    NotImplemented,
    MalformedMatchArm,
    Unknown,
}

/// What the usefulness oracle answers.
pub type Verdict = Result<Usefulness, MatchCheckErr>;

/// The fields, by index and in the order of their declaration, among the
/// first `n` of `declared` whose name `specified` does not hold.
pub open spec fn missing_fields(declared: Seq<NameView>, specified: Set<NameView>, n: int) -> Seq<
    LocalStructFieldId,
>
    decreases n,
{
    if n <= 0 {
        Seq::empty()
    } else {
        let rest = missing_fields(declared, specified, n - 1);
        if specified.contains(declared[n - 1]) {
            rest
        } else {
            rest.push(LocalStructFieldId((n - 1) as usize))
        }
    }
}

/// The fields that a literal or a pattern of the definition `variant`
/// leaves out when it names `specified`: nothing where the definition is
/// unresolved or a union, and nothing where no field is left out.
pub open spec fn missed_fields_of(
    db: HirDatabase,
    variant: Option<VariantId>,
    specified: Seq<NameView>,
) -> Option<(VariantId, Seq<LocalStructFieldId>)> {
    match variant {
        None => None,
        Some(VariantId::UnionId(_)) => None,
        Some(v) => match db.spec_variant_data(v) {
            None => None,
            Some(data) => {
                let missed = missing_fields(
                    field_names(data@.fields),
                    specified.to_set(),
                    data@.fields.len() as int,
                );
                if missed.len() == 0 {
                    None
                } else {
                    Some((v, missed))
                }
            },
        },
    }
}

/// What `record_literal_missing_fields` returns for the expression `id`.
pub open spec fn literal_missing_fields(
    db: HirDatabase,
    infer: InferenceResult,
    id: ExprId,
    expr: Expr,
) -> Option<(VariantId, Seq<LocalStructFieldId>, bool)> {
    match expr {
        Expr::RecordLit { fields, spread } => match missed_fields_of(
            db,
            infer.spec_variant_resolution_for_expr(id),
            literal_names(fields@),
        ) {
            Some((v, missed)) => Some((v, missed, spread is None)),
            None => None,
        },
        _ => None,
    }
}

/// What `record_pattern_missing_fields` returns for the pattern `id`.
pub open spec fn pattern_missing_fields(
    db: HirDatabase,
    infer: InferenceResult,
    id: PatId,
    pat: Pat,
) -> Option<(VariantId, Seq<LocalStructFieldId>)> {
    match pat {
        Pat::Record { args } => missed_fields_of(
            db,
            infer.spec_variant_resolution_for_pat(id),
            pattern_names(args@),
        ),
        _ => None,
    }
}

/// The names of the fields `missed` of a shape with the fields `fields`.
pub open spec fn missed_names(fields: Seq<NameView>, missed: Seq<LocalStructFieldId>) -> Seq<
    NameView,
> {
    Seq::new(missed.len(), |k: int| fields[missed[k].0 as int])
}

/// Zero or one finding as a sequence.
pub open spec fn finding(d: Option<DiagnosticView>) -> Seq<DiagnosticView> {
    match d {
        Some(d) => seq![d],
        None => Seq::empty(),
    }
}

/// The finding about the fields that the record literal `id` leaves out.
/// It is due only for a literal without a spread, which has to name every
/// field itself, and only where the literal's field list is found in the
/// source.
pub open spec fn missing_fields_finding(
    db: HirDatabase,
    f: FunctionData,
    infer: InferenceResult,
    id: ExprId,
    expr: Expr,
) -> Option<DiagnosticView> {
    match literal_missing_fields(db, infer, id, expr) {
        Some((variant, missed, true)) => match f.source_map.spec_expr_syntax(id) {
            Ok(src) => match src.value {
                Either::Left(
                    ExprPtr { syntax: ExprSyntax::RecordLit { record_field_list: Some(list) }, .. },
                ) => Some(
                    DiagnosticView::MissingFields {
                        file: src.file_id,
                        field_list: list,
                        missed_fields: missed_names(
                            field_names(db.spec_variant_data(variant)->0@.fields),
                            missed,
                        ),
                    },
                ),
                _ => None,
            },
            Err(_) => None,
        },
        _ => None,
    }
}

/// Whether the arm with the pattern `pat` enters the matrix of a match on
/// a scrutinee of the type `scrutinee`: the type of the pattern is known
/// and is the scrutinee's, or is what the scrutinee refers to.
pub open spec fn arm_included(infer: InferenceResult, scrutinee: TyView, pat: PatId) -> bool {
    &&& infer.type_of_pat@.contains_key(pat.0)
    &&& ({
        let pat_ty = infer.type_of_pat@[pat.0]@;
        ||| pat_ty == scrutinee
        ||| (scrutinee.as_reference() matches Some((inner, _)) && inner == pat_ty)
    })
}

/// The rows for the first `n` arms.
pub open spec fn matrix_rows(
    infer: InferenceResult,
    scrutinee: TyView,
    arms: Seq<MatchArm>,
    n: int,
) -> Seq<PatStack>
    decreases n,
{
    if n <= 0 {
        Seq::empty()
    } else {
        let rest = matrix_rows(infer, scrutinee, arms, n - 1);
        if arm_included(infer, scrutinee, arms[n - 1].pat) {
            rest.push(PatStack::spec_from_pattern(arms[n - 1].pat))
        } else {
            rest
        }
    }
}

/// The matrix that a match is checked against; nothing where the type of
/// the scrutinee is unknown, so that the match is not checked at all.
pub open spec fn match_matrix(infer: InferenceResult, scrutinee: ExprId, arms: Seq<MatchArm>) -> Option<
    Seq<PatStack>,
> {
    if infer.type_of_expr@.contains_key(scrutinee.0) {
        Some(matrix_rows(infer, infer.type_of_expr@[scrutinee.0]@, arms, arms.len() as int))
    } else {
        None
    }
}

/// The finding for a match whose wildcard row got the answer `verdict`.
/// The match lacks arms exactly when the wildcard is useful; any other
/// answer, and a match that is not found in the source, yields nothing.
pub open spec fn match_arms_finding(
    verdict: Verdict,
    source: Result<ExprSource, SyntheticSyntax>,
) -> Option<DiagnosticView> {
    match (verdict, source) {
        (Ok(Usefulness::Useful), Ok(src)) => match src.value {
            Either::Left(
                ExprPtr {
                    syntax: ExprSyntax::MatchExpr { expr: Some(scrutinee), match_arm_list: Some(arms) },
                    ..
                },
            ) => Some(
                DiagnosticView::MissingMatchArms { file: src.file_id, match_expr: scrutinee, arms },
            ),
            _ => None,
        },
        _ => None,
    }
}

/// The finding about the arms of the expression `id`, given what the oracle
/// answered for it.
pub open spec fn match_finding(
    f: FunctionData,
    infer: InferenceResult,
    id: ExprId,
    expr: Expr,
    verdict: Verdict,
) -> Option<DiagnosticView> {
    match expr {
        Expr::Match { expr: scrutinee, arms } => if match_matrix(infer, scrutinee, arms@) is Some {
            match_arms_finding(verdict, f.source_map.spec_expr_syntax(id))
        } else {
            None
        },
        _ => None,
    }
}

/// The finding about a tail expression `id` of the block `body_id`: the
/// block is recorded as a mismatch, what is expected is the standard result
/// type with its two parameters, and what is there is exactly the first of
/// them.
pub open spec fn ok_wrapping_finding(
    f: FunctionData,
    infer: InferenceResult,
    body_id: ExprId,
    id: ExprId,
) -> Option<DiagnosticView> {
    match (infer.spec_type_mismatch_for_expr(body_id), f.std_result_enum) {
        (Some(mismatch), Some(result_enum)) => match mismatch.expected@ {
            TyView::Apply { ctor, parameters } => if ctor == TypeCtor::Adt(
                AdtId::EnumId(result_enum),
            ) && parameters.len() == 2 && parameters[0] == mismatch.actual@ {
                match f.source_map.spec_expr_syntax(id) {
                    Ok(src) => match src.value {
                        Either::Left(expr) => Some(
                            DiagnosticView::MissingOkInTailExpr { file: src.file_id, expr: expr.ptr },
                        ),
                        Either::Right(_) => None,
                    },
                    Err(_) => None,
                }
            } else {
                None
            },
            _ => None,
        },
        _ => None,
    }
}

/// The finding about the tail of the body, where the body is a block with
/// a tail.
pub open spec fn tail_finding(f: FunctionData, infer: InferenceResult) -> Option<DiagnosticView> {
    if f.body.body_expr.0 < f.body.exprs@.len() {
        match f.body.exprs@[f.body.body_expr.0 as int] {
            Expr::Block { tail: Some(t), .. } => ok_wrapping_finding(f, infer, f.body.body_expr, t),
            _ => None,
        }
    } else {
        None
    }
}

/// The findings for the expression at `i`: first about its fields, then
/// about its arms.
pub open spec fn expr_findings(
    db: HirDatabase,
    f: FunctionData,
    infer: InferenceResult,
    i: int,
    verdict: Verdict,
) -> Seq<DiagnosticView> {
    finding(missing_fields_finding(db, f, infer, ExprId(i as usize), f.body.exprs@[i])) + finding(
        match_finding(f, infer, ExprId(i as usize), f.body.exprs@[i], verdict),
    )
}

/// The findings for the first `n` expressions, in the order of the arena.
pub open spec fn exprs_findings(
    db: HirDatabase,
    f: FunctionData,
    infer: InferenceResult,
    verdicts: Seq<Verdict>,
    n: int,
) -> Seq<DiagnosticView>
    decreases n,
{
    if n <= 0 {
        Seq::empty()
    } else {
        exprs_findings(db, f, infer, verdicts, n - 1) + expr_findings(
            db,
            f,
            infer,
            n - 1,
            verdicts[n - 1],
        )
    }
}

/// All findings for a body: those of its expressions in the order of the
/// arena, then that of its tail.
pub open spec fn body_findings(
    db: HirDatabase,
    f: FunctionData,
    infer: InferenceResult,
    verdicts: Seq<Verdict>,
) -> Seq<DiagnosticView> {
    exprs_findings(db, f, infer, verdicts, f.body.exprs@.len() as int) + finding(
        tail_finding(f, infer),
    )
}

/// Whether `verdict` is an answer of `oracle` to the question if the
/// wildcard is useful against a matrix of the given rows.
pub open spec fn answers<F: Fn(&Matrix, &PatStack) -> Verdict>(
    oracle: &F,
    rows: Seq<PatStack>,
    verdict: Verdict,
) -> bool {
    exists|m: Matrix| #[trigger]
        oracle.ensures((&m, &PatStack::spec_from_wild()), verdict) && m@ == rows
}

/// Whether `verdicts` holds, for each expression of the body that is a
/// match on a scrutinee of known type, an answer of `oracle` for its
/// matrix.
pub open spec fn answered<F: Fn(&Matrix, &PatStack) -> Verdict>(
    oracle: &F,
    f: FunctionData,
    infer: InferenceResult,
    verdicts: Seq<Verdict>,
) -> bool {
    &&& verdicts.len() == f.body.exprs@.len()
    &&& forall|i: int|
        0 <= i < verdicts.len() ==> (#[trigger] f.body.exprs@[i] matches Expr::Match {
            expr: scrutinee,
            arms,
        } ==> (match_matrix(infer, scrutinee, arms@) matches Some(rows) ==> answers(
            oracle,
            rows,
            verdicts[i],
        )))
}

/// Runs the checks over one function and pushes what they find.
pub struct ExprValidator<'a> {
    pub func: FunctionId,
    pub infer: Arc<InferenceResult>,
    pub sink: &'a mut DiagnosticSink,
}

impl<'a> ExprValidator<'a> {
    /// What inference found out about the function.
    pub open spec fn known(&self) -> InferenceResult {
        *self.infer
    }

    /// A validator for the function `func`, which pushes what it finds
    /// into `sink`.
    pub fn new(func: FunctionId, infer: Arc<InferenceResult>, sink: &'a mut DiagnosticSink) -> (r:
        ExprValidator<'a>)
        ensures
            r.func == func,
            r.infer == infer,
            *r.sink == *old(sink),
            *final(sink) == *final(r.sink),
    {
        ExprValidator { func, infer, sink }
    }

    /// Checks every expression of the function's body in the order of the
    /// arena, then the tail of the body, and pushes the findings in that
    /// order. `oracle` is asked once for each match on a scrutinee of known
    /// type. A function that the database does not hold yields nothing.
    pub fn validate_body<F: Fn(&Matrix, &PatStack) -> Verdict>(&mut self, db: &HirDatabase, oracle: &F)
        requires
            forall|m: &Matrix, p: &PatStack| #[trigger] oracle.requires((m, p)),
        ensures
            final(self).func == old(self).func,
            final(self).infer == old(self).infer,
            *final(final(self).sink) == *final(old(self).sink),
            db.spec_function(old(self).func) is None ==> final(self).sink@ == old(self).sink@,
            db.spec_function(old(self).func) matches Some(f) ==> exists|verdicts: Seq<Verdict>|
                #[trigger] answered(oracle, f, old(self).known(), verdicts) && final(self).sink@
                    == old(self).sink@ + body_findings(*db, f, old(self).known(), verdicts),
    {
        let f = match db.function(self.func) {
            Some(f) => f,
            None => {
                return ;
            },
        };
        let body = &f.body;
        let n = body.exprs.len();
        let ghost mut verdicts: Seq<Verdict> = Seq::empty();
        let mut i: usize = 0;
        proof {
            assert(self.sink@ =~= old(self).sink@ + exprs_findings(
                *db,
                *f,
                self.known(),
                verdicts,
                0,
            ));
        }
        while i < n
            invariant
                i <= n,
                n == f.body.exprs@.len(),
                body == &f.body,
                db.spec_function(self.func) == Some(*f),
                self.func == old(self).func,
                self.infer == old(self).infer,
                *final(self.sink) == *final(old(self).sink),
                forall|m: &Matrix, p: &PatStack| #[trigger] oracle.requires((m, p)),
                verdicts.len() == i,
                forall|k: int|
                    0 <= k < i ==> (#[trigger] f.body.exprs@[k] matches Expr::Match {
                        expr: scrutinee,
                        arms,
                    } ==> (match_matrix(self.known(), scrutinee, arms@) matches Some(rows)
                        ==> answers(oracle, rows, verdicts[k]))),
                self.sink@ == old(self).sink@ + exprs_findings(
                    *db,
                    *f,
                    self.known(),
                    verdicts,
                    i as int,
                ),
            decreases n - i,
        {
            let id = ExprId(i);
            let expr = body.exprs.index(i);
            let ghost before = self.sink@;
            let ghost known = self.known();
            self.validate_record_literal(db, f, id, expr);
            let ghost verdict: Verdict = Err(MatchCheckErr::Unknown);
            match expr {
                Expr::Match { expr: scrutinee, arms } => {
                    let ghost mid = self.sink@;
                    let infer = share(&self.infer);
                    self.validate_match(id, *scrutinee, arms, db, infer, oracle);
                    proof {
                        if match_matrix(known, *scrutinee, arms@) is Some {
                            let rows = match_matrix(known, *scrutinee, arms@)->0;
                            verdict =
                            choose|v: Verdict|
                                answers(oracle, rows, v) && self.sink@ == mid + finding(
                                    match_arms_finding(v, f.source_map.spec_expr_syntax(id)),
                                );
                        }
                    }
                },
                _ => {},
            }
            proof {
                let extended = verdicts.push(verdict);
                assert(self.sink@ =~= before + expr_findings(
                    *db,
                    *f,
                    self.known(),
                    i as int,
                    verdict,
                ));
                lemma_findings_ignore_later_verdicts(
                    *db,
                    *f,
                    known,
                    verdicts,
                    extended,
                    i as int,
                );
                assert(self.sink@ =~= old(self).sink@ + exprs_findings(
                    *db,
                    *f,
                    self.known(),
                    extended,
                    i + 1,
                ));
                verdicts = extended;
            }
            i = i + 1;
        }
        let ghost before_tail = self.sink@;
        match body.exprs.get(body.body_expr.0) {
            Some(Expr::Block { tail: Some(t), .. }) => {
                self.validate_results_in_tail_expr(body.body_expr, *t, db);
            },
            _ => {},
        }
        proof {
            assert(self.sink@ =~= before_tail + finding(tail_finding(*f, self.known())));
            assert(answered(oracle, *f, old(self).known(), verdicts));
            assert(self.sink@ =~= old(self).sink@ + body_findings(
                *db,
                *f,
                old(self).known(),
                verdicts,
            ));
        }
    }

    /// Pushes the finding about the fields that the record literal `id`
    /// leaves out, where one is due.
    pub fn validate_record_literal(
        &mut self,
        db: &HirDatabase,
        f: &FunctionData,
        id: ExprId,
        expr: &Expr,
    )
        ensures
            final(self).func == old(self).func,
            final(self).infer == old(self).infer,
            *final(final(self).sink) == *final(old(self).sink),
            final(self).sink@ == old(self).sink@ + finding(
                missing_fields_finding(*db, *f, old(self).known(), id, *expr),
            ),
    {
        proof {
            assert(self.sink@ =~= old(self).sink@ + Seq::<DiagnosticView>::empty());
        }
        if let Some((variant_def, missed_fields, true)) = record_literal_missing_fields(
            db,
            &self.infer,
            id,
            expr,
        ) {
            // The source map is looked at only once fields are known to be
            // missing.
            if let Ok(source_ptr) = f.source_map.expr_syntax(id) {
                if let Some(expr_ptr) = source_ptr.value.left() {
                    if let ExprSyntax::RecordLit { record_field_list: Some(field_list) } =
                        expr_ptr.syntax {
                        if let Some(variant_data) = db.variant_data(variant_def) {
                            let fields = variant_data.fields();
                            let count = fields.len();
                            proof {
                                assert(variant_data@.fields.len() == count);
                                lemma_missing_fields_in_range(
                                    field_names(variant_data@.fields),
                                    literal_field_set(*expr),
                                    variant_data@.fields.len() as int,
                                );
                            }
                            let mut names: Vec<Name> = Vec::new();
                            let mut k: usize = 0;
                            while k < missed_fields.len()
                                invariant
                                    k <= missed_fields@.len(),
                                    field_views(fields@) == variant_data@.fields,
                                    forall|j: int|
                                        0 <= j < missed_fields@.len() ==> (
                                        #[trigger] missed_fields@[j]).0 < fields@.len(),
                                    names@.len() == k,
                                    forall|j: int|
                                        0 <= j < k ==> (#[trigger] names@[j])@ == fields@[missed_fields@[j].0 as int].name@,
                                decreases missed_fields@.len() - k,
                            {
                                let idx = missed_fields[k];
                                names.push(fields[idx.0].name.clone());
                                k = k + 1;
                            }
                            let d = Diagnostic::MissingFields(
                                MissingFields {
                                    file: source_ptr.file_id,
                                    field_list,
                                    missed_fields: names,
                                },
                            );
                            proof {
                                assert(name_views(names@) =~= missed_names(
                                    field_names(variant_data@.fields),
                                    missed_fields@,
                                )) by {
                                    assert forall|j: int| 0 <= j < names@.len() implies name_views(
                                        names@,
                                    )[j] == missed_names(
                                        field_names(variant_data@.fields),
                                        missed_fields@,
                                    )[j] by {
                                        assert(names@[j]@ == fields@[missed_fields@[j].0 as int].name@);
                                        assert(variant_data@.fields[missed_fields@[j].0 as int]
                                            == fields@[missed_fields@[j].0 as int]@);
                                    }
                                }
                            }
                            self.sink.push(d);
                            proof {
                                assert(self.sink@ =~= old(self).sink@ + seq![d@]);
                            }
                        }
                    }
                }
            }
        }
    }

    /// Checks the match `id` on `match_expr` with the arms `arms`, and
    /// pushes a finding where the oracle says that the arms leave a value
    /// out. A match on a scrutinee of unknown type is not checked, and the
    /// oracle is not asked.
    pub fn validate_match<F: Fn(&Matrix, &PatStack) -> Verdict>(
        &mut self,
        id: ExprId,
        match_expr: ExprId,
        arms: &Vec<MatchArm>,
        db: &HirDatabase,
        infer: Arc<InferenceResult>,
        oracle: &F,
    )
        requires
            forall|m: &Matrix, p: &PatStack| #[trigger] oracle.requires((m, p)),
        ensures
            final(self).func == old(self).func,
            final(self).infer == old(self).infer,
            *final(final(self).sink) == *final(old(self).sink),
            match_matrix(*infer, match_expr, arms@) is None ==> final(self).sink@ == old(self).sink@,
            match_matrix(*infer, match_expr, arms@) is Some ==> exists|v: Verdict|
                #[trigger] answers(oracle, match_matrix(*infer, match_expr, arms@)->0, v)
                    && final(self).sink@ == old(self).sink@ + finding(
                    match_arms_finding(
                        v,
                        match db.spec_function(old(self).func) {
                            Some(f) => f.source_map.spec_expr_syntax(id),
                            None => Err(SyntheticSyntax),
                        },
                    ),
                ),
    {
        let match_expr_ty = match infer.type_of_expr.get(match_expr.0) {
            Some(ty) => ty,
            // Without the type of the scrutinee nothing can be said of
            // what the arms cover.
            None => {
                return ;
            },
        };
        let mut seen = Matrix::empty();
        let mut i: usize = 0;
        while i < arms.len()
            invariant
                i <= arms@.len(),
                infer.type_of_expr@.contains_key(match_expr.0),
                *match_expr_ty == infer.type_of_expr@[match_expr.0],
                seen@ == matrix_rows(*infer, match_expr_ty@, arms@, i as int),
            decreases arms@.len() - i,
        {
            let pat = arms[i].pat;
            // An arm whose pattern has no known type, or another type than
            // the scrutinee, stays out of the matrix.
            if let Some(pat_ty) = infer.type_of_pat.get(pat.0) {
                let by_reference = match match_expr_ty.as_reference() {
                    Some((inner, _)) => inner.same(pat_ty),
                    None => false,
                };
                if pat_ty.same(match_expr_ty) || by_reference {
                    seen.push(PatStack::from_pattern(pat));
                }
            }
            i = i + 1;
        }
        let verdict = oracle(&seen, &PatStack::from_wild());
        let source = match db.function(self.func) {
            Some(f) => f.source_map.expr_syntax(id),
            None => Err(SyntheticSyntax),
        };
        proof {
            assert(answers(oracle, seen@, verdict));
            assert(self.sink@ =~= old(self).sink@ + Seq::<DiagnosticView>::empty());
        }
        if let Some(d) = missing_match_arms(&verdict, &source) {
            let d = Diagnostic::MissingMatchArms(d);
            self.sink.push(d);
            proof {
                assert(self.sink@ =~= old(self).sink@ + seq![d@]);
            }
        }
        proof {
            assert(match_matrix(*infer, match_expr, arms@) == Some(seen@));
            assert(answers(oracle, match_matrix(*infer, match_expr, arms@)->0, verdict));
        }
    }

    /// Pushes the finding that the tail `id` of the block `body_id` wants
    /// wrapping in `Ok`, where it is due.
    pub fn validate_results_in_tail_expr(&mut self, body_id: ExprId, id: ExprId, db: &HirDatabase)
        ensures
            final(self).func == old(self).func,
            final(self).infer == old(self).infer,
            *final(final(self).sink) == *final(old(self).sink),
            final(self).sink@ == old(self).sink@ + finding(
                match db.spec_function(old(self).func) {
                    Some(f) => ok_wrapping_finding(f, old(self).known(), body_id, id),
                    None => None,
                },
            ),
    {
        proof {
            assert(self.sink@ =~= old(self).sink@ + Seq::<DiagnosticView>::empty());
        }
        let f = match db.function(self.func) {
            Some(f) => f,
            None => {
                return ;
            },
        };
        // the mismatch is recorded for the whole block
        let mismatch = match self.infer.type_mismatch_for_expr(body_id) {
            Some(m) => m,
            None => {
                return ;
            },
        };
        let std_result_enum = match f.std_result_enum {
            Some(it) => it,
            None => {
                return ;
            },
        };
        let std_result_ctor = TypeCtor::Adt(AdtId::EnumId(std_result_enum));
        let params = match &mismatch.expected {
            Ty::Apply(a) => {
                if a.ctor == std_result_ctor {
                    &a.parameters
                } else {
                    return ;
                }
            },
            _ => {
                return ;
            },
        };
        if params.len() == 2 && params[0].same(&mismatch.actual) {
            if let Ok(source_ptr) = f.source_map.expr_syntax(id) {
                if let Some(expr) = source_ptr.value.left() {
                    let d = Diagnostic::MissingOkInTailExpr(
                        MissingOkInTailExpr { file: source_ptr.file_id, expr: expr.ptr },
                    );
                    self.sink.push(d);
                    proof {
                        assert(self.sink@ =~= old(self).sink@ + seq![d@]);
                    }
                }
            }
        }
    }
}

/// The finding for a match, from the oracle's answer and the place of the
/// match in the source.
pub fn missing_match_arms(verdict: &Verdict, source: &Result<ExprSource, SyntheticSyntax>) -> (r:
    Option<MissingMatchArms>)
    ensures
        match r {
            Some(d) => match_arms_finding(*verdict, *source) == Some(
                Diagnostic::MissingMatchArms(d)@,
            ),
            None => match_arms_finding(*verdict, *source) is None,
        },
{
    match verdict {
        Ok(Usefulness::Useful) => {},
        // a wildcard that is not useful means that every value is covered
        Ok(Usefulness::NotUseful) => {
            return None;
        },
        // an oracle that did not decide is taken to find nothing
        Err(_) => {
            return None;
        },
    }
    if let Ok(source_ptr) = source {
        if let Some(expr) = source_ptr.value.left() {
            if let ExprSyntax::MatchExpr { expr: Some(match_expr), match_arm_list: Some(arms) } =
                expr.syntax {
                return Some(MissingMatchArms { file: source_ptr.file_id, match_expr, arms });
            }
        }
    }
    None
}

/// The set of the names that a record literal gives values to.
pub open spec fn literal_field_set(expr: Expr) -> Set<NameView> {
    match expr {
        Expr::RecordLit { fields, .. } => literal_names(fields@).to_set(),
        _ => Set::empty(),
    }
}

/// The fields that the record literal `id` leaves out, with the definition
/// that it builds and whether it has to name every field itself, which it
/// has when it has no spread. Nothing for an expression that is no record
/// literal, for an unresolved definition, for a union, and for a literal
/// that leaves nothing out.
pub fn record_literal_missing_fields(
    db: &HirDatabase,
    infer: &InferenceResult,
    id: ExprId,
    expr: &Expr,
) -> (r: Option<(VariantId, Vec<LocalStructFieldId>, bool)>)
    ensures
        match r {
            Some((variant, missed, exhaustive)) => literal_missing_fields(*db, *infer, id, *expr)
                == Some((variant, missed@, exhaustive)),
            None => literal_missing_fields(*db, *infer, id, *expr) is None,
        },
{
    let (fields, exhaustive) = match expr {
        Expr::RecordLit { fields, spread } => (fields, spread.is_none()),
        _ => {
            return None;
        },
    };
    let variant_def = match infer.variant_resolution_for_expr(id) {
        Some(v) => v,
        None => {
            return None;
        },
    };
    let mut specified_fields = name_set_new();
    let mut i: usize = 0;
    while i < fields.len()
        invariant
            i <= fields@.len(),
            forall|n: NameView|
                name_set_items(specified_fields).contains(n) <==> exists|j: int|
                    0 <= j < i && #[trigger] literal_names(fields@)[j] == n,
        decreases fields@.len() - i,
    {
        name_set_insert(&mut specified_fields, fields[i].name.clone());
        proof {
            assert(literal_names(fields@)[i as int] == fields@[i as int].name@);
        }
        i = i + 1;
    }
    proof {
        assert(name_set_items(specified_fields) =~= literal_names(fields@).to_set()) by {
            assert forall|n: NameView|
                name_set_items(specified_fields).contains(n) == literal_names(
                    fields@,
                ).to_set().contains(n) by {
                if literal_names(fields@).contains(n) {
                    let j = choose|j: int|
                        0 <= j < literal_names(fields@).len() && literal_names(fields@)[j] == n;
                    assert(literal_names(fields@)[j] == n);
                }
            }
        }
    }
    match missed_fields(db, variant_def, &specified_fields) {
        Some(missed) => Some((variant_def, missed, exhaustive)),
        None => None,
    }
}

/// The fields that the record pattern `id` does not bind, with the
/// definition that it takes apart. Nothing for a pattern that is no record
/// pattern, for an unresolved definition, for a union, and for a pattern
/// that binds every field.
pub fn record_pattern_missing_fields(
    db: &HirDatabase,
    infer: &InferenceResult,
    id: PatId,
    pat: &Pat,
) -> (r: Option<(VariantId, Vec<LocalStructFieldId>)>)
    ensures
        match r {
            Some((variant, missed)) => pattern_missing_fields(*db, *infer, id, *pat) == Some(
                (variant, missed@),
            ),
            None => pattern_missing_fields(*db, *infer, id, *pat) is None,
        },
{
    let fields = match pat {
        Pat::Record { args } => args,
        _ => {
            return None;
        },
    };
    let variant_def = match infer.variant_resolution_for_pat(id) {
        Some(v) => v,
        None => {
            return None;
        },
    };
    let mut specified_fields = name_set_new();
    let mut i: usize = 0;
    while i < fields.len()
        invariant
            i <= fields@.len(),
            forall|n: NameView|
                name_set_items(specified_fields).contains(n) <==> exists|j: int|
                    0 <= j < i && #[trigger] pattern_names(fields@)[j] == n,
        decreases fields@.len() - i,
    {
        name_set_insert(&mut specified_fields, fields[i].name.clone());
        proof {
            assert(pattern_names(fields@)[i as int] == fields@[i as int].name@);
        }
        i = i + 1;
    }
    proof {
        assert(name_set_items(specified_fields) =~= pattern_names(fields@).to_set()) by {
            assert forall|n: NameView|
                name_set_items(specified_fields).contains(n) == pattern_names(
                    fields@,
                ).to_set().contains(n) by {
                if pattern_names(fields@).contains(n) {
                    let j = choose|j: int|
                        0 <= j < pattern_names(fields@).len() && pattern_names(fields@)[j] == n;
                    assert(pattern_names(fields@)[j] == n);
                }
            }
        }
    }
    match missed_fields(db, variant_def, &specified_fields) {
        Some(missed) => Some((variant_def, missed)),
        None => None,
    }
}

/// The fields of `variant_def` whose names `specified` does not hold, in
/// the order of their declaration; nothing for a union, for a definition
/// that the database does not hold, and where no field is left.
fn missed_fields(db: &HirDatabase, variant_def: VariantId, specified: &FxHashSet<Name>) -> (r:
    Option<Vec<LocalStructFieldId>>)
    ensures
        forall|names: Seq<NameView>|
            #![trigger missed_fields_of(*db, Some(variant_def), names)]
            names.to_set() == name_set_items(*specified) ==> (match r {
                Some(missed) => missed_fields_of(*db, Some(variant_def), names) == Some(
                    (variant_def, missed@),
                ),
                None => missed_fields_of(*db, Some(variant_def), names) is None,
            }),
{
    if let VariantId::UnionId(_) = variant_def {
        return None;
    }
    let variant_data = match db.variant_data(variant_def) {
        Some(d) => d,
        None => {
            return None;
        },
    };
    let fields = variant_data.fields();
    let ghost declared = field_names(variant_data@.fields);
    let mut missed: Vec<LocalStructFieldId> = Vec::new();
    let mut i: usize = 0;
    while i < fields.len()
        invariant
            i <= fields@.len(),
            field_views(fields@) == variant_data@.fields,
            declared == field_names(variant_data@.fields),
            missed@ == missing_fields(declared, name_set_items(*specified), i as int),
        decreases fields@.len() - i,
    {
        proof {
            assert(variant_data@.fields[i as int] == fields@[i as int]@);
            assert(declared[i as int] == fields@[i as int].name@);
        }
        if !name_set_contains(specified, &fields[i].name) {
            missed.push(LocalStructFieldId(i));
        }
        i = i + 1;
    }
    if missed.len() == 0 {
        return None;
    }
    Some(missed)
}

/// The fields that are reported missing are exactly the declared fields
/// whose names were not specified, each once and in the order of their
/// declaration.
pub proof fn lemma_missing_fields_exact(declared: Seq<NameView>, specified: Set<NameView>, n: int)
    requires
        0 <= n <= declared.len(),
        n <= usize::MAX,
    ensures
        forall|j: int|
            0 <= j < missing_fields(declared, specified, n).len() ==> 0 <= (
            #[trigger] missing_fields(declared, specified, n)[j]).0 < n && !specified.contains(
                declared[missing_fields(declared, specified, n)[j].0 as int],
            ),
        forall|j: int, k: int|
            0 <= j < k < missing_fields(declared, specified, n).len() ==> (
            #[trigger] missing_fields(declared, specified, n)[j]).0 < (#[trigger] missing_fields(
                declared,
                specified,
                n,
            )[k]).0,
        forall|i: int|
            0 <= i < n && !specified.contains(#[trigger] declared[i]) ==> missing_fields(
                declared,
                specified,
                n,
            ).contains(LocalStructFieldId(i as usize)),
    decreases n,
{
    if n > 0 {
        lemma_missing_fields_exact(declared, specified, n - 1);
        let rest = missing_fields(declared, specified, n - 1);
        let all = missing_fields(declared, specified, n);
        assert forall|j: int| 0 <= j < all.len() implies 0 <= (#[trigger] all[j]).0 < n
            && !specified.contains(declared[all[j].0 as int]) by {
            if j < rest.len() {
                assert(rest[j].0 < n - 1);
            }
        }
        assert forall|j: int, k: int| 0 <= j < k < all.len() implies (#[trigger] all[j]).0 < (
        #[trigger] all[k]).0 by {
            if k < rest.len() {
                assert(rest[j].0 < rest[k].0);
            } else {
                assert(rest[j].0 < n - 1);
            }
        }
        assert forall|i: int| 0 <= i < n && !specified.contains(#[trigger] declared[i]) implies all.contains(
            LocalStructFieldId(i as usize),
        ) by {
            if i < n - 1 {
                assert(rest.contains(LocalStructFieldId(i as usize)));
                let j = choose|j: int| 0 <= j < rest.len() && rest[j] == LocalStructFieldId(i as usize);
                assert(all[j] == LocalStructFieldId(i as usize));
            } else {
                assert(all[all.len() - 1] == LocalStructFieldId(i as usize));
            }
        }
    }
}

/// A record literal with a spread yields no finding about its fields,
/// whatever it leaves out: the spread stands for the rest.
pub proof fn lemma_spread_suppresses_finding(
    db: HirDatabase,
    f: FunctionData,
    infer: InferenceResult,
    id: ExprId,
    expr: Expr,
)
    requires
        expr matches Expr::RecordLit { spread: Some(_), .. },
    ensures
        missing_fields_finding(db, f, infer, id, expr) is None,
{
}

/// A literal that builds a union, and a pattern that takes one apart, is
/// never said to leave fields out.
pub proof fn lemma_unions_are_excluded(
    db: HirDatabase,
    f: FunctionData,
    infer: InferenceResult,
    id: ExprId,
    expr: Expr,
    pat_id: PatId,
    pat: Pat,
)
    ensures
        infer.spec_variant_resolution_for_expr(id) matches Some(VariantId::UnionId(_))
            ==> literal_missing_fields(db, infer, id, expr) is None && missing_fields_finding(
            db,
            f,
            infer,
            id,
            expr,
        ) is None,
        infer.spec_variant_resolution_for_pat(pat_id) matches Some(VariantId::UnionId(_))
            ==> pattern_missing_fields(db, infer, pat_id, pat) is None,
{
}

/// A match yields a finding exactly when the oracle calls the wildcard
/// useful and the match, its scrutinee and its arm list are found in the
/// source. A wildcard that is not useful, and an oracle that does not
/// decide, yield none.
pub proof fn lemma_match_finding_needs_useful_wildcard(
    verdict: Verdict,
    source: Result<ExprSource, SyntheticSyntax>,
)
    ensures
        verdict != Ok::<Usefulness, MatchCheckErr>(Usefulness::Useful) ==> match_arms_finding(
            verdict,
            source,
        ) is None,
        match_arms_finding(verdict, source) is Some <==> verdict == Ok::<Usefulness, MatchCheckErr>(
            Usefulness::Useful,
        ) && (source matches Ok(src) && src.value matches Either::Left(expr) && expr.syntax
            matches ExprSyntax::MatchExpr { expr: Some(_), match_arm_list: Some(_) }),
{
}

/// An arm whose pattern has the type `T` enters the matrix of a match on a
/// scrutinee of the type `&T`, as it does for a scrutinee of the type `T`
/// itself.
pub proof fn lemma_autoderef_arm_included(
    infer: InferenceResult,
    pat: PatId,
    mutability: crate::ty::Mutability,
    arms: Seq<MatchArm>,
    n: int,
)
    requires
        infer.type_of_pat@.contains_key(pat.0),
        0 < n <= arms.len(),
        arms[n - 1].pat == pat,
    ensures
        arm_included(infer, infer.type_of_pat@[pat.0]@, pat),
        arm_included(
            infer,
            TyView::Apply {
                ctor: TypeCtor::Ref(mutability),
                parameters: seq![infer.type_of_pat@[pat.0]@],
            },
            pat,
        ),
        matrix_rows(
            infer,
            TyView::Apply {
                ctor: TypeCtor::Ref(mutability),
                parameters: seq![infer.type_of_pat@[pat.0]@],
            },
            arms,
            n,
        ).last() == PatStack::spec_from_pattern(pat),
{
    let inner = infer.type_of_pat@[pat.0]@;
    let scrutinee = TyView::Apply { ctor: TypeCtor::Ref(mutability), parameters: seq![inner] };
    assert(scrutinee.as_reference() == Some((inner, mutability)));
}

/// The rows of a matrix are the patterns of the arms that enter it: every
/// row is the pattern of an arm that is included, and every arm that is
/// included has its pattern among the rows.
pub proof fn lemma_matrix_holds_the_included_arms(
    infer: InferenceResult,
    scrutinee: TyView,
    arms: Seq<MatchArm>,
    n: int,
)
    requires
        0 <= n <= arms.len(),
    ensures
        matrix_rows(infer, scrutinee, arms, n).len() <= n,
        forall|k: int|
            0 <= k < matrix_rows(infer, scrutinee, arms, n).len() ==> exists|j: int|
                0 <= j < n && arm_included(infer, scrutinee, arms[j].pat) && #[trigger] matrix_rows(
                    infer,
                    scrutinee,
                    arms,
                    n,
                )[k] == PatStack::spec_from_pattern(arms[j].pat),
        forall|j: int|
            0 <= j < n && arm_included(infer, scrutinee, (#[trigger] arms[j]).pat) ==> matrix_rows(
                infer,
                scrutinee,
                arms,
                n,
            ).contains(PatStack::spec_from_pattern(arms[j].pat)),
    decreases n,
{
    if n > 0 {
        lemma_matrix_holds_the_included_arms(infer, scrutinee, arms, n - 1);
        let rest = matrix_rows(infer, scrutinee, arms, n - 1);
        let all = matrix_rows(infer, scrutinee, arms, n);
        assert forall|k: int| 0 <= k < all.len() implies exists|j: int|
            0 <= j < n && arm_included(infer, scrutinee, arms[j].pat) && #[trigger] all[k]
                == PatStack::spec_from_pattern(arms[j].pat) by {
            if k < rest.len() {
                let j = choose|j: int|
                    0 <= j < n - 1 && arm_included(infer, scrutinee, arms[j].pat) && rest[k]
                        == PatStack::spec_from_pattern(arms[j].pat);
                assert(all[k] == PatStack::spec_from_pattern(arms[j].pat));
            } else {
                assert(all[k] == PatStack::spec_from_pattern(arms[n - 1].pat));
            }
        }
        assert forall|j: int|
            0 <= j < n && arm_included(infer, scrutinee, (#[trigger] arms[j]).pat) implies all.contains(
            PatStack::spec_from_pattern(arms[j].pat),
        ) by {
            if j < n - 1 {
                assert(rest.contains(PatStack::spec_from_pattern(arms[j].pat)));
                let k = choose|k: int|
                    0 <= k < rest.len() && rest[k] == PatStack::spec_from_pattern(arms[j].pat);
                assert(all[k] == PatStack::spec_from_pattern(arms[j].pat));
            } else {
                assert(all[all.len() - 1] == PatStack::spec_from_pattern(arms[j].pat));
            }
        }
    }
}

/// A tail expression is said to want wrapping only where its type is
/// exactly the first parameter of the expected result type: any other
/// type, any other constructor and any other number of parameters yield
/// nothing.
pub proof fn lemma_ok_wrapping_needs_exact_type(
    f: FunctionData,
    infer: InferenceResult,
    body_id: ExprId,
    id: ExprId,
)
    requires
        ok_wrapping_finding(f, infer, body_id, id) is Some,
    ensures
        infer.spec_type_mismatch_for_expr(body_id) is Some,
        f.std_result_enum is Some,
        infer.spec_type_mismatch_for_expr(body_id)->0.expected@ matches TyView::Apply {
            ctor,
            parameters,
        } && ctor == TypeCtor::Adt(AdtId::EnumId(f.std_result_enum->0)) && parameters.len() == 2
            && parameters[0] == infer.spec_type_mismatch_for_expr(body_id)->0.actual@,
        f.source_map.spec_expr_syntax(id) matches Ok(src) && src.value matches Either::Left(expr)
            && ok_wrapping_finding(f, infer, body_id, id) == Some(
            DiagnosticView::MissingOkInTailExpr { file: src.file_id, expr: expr.ptr },
        ),
{
}

/// Every field that is reported missing is a field of the shape.
pub proof fn lemma_missing_fields_in_range(declared: Seq<NameView>, specified: Set<NameView>, n: int)
    requires
        0 <= n <= declared.len(),
        n <= usize::MAX,
    ensures
        forall|j: int|
            0 <= j < missing_fields(declared, specified, n).len() ==> (#[trigger] missing_fields(
                declared,
                specified,
                n,
            )[j]).0 < n,
    decreases n,
{
    if n > 0 {
        lemma_missing_fields_in_range(declared, specified, n - 1);
        let rest = missing_fields(declared, specified, n - 1);
        assert forall|j: int| 0 <= j < missing_fields(declared, specified, n).len() implies (
        #[trigger] missing_fields(declared, specified, n)[j]).0 < n by {
            if j < rest.len() {
                assert(rest[j].0 < n - 1);
            }
        }
    }
}

/// The findings for the first `n` expressions depend on the first `n`
/// verdicts only.
pub proof fn lemma_findings_ignore_later_verdicts(
    db: HirDatabase,
    f: FunctionData,
    infer: InferenceResult,
    a: Seq<Verdict>,
    b: Seq<Verdict>,
    n: int,
)
    requires
        0 <= n <= a.len(),
        n <= b.len(),
        forall|k: int| 0 <= k < n ==> a[k] == b[k],
    ensures
        exprs_findings(db, f, infer, a, n) == exprs_findings(db, f, infer, b, n),
    decreases n,
{
    if n > 0 {
        lemma_findings_ignore_later_verdicts(db, f, infer, a, b, n - 1);
    }
}

} // verus!
