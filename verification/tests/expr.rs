use std::cell::RefCell;
use std::sync::Arc;

use either::Either;
use hir_core::adt::{EnumData, StructData};
use hir_core::arena::Arena;
use hir_core::body::{
    Body, BodySourceMap, Expr, ExprPtr, ExprSource, ExprSyntax, MatchArm, Pat, RecordFieldPat,
    RecordLitField, SyntheticSyntax,
};
use hir_core::db::{FunctionData, HirDatabase};
use hir_core::diagnostics::{Diagnostic, DiagnosticSink};
use hir_core::expr::{
    missing_match_arms, record_literal_missing_fields, record_pattern_missing_fields,
    ExprValidator, MatchCheckErr, Matrix, PatIdOrWild, PatStack, Usefulness, Verdict,
};
use hir_core::ids::{
    AdtId, EnumId, EnumVariantId, ExprId, FunctionId, LocalEnumVariantId, LocalStructFieldId,
    PatId, StructId, UnionId, VariantId,
};
use hir_core::infer::{InferenceResult, TypeMismatch};
use hir_core::name::Name;
use hir_core::source::{
    EnumDef, EnumVariant, FieldDefList, FileId, InFile, RecordFieldDef, StructDef, UnionDef,
};
use hir_core::syntax::kind::{AstPtr, SyntaxKind, TextRange};
use hir_core::ty::{Mutability, Ty, TypeCtor};

fn ptr(kind: SyntaxKind, start: u32, end: u32) -> AstPtr {
    AstPtr { kind, range: TextRange { start, end } }
}

fn record_field(name: &str) -> RecordFieldDef {
    RecordFieldDef {
        ptr: ptr(SyntaxKind::RECORD_FIELD_DEF, 0, 1),
        name: Some(name.to_string()),
        ascribed_type: Some("T".to_string()),
        visibility: None,
    }
}

fn record_struct(name: &str, fields: &[&str]) -> Arc<StructData> {
    StructData::struct_data_query(&StructDef {
        name: Some(name.to_string()),
        kind: FieldDefList::Record(fields.iter().map(|f| record_field(f)).collect()),
    })
}

fn record_union(name: &str, fields: &[&str]) -> Arc<StructData> {
    StructData::union_data_query(&UnionDef {
        name: Some(name.to_string()),
        record_field_def_list: Some(fields.iter().map(|f| record_field(f)).collect()),
    })
}

fn result_enum() -> Arc<EnumData> {
    EnumData::enum_data_query(&EnumDef {
        name: Some("Result".to_string()),
        variant_list: Some(vec![
            EnumVariant {
                ptr: ptr(SyntaxKind::ENUM_VARIANT, 0, 1),
                name: Some("Ok".to_string()),
                kind: FieldDefList::Unit,
            },
            EnumVariant {
                ptr: ptr(SyntaxKind::ENUM_VARIANT, 2, 3),
                name: Some("Err".to_string()),
                kind: FieldDefList::Record(vec![record_field("code"), record_field("text")]),
            },
        ]),
    })
}

const POINT: StructId = StructId(0);
const QUAD: StructId = StructId(1);
const BITS: UnionId = UnionId(0);
const RESULT: EnumId = EnumId(0);
const FILE: FileId = FileId(4);

fn database(functions: Vec<FunctionData>) -> HirDatabase {
    HirDatabase {
        structs: vec![record_struct("Point", &["x", "y"]), record_struct("Quad", &["a", "b", "c", "d"])],
        unions: vec![record_union("Bits", &["int", "bytes"])],
        enums: vec![result_enum()],
        functions,
    }
}

fn lit_field(name: &str, expr: usize) -> RecordLitField {
    RecordLitField { name: Name::new_text(name), expr: ExprId(expr) }
}

fn arena_of<T>(items: Vec<T>) -> Arena<T> {
    let mut arena = Arena::new();
    for item in items {
        arena.allocate(item);
    }
    arena
}

fn function(exprs: Vec<Expr>, pats: Vec<Pat>, body_expr: usize) -> FunctionData {
    FunctionData {
        body: Body { exprs: arena_of(exprs), pats: arena_of(pats), body_expr: ExprId(body_expr) },
        source_map: BodySourceMap::new(),
        std_result_enum: Some(RESULT),
    }
}

fn expr_source(start: u32, syntax: ExprSyntax) -> ExprSource {
    InFile::new(FILE, Either::Left(ExprPtr { ptr: ptr(SyntaxKind::LITERAL, start, start + 9), syntax }))
}

fn record_lit_source(start: u32) -> ExprSource {
    let list = ptr(SyntaxKind::RECORD_FIELD_LIST, start + 6, start + 14);
    ExprSource {
        file_id: FILE,
        value: Either::Left(ExprPtr {
            ptr: ptr(SyntaxKind::RECORD_LIT, start, start + 14),
            syntax: ExprSyntax::RecordLit { record_field_list: Some(list) },
        }),
    }
}

fn match_source(start: u32) -> ExprSource {
    ExprSource {
        file_id: FILE,
        value: Either::Left(ExprPtr {
            ptr: ptr(SyntaxKind::MATCH_EXPR, start, start + 30),
            syntax: ExprSyntax::MatchExpr {
                expr: Some(ptr(SyntaxKind::PATH_EXPR, start + 6, start + 7)),
                match_arm_list: Some(ptr(SyntaxKind::MATCH_ARM_LIST, start + 8, start + 30)),
            },
        }),
    }
}

fn no_oracle(_: &Matrix, _: &PatStack) -> Verdict {
    panic!("the oracle is asked for matches only")
}

fn run_with<F: Fn(&Matrix, &PatStack) -> Verdict>(
    db: &HirDatabase,
    infer: InferenceResult,
    oracle: &F,
) -> Vec<String> {
    let mut sink = DiagnosticSink::new();
    let mut validator = ExprValidator::new(FunctionId(0), Arc::new(infer), &mut sink);
    validator.validate_body(db, oracle);
    sink.as_slice().iter().map(|d| format!("{:?}", d)).collect()
}

fn run(db: &HirDatabase, infer: InferenceResult) -> Vec<String> {
    run_with(db, infer, &no_oracle)
}

fn bool_ty() -> Ty {
    Ty::apply(TypeCtor::Bool, vec![])
}

fn int_ty() -> Ty {
    Ty::apply(TypeCtor::Int, vec![])
}

fn ref_ty(inner: Ty) -> Ty {
    Ty::apply(TypeCtor::Ref(Mutability::Shared), vec![inner])
}

fn result_ty(ok: Ty, err: Ty) -> Ty {
    Ty::apply(TypeCtor::Adt(AdtId::EnumId(RESULT)), vec![ok, err])
}

/// `Point { x: 1 }`, with a spread where `spread` is set: the literal is the
/// expression 1 of a body whose expression 0 is the `1`.
fn point_literal(spread: bool) -> (HirDatabase, InferenceResult) {
    let mut exprs = vec![
        Expr::Other,
        Expr::RecordLit {
            fields: vec![lit_field("x", 0)],
            spread: if spread { Some(ExprId(2)) } else { None },
        },
    ];
    if spread {
        exprs.push(Expr::Other);
    }
    let mut f = function(exprs, vec![], 1);
    f.source_map.expr_map_back.insert(1, record_lit_source(20));
    let mut infer = InferenceResult::new();
    infer.variant_resolutions_for_exprs.insert(1, VariantId::StructId(POINT));
    (database(vec![f]), infer)
}

#[test]
fn record_literal_without_spread_reports_the_missing_field() {
    let (db, infer) = point_literal(false);
    let mut sink = DiagnosticSink::new();
    let mut validator = ExprValidator::new(FunctionId(0), Arc::new(infer), &mut sink);
    validator.validate_body(&db, &no_oracle);
    assert_eq!(sink.len(), 1);
    match &sink.as_slice()[0] {
        Diagnostic::MissingFields(d) => {
            assert_eq!(d.file, FILE);
            assert_eq!(d.field_list, ptr(SyntaxKind::RECORD_FIELD_LIST, 26, 34));
            assert_eq!(d.missed_fields, vec![Name::new_text("y")]);
        }
        other => panic!("unexpected diagnostic {:?}", other),
    }
}

#[test]
fn record_literal_with_spread_reports_nothing() {
    let (db, infer) = point_literal(true);
    assert!(run(&db, infer).is_empty());
}

#[test]
fn spread_still_shows_in_the_computed_missing_fields() {
    let (db, infer) = point_literal(true);
    let expr = db.functions[0].body.exprs.index(1);
    let missing = record_literal_missing_fields(&db, &infer, ExprId(1), expr);
    assert_eq!(missing, Some((VariantId::StructId(POINT), vec![LocalStructFieldId(1)], false)));
    let (db, infer) = point_literal(false);
    let expr = db.functions[0].body.exprs.index(1);
    let missing = record_literal_missing_fields(&db, &infer, ExprId(1), expr);
    assert_eq!(missing, Some((VariantId::StructId(POINT), vec![LocalStructFieldId(1)], true)));
}

#[test]
fn record_literal_of_a_union_reports_nothing() {
    let mut f = function(
        vec![Expr::Other, Expr::RecordLit { fields: vec![lit_field("int", 0)], spread: None }],
        vec![],
        1,
    );
    f.source_map.expr_map_back.insert(1, record_lit_source(0));
    let db = database(vec![f]);
    let mut infer = InferenceResult::new();
    infer.variant_resolutions_for_exprs.insert(1, VariantId::UnionId(BITS));
    let expr = db.functions[0].body.exprs.index(1);
    assert_eq!(record_literal_missing_fields(&db, &infer, ExprId(1), expr), None);
    assert!(run(&db, infer).is_empty());
}

#[test]
fn union_without_any_field_named_reports_nothing() {
    let f = function(vec![Expr::RecordLit { fields: vec![], spread: None }], vec![], 0);
    let db = database(vec![f]);
    let mut infer = InferenceResult::new();
    infer.variant_resolutions_for_exprs.insert(0, VariantId::UnionId(BITS));
    let expr = db.functions[0].body.exprs.index(0);
    assert_eq!(record_literal_missing_fields(&db, &infer, ExprId(0), expr), None);
}

#[test]
fn complete_record_literal_reports_nothing() {
    let mut f = function(
        vec![
            Expr::Other,
            Expr::RecordLit { fields: vec![lit_field("y", 0), lit_field("x", 0)], spread: None },
        ],
        vec![],
        1,
    );
    f.source_map.expr_map_back.insert(1, record_lit_source(0));
    let db = database(vec![f]);
    let mut infer = InferenceResult::new();
    infer.variant_resolutions_for_exprs.insert(1, VariantId::StructId(POINT));
    let expr = db.functions[0].body.exprs.index(1);
    assert_eq!(record_literal_missing_fields(&db, &infer, ExprId(1), expr), None);
    assert!(run(&db, infer).is_empty());
}

#[test]
fn missing_fields_come_in_declaration_order() {
    let f = function(
        vec![Expr::Other, Expr::RecordLit { fields: vec![lit_field("c", 0)], spread: None }],
        vec![],
        1,
    );
    let db = database(vec![f]);
    let mut infer = InferenceResult::new();
    infer.variant_resolutions_for_exprs.insert(1, VariantId::StructId(QUAD));
    let expr = db.functions[0].body.exprs.index(1);
    assert_eq!(
        record_literal_missing_fields(&db, &infer, ExprId(1), expr),
        Some((
            VariantId::StructId(QUAD),
            vec![LocalStructFieldId(0), LocalStructFieldId(1), LocalStructFieldId(3)],
            true
        ))
    );
}

#[test]
fn unknown_field_names_in_the_literal_do_not_count() {
    let f = function(
        vec![
            Expr::Other,
            Expr::RecordLit { fields: vec![lit_field("z", 0), lit_field("x", 0)], spread: None },
        ],
        vec![],
        1,
    );
    let db = database(vec![f]);
    let mut infer = InferenceResult::new();
    infer.variant_resolutions_for_exprs.insert(1, VariantId::StructId(POINT));
    let expr = db.functions[0].body.exprs.index(1);
    assert_eq!(
        record_literal_missing_fields(&db, &infer, ExprId(1), expr),
        Some((VariantId::StructId(POINT), vec![LocalStructFieldId(1)], true))
    );
}

#[test]
fn unresolved_record_literal_reports_nothing() {
    let (db, _) = point_literal(false);
    let infer = InferenceResult::new();
    let expr = db.functions[0].body.exprs.index(1);
    assert_eq!(record_literal_missing_fields(&db, &infer, ExprId(1), expr), None);
    assert!(run(&db, infer).is_empty());
}

#[test]
fn literal_of_a_definition_that_the_database_lacks_reports_nothing() {
    let (db, _) = point_literal(false);
    let mut infer = InferenceResult::new();
    infer.variant_resolutions_for_exprs.insert(1, VariantId::StructId(StructId(17)));
    let expr = db.functions[0].body.exprs.index(1);
    assert_eq!(record_literal_missing_fields(&db, &infer, ExprId(1), expr), None);
    assert!(run(&db, infer).is_empty());
}

#[test]
fn expression_that_is_no_record_literal_has_no_missing_fields() {
    let (db, infer) = point_literal(false);
    assert_eq!(record_literal_missing_fields(&db, &infer, ExprId(1), &Expr::Other), None);
    assert_eq!(record_literal_missing_fields(&db, &infer, ExprId(1), &Expr::Missing), None);
}

#[test]
fn record_literal_of_an_enum_variant_reports_its_fields() {
    let mut f = function(
        vec![Expr::Other, Expr::RecordLit { fields: vec![lit_field("text", 0)], spread: None }],
        vec![],
        1,
    );
    f.source_map.expr_map_back.insert(1, record_lit_source(100));
    let db = database(vec![f]);
    let mut infer = InferenceResult::new();
    let err = VariantId::EnumVariantId(EnumVariantId { parent: RESULT, local_id: LocalEnumVariantId(1) });
    infer.variant_resolutions_for_exprs.insert(1, err);
    let mut sink = DiagnosticSink::new();
    let mut validator = ExprValidator::new(FunctionId(0), Arc::new(infer), &mut sink);
    validator.validate_body(&db, &no_oracle);
    match &sink.as_slice()[0] {
        Diagnostic::MissingFields(d) => {
            assert_eq!(d.missed_fields, vec![Name::new_text("code")]);
            assert_eq!(d.field_list, ptr(SyntaxKind::RECORD_FIELD_LIST, 106, 114));
        }
        other => panic!("unexpected diagnostic {:?}", other),
    }
    assert_eq!(sink.len(), 1);
}

#[test]
fn missing_fields_without_a_place_in_the_source_are_dropped() {
    // no entry in the source map
    let (mut db, infer) = point_literal(false);
    db.functions[0].source_map = BodySourceMap::new();
    assert!(run(&db, infer).is_empty());

    // the expression is the shorthand of a record field
    let (mut db, infer) = point_literal(false);
    db.functions[0].source_map.expr_map_back.insert(
        1,
        InFile::new(FILE, Either::Right(ptr(SyntaxKind::RECORD_FIELD, 0, 1))),
    );
    assert!(run(&db, infer).is_empty());

    // the node is no record literal
    let (mut db, infer) = point_literal(false);
    db.functions[0].source_map.expr_map_back.insert(1, expr_source(0, ExprSyntax::Other));
    assert!(run(&db, infer).is_empty());

    // the record literal has no field list
    let (mut db, infer) = point_literal(false);
    db.functions[0]
        .source_map
        .expr_map_back
        .insert(1, expr_source(0, ExprSyntax::RecordLit { record_field_list: None }));
    assert!(run(&db, infer).is_empty());
}

#[test]
fn function_that_the_database_lacks_reports_nothing() {
    let (db, infer) = point_literal(false);
    let mut sink = DiagnosticSink::new();
    let mut validator = ExprValidator::new(FunctionId(5), Arc::new(infer), &mut sink);
    validator.validate_body(&db, &no_oracle);
    assert_eq!(sink.len(), 0);
}

fn pat_field(name: &str) -> RecordFieldPat {
    RecordFieldPat { name: Name::new_text(name), pat: PatId(0) }
}

#[test]
fn record_pattern_missing_fields_are_computed_like_those_of_a_literal() {
    let db = database(vec![]);
    let mut infer = InferenceResult::new();
    infer.variant_resolutions_for_pats.insert(2, VariantId::StructId(QUAD));
    infer.variant_resolutions_for_pats.insert(3, VariantId::UnionId(BITS));
    let pat = Pat::Record { args: vec![pat_field("b"), pat_field("d")] };
    assert_eq!(
        record_pattern_missing_fields(&db, &infer, PatId(2), &pat),
        Some((VariantId::StructId(QUAD), vec![LocalStructFieldId(0), LocalStructFieldId(2)]))
    );
    // a union is left out
    assert_eq!(record_pattern_missing_fields(&db, &infer, PatId(3), &pat), None);
    // an unresolved pattern is left out
    assert_eq!(record_pattern_missing_fields(&db, &infer, PatId(4), &pat), None);
    // a pattern that is no record pattern has no fields
    assert_eq!(record_pattern_missing_fields(&db, &infer, PatId(2), &Pat::Wild), None);
    assert_eq!(record_pattern_missing_fields(&db, &infer, PatId(2), &Pat::Other), None);
    // a pattern that binds every field misses none
    let all = Pat::Record {
        args: vec![pat_field("a"), pat_field("b"), pat_field("c"), pat_field("d")],
    };
    assert_eq!(record_pattern_missing_fields(&db, &infer, PatId(2), &all), None);
}

/// The oracle for booleans: `literals` says which pattern stands for which
/// literal, and the wildcard is useful as long as one of the two is not
/// among the rows.
fn bool_oracle(literals: Vec<Option<bool>>) -> impl Fn(&Matrix, &PatStack) -> Verdict {
    move |matrix: &Matrix, candidate: &PatStack| {
        assert_eq!(candidate.head, PatIdOrWild::Wild);
        let mut seen = [false, false];
        for row in &matrix.rows {
            match row.head {
                PatIdOrWild::Wild => return Ok(Usefulness::NotUseful),
                PatIdOrWild::PatId(pat) => match literals[pat.0] {
                    Some(b) => seen[b as usize] = true,
                    None => return Err(MatchCheckErr::NotImplemented),
                },
            }
        }
        if seen[0] && seen[1] {
            Ok(Usefulness::NotUseful)
        } else {
            Ok(Usefulness::Useful)
        }
    }
}

fn arm(pat: usize, expr: usize) -> MatchArm {
    MatchArm { pat: PatId(pat), guard: None, expr: ExprId(expr) }
}

/// `match b { true => 1, false => 2 }`, with the arms that `arms` names: the
/// match is the expression 3, `b` the expression 0, the patterns `true` and
/// `false` the patterns 0 and 1.
fn bool_match(arms: Vec<MatchArm>, scrutinee: Option<Ty>) -> (HirDatabase, InferenceResult) {
    let mut f = function(
        vec![Expr::Other, Expr::Other, Expr::Other, Expr::Match { expr: ExprId(0), arms }],
        vec![Pat::Other, Pat::Other],
        3,
    );
    f.source_map.expr_map_back.insert(3, match_source(50));
    let mut infer = InferenceResult::new();
    if let Some(ty) = scrutinee {
        infer.type_of_expr.insert(0, ty);
    }
    infer.type_of_pat.insert(0, bool_ty());
    infer.type_of_pat.insert(1, bool_ty());
    (database(vec![f]), infer)
}

#[test]
fn match_that_covers_both_booleans_reports_nothing() {
    let (db, infer) = bool_match(vec![arm(0, 1), arm(1, 2)], Some(bool_ty()));
    let oracle = bool_oracle(vec![Some(true), Some(false)]);
    assert!(run_with(&db, infer, &oracle).is_empty());
}

#[test]
fn match_that_covers_one_boolean_reports_missing_arms() {
    let (db, infer) = bool_match(vec![arm(0, 1)], Some(bool_ty()));
    let oracle = bool_oracle(vec![Some(true), Some(false)]);
    let mut sink = DiagnosticSink::new();
    let mut validator = ExprValidator::new(FunctionId(0), Arc::new(infer), &mut sink);
    validator.validate_body(&db, &oracle);
    assert_eq!(sink.len(), 1);
    match &sink.as_slice()[0] {
        Diagnostic::MissingMatchArms(d) => {
            assert_eq!(d.file, FILE);
            assert_eq!(d.match_expr, ptr(SyntaxKind::PATH_EXPR, 56, 57));
            assert_eq!(d.arms, ptr(SyntaxKind::MATCH_ARM_LIST, 58, 80));
        }
        other => panic!("unexpected diagnostic {:?}", other),
    }
}

fn recorded_rows(
    db: &HirDatabase,
    infer: InferenceResult,
    verdict: Verdict,
) -> (Vec<Vec<PatIdOrWild>>, Vec<String>) {
    let asked: RefCell<Vec<Vec<PatIdOrWild>>> = RefCell::new(Vec::new());
    let oracle = |matrix: &Matrix, _: &PatStack| {
        asked.borrow_mut().push(matrix.rows.iter().map(|row| row.head).collect());
        verdict
    };
    let found = run_with(db, infer, &oracle);
    (asked.into_inner(), found)
}

#[test]
fn arm_of_the_referred_type_enters_the_matrix() {
    let (db, infer) = bool_match(vec![arm(0, 1), arm(1, 2)], Some(ref_ty(bool_ty())));
    let (asked, found) = recorded_rows(&db, infer, Ok(Usefulness::NotUseful));
    assert_eq!(
        asked,
        vec![vec![PatIdOrWild::PatId(PatId(0)), PatIdOrWild::PatId(PatId(1))]]
    );
    assert!(found.is_empty());
}

#[test]
fn only_one_layer_of_reference_is_looked_through() {
    let (db, infer) = bool_match(vec![arm(0, 1), arm(1, 2)], Some(ref_ty(ref_ty(bool_ty()))));
    let (asked, _) = recorded_rows(&db, infer, Ok(Usefulness::NotUseful));
    assert_eq!(asked, vec![Vec::<PatIdOrWild>::new()]);
}

#[test]
fn arm_of_another_type_stays_out_of_the_matrix() {
    let (db, mut infer) = bool_match(vec![arm(0, 1), arm(1, 2)], Some(bool_ty()));
    infer.type_of_pat.insert(0, int_ty());
    let (asked, _) = recorded_rows(&db, infer, Ok(Usefulness::NotUseful));
    assert_eq!(asked, vec![vec![PatIdOrWild::PatId(PatId(1))]]);
}

#[test]
fn arm_of_unknown_type_stays_out_of_the_matrix() {
    let (db, _) = bool_match(vec![arm(0, 1), arm(1, 2)], None);
    let mut infer = InferenceResult::new();
    infer.type_of_expr.insert(0, bool_ty());
    infer.type_of_pat.insert(1, bool_ty());
    let (asked, found) = recorded_rows(&db, infer, Ok(Usefulness::Useful));
    assert_eq!(asked, vec![vec![PatIdOrWild::PatId(PatId(1))]]);
    assert_eq!(found.len(), 1);
}

#[test]
fn match_on_a_scrutinee_of_unknown_type_is_not_checked() {
    let (db, infer) = bool_match(vec![arm(0, 1)], None);
    let (asked, found) = recorded_rows(&db, infer, Ok(Usefulness::Useful));
    assert!(asked.is_empty());
    assert!(found.is_empty());
}

#[test]
fn undecided_oracle_reports_nothing() {
    for err in [MatchCheckErr::NotImplemented, MatchCheckErr::MalformedMatchArm, MatchCheckErr::Unknown] {
        let (db, infer) = bool_match(vec![arm(0, 1)], Some(bool_ty()));
        let (asked, found) = recorded_rows(&db, infer, Err(err));
        assert_eq!(asked.len(), 1);
        assert!(found.is_empty());
    }
}

#[test]
fn missing_arms_without_a_place_in_the_source_are_dropped() {
    let useful: Verdict = Ok(Usefulness::Useful);
    assert!(missing_match_arms(&useful, &Err(SyntheticSyntax)).is_none());
    let field = InFile::new(FILE, Either::Right(ptr(SyntaxKind::RECORD_FIELD, 0, 1)));
    assert!(missing_match_arms(&useful, &Ok(field)).is_none());
    assert!(missing_match_arms(&useful, &Ok(expr_source(0, ExprSyntax::Other))).is_none());
    let no_arms = ExprSyntax::MatchExpr { expr: Some(ptr(SyntaxKind::PATH_EXPR, 0, 1)), match_arm_list: None };
    assert!(missing_match_arms(&useful, &Ok(expr_source(0, no_arms))).is_none());
    let no_scrutinee =
        ExprSyntax::MatchExpr { expr: None, match_arm_list: Some(ptr(SyntaxKind::MATCH_ARM_LIST, 0, 1)) };
    assert!(missing_match_arms(&useful, &Ok(expr_source(0, no_scrutinee))).is_none());

    let found = missing_match_arms(&useful, &Ok(match_source(0))).unwrap();
    assert_eq!(found.match_expr, ptr(SyntaxKind::PATH_EXPR, 6, 7));
    assert_eq!(found.arms, ptr(SyntaxKind::MATCH_ARM_LIST, 8, 30));
    assert_eq!(found.file, FILE);

    let covered: Verdict = Ok(Usefulness::NotUseful);
    assert!(missing_match_arms(&covered, &Ok(match_source(0))).is_none());
    let open: Verdict = Err(MatchCheckErr::NotImplemented);
    assert!(missing_match_arms(&open, &Ok(match_source(0))).is_none());
}

/// `fn f() -> Result<i32, E> { t }`: the body is the block 1 with the tail 0,
/// and the block is recorded as a mismatch of `expected` and `actual`.
fn tail_function(expected: Ty, actual: Ty) -> (HirDatabase, InferenceResult) {
    let mut f = function(
        vec![Expr::Other, Expr::Block { statements: vec![], tail: Some(ExprId(0)) }],
        vec![],
        1,
    );
    f.source_map.expr_map_back.insert(0, expr_source(33, ExprSyntax::Other));
    f.source_map.expr_map_back.insert(1, expr_source(30, ExprSyntax::Other));
    let mut infer = InferenceResult::new();
    infer.type_mismatches.insert(1, TypeMismatch { expected, actual });
    (database(vec![f]), infer)
}

#[test]
fn tail_of_the_success_type_wants_wrapping_in_ok() {
    let (db, infer) = tail_function(result_ty(int_ty(), Ty::Placeholder(0)), int_ty());
    let mut sink = DiagnosticSink::new();
    let mut validator = ExprValidator::new(FunctionId(0), Arc::new(infer), &mut sink);
    validator.validate_body(&db, &no_oracle);
    assert_eq!(sink.len(), 1);
    match &sink.as_slice()[0] {
        Diagnostic::MissingOkInTailExpr(d) => {
            assert_eq!(d.file, FILE);
            assert_eq!(d.expr, ptr(SyntaxKind::LITERAL, 33, 42));
        }
        other => panic!("unexpected diagnostic {:?}", other),
    }
}

#[test]
fn tail_of_another_type_reports_nothing() {
    let (db, infer) = tail_function(result_ty(int_ty(), Ty::Placeholder(0)), bool_ty());
    assert!(run(&db, infer).is_empty());
    let (db, infer) = tail_function(result_ty(int_ty(), Ty::Placeholder(0)), ref_ty(int_ty()));
    assert!(run(&db, infer).is_empty());
    let (db, infer) = tail_function(result_ty(ref_ty(int_ty()), Ty::Unknown), int_ty());
    assert!(run(&db, infer).is_empty());
    // the type of the error is not the type of the success
    let (db, infer) = tail_function(result_ty(int_ty(), bool_ty()), bool_ty());
    assert!(run(&db, infer).is_empty());
}

#[test]
fn expected_type_that_is_no_result_reports_nothing() {
    // one parameter, three parameters
    let one = Ty::apply(TypeCtor::Adt(AdtId::EnumId(RESULT)), vec![int_ty()]);
    let (db, infer) = tail_function(one, int_ty());
    assert!(run(&db, infer).is_empty());
    let three = Ty::apply(TypeCtor::Adt(AdtId::EnumId(RESULT)), vec![int_ty(), int_ty(), int_ty()]);
    let (db, infer) = tail_function(three, int_ty());
    assert!(run(&db, infer).is_empty());
    // another enum, a struct, a type that is no application
    let other = Ty::apply(TypeCtor::Adt(AdtId::EnumId(EnumId(1))), vec![int_ty(), int_ty()]);
    let (db, infer) = tail_function(other, int_ty());
    assert!(run(&db, infer).is_empty());
    let structure = Ty::apply(TypeCtor::Adt(AdtId::StructId(StructId(0))), vec![int_ty(), int_ty()]);
    let (db, infer) = tail_function(structure, int_ty());
    assert!(run(&db, infer).is_empty());
    let (db, infer) = tail_function(Ty::Unknown, Ty::Unknown);
    assert!(run(&db, infer).is_empty());
}

#[test]
fn result_that_does_not_resolve_reports_nothing() {
    let (mut db, infer) = tail_function(result_ty(int_ty(), Ty::Placeholder(0)), int_ty());
    db.functions[0].std_result_enum = None;
    assert!(run(&db, infer).is_empty());
    // the name resolves to another enum than the one that is expected
    let (mut db, infer) = tail_function(result_ty(int_ty(), Ty::Placeholder(0)), int_ty());
    db.functions[0].std_result_enum = Some(EnumId(3));
    assert!(run(&db, infer).is_empty());
}

#[test]
fn mismatch_is_looked_up_for_the_block_and_not_for_the_tail() {
    let (db, _) = tail_function(Ty::Unknown, Ty::Unknown);
    let mut infer = InferenceResult::new();
    infer.type_mismatches.insert(
        0,
        TypeMismatch { expected: result_ty(int_ty(), Ty::Placeholder(0)), actual: int_ty() },
    );
    assert!(run(&db, infer).is_empty());
}

#[test]
fn tail_without_a_place_in_the_source_is_dropped() {
    let (mut db, infer) = tail_function(result_ty(int_ty(), Ty::Placeholder(0)), int_ty());
    db.functions[0].source_map = BodySourceMap::new();
    assert!(run(&db, infer).is_empty());
    let (mut db, infer) = tail_function(result_ty(int_ty(), Ty::Placeholder(0)), int_ty());
    db.functions[0]
        .source_map
        .expr_map_back
        .insert(0, InFile::new(FILE, Either::Right(ptr(SyntaxKind::RECORD_FIELD, 0, 1))));
    assert!(run(&db, infer).is_empty());
}

#[test]
fn body_without_a_tail_is_not_checked_for_wrapping() {
    let mut f = function(vec![Expr::Other, Expr::Block { statements: vec![ExprId(0)], tail: None }], vec![], 1);
    f.source_map.expr_map_back.insert(0, expr_source(33, ExprSyntax::Other));
    let db = database(vec![f]);
    let mut infer = InferenceResult::new();
    infer.type_mismatches.insert(
        1,
        TypeMismatch { expected: result_ty(int_ty(), Ty::Placeholder(0)), actual: int_ty() },
    );
    assert!(run(&db, infer).is_empty());
    // a body that is no block
    let (mut db, infer) = tail_function(result_ty(int_ty(), Ty::Placeholder(0)), int_ty());
    db.functions[0].body.body_expr = ExprId(0);
    assert!(run(&db, infer).is_empty());
    // a body whose expression the arena lacks
    let (mut db, infer) = tail_function(result_ty(int_ty(), Ty::Placeholder(0)), int_ty());
    db.functions[0].body.body_expr = ExprId(9);
    assert!(run(&db, infer).is_empty());
}

#[test]
fn findings_come_in_the_order_of_the_arena_and_the_tail_comes_last() {
    // 0: b, 1: match b { true => .. }, 2: Point { x: .. }, 3: Quad { .. },
    // 4: { ..; tail 2 }
    let mut f = function(
        vec![
            Expr::Other,
            Expr::Match { expr: ExprId(0), arms: vec![arm(0, 0)] },
            Expr::RecordLit { fields: vec![lit_field("x", 0)], spread: None },
            Expr::RecordLit { fields: vec![lit_field("a", 0), lit_field("d", 0)], spread: None },
            Expr::Block { statements: vec![ExprId(1), ExprId(3)], tail: Some(ExprId(2)) },
        ],
        vec![Pat::Other],
        4,
    );
    f.source_map.expr_map_back.insert(1, match_source(10));
    f.source_map.expr_map_back.insert(2, record_lit_source(90));
    f.source_map.expr_map_back.insert(3, record_lit_source(60));
    let db = database(vec![f]);
    let mut infer = InferenceResult::new();
    infer.type_of_expr.insert(0, bool_ty());
    infer.type_of_pat.insert(0, bool_ty());
    infer.variant_resolutions_for_exprs.insert(2, VariantId::StructId(POINT));
    infer.variant_resolutions_for_exprs.insert(3, VariantId::StructId(QUAD));
    infer.type_mismatches.insert(
        4,
        TypeMismatch { expected: result_ty(int_ty(), Ty::Unknown), actual: int_ty() },
    );
    let oracle = bool_oracle(vec![Some(true)]);
    let mut sink = DiagnosticSink::new();
    sink.push(Diagnostic::MissingOkInTailExpr(hir_core::diagnostics::MissingOkInTailExpr {
        file: FileId(0),
        expr: ptr(SyntaxKind::LITERAL, 0, 0),
    }));
    let mut validator = ExprValidator::new(FunctionId(0), Arc::new(infer), &mut sink);
    validator.validate_body(&db, &oracle);
    let found = sink.as_slice();
    assert_eq!(found.len(), 5);
    assert!(matches!(&found[0], Diagnostic::MissingOkInTailExpr(d) if d.file == FileId(0)));
    assert!(matches!(&found[1], Diagnostic::MissingMatchArms(_)));
    assert!(matches!(&found[2], Diagnostic::MissingFields(d) if d.missed_fields == vec![Name::new_text("y")]));
    assert!(matches!(
        &found[3],
        Diagnostic::MissingFields(d)
            if d.missed_fields == vec![Name::new_text("b"), Name::new_text("c")]
    ));
    assert!(matches!(
        &found[4],
        Diagnostic::MissingOkInTailExpr(d) if d.expr == ptr(SyntaxKind::RECORD_LIT, 90, 104)
    ));
}

#[test]
fn a_failing_check_does_not_silence_the_others() {
    // the match cannot be judged, the literal still is
    let mut f = function(
        vec![
            Expr::Other,
            Expr::Match { expr: ExprId(0), arms: vec![arm(0, 0)] },
            Expr::RecordLit { fields: vec![], spread: None },
        ],
        vec![Pat::Other],
        2,
    );
    f.source_map.expr_map_back.insert(2, record_lit_source(0));
    let db = database(vec![f]);
    let mut infer = InferenceResult::new();
    infer.variant_resolutions_for_exprs.insert(2, VariantId::StructId(POINT));
    let found = run(&db, infer);
    assert_eq!(found.len(), 1);
    assert!(found[0].contains("MissingFields"));
}

#[test]
fn types_are_compared_by_value() {
    assert!(bool_ty().same(&bool_ty()));
    assert!(!bool_ty().same(&int_ty()));
    assert!(ref_ty(bool_ty()).same(&ref_ty(bool_ty())));
    assert!(!ref_ty(bool_ty()).same(&ref_ty(int_ty())));
    assert!(!ref_ty(bool_ty()).same(&Ty::apply(TypeCtor::Ref(Mutability::Mut), vec![bool_ty()])));
    assert!(!result_ty(int_ty(), bool_ty()).same(&result_ty(int_ty(), int_ty())));
    assert!(!Ty::apply(TypeCtor::Tuple { cardinality: 1 }, vec![int_ty()])
        .same(&Ty::apply(TypeCtor::Tuple { cardinality: 1 }, vec![int_ty(), int_ty()])));
    assert!(Ty::Unknown.same(&Ty::Unknown));
    assert!(!Ty::Unknown.same(&bool_ty()));
    assert!(Ty::Placeholder(1).same(&Ty::Placeholder(1)));
    assert!(!Ty::Placeholder(1).same(&Ty::Placeholder(2)));
    assert!(!Ty::Placeholder(1).same(&Ty::Infer(1)));
    assert!(Ty::Infer(3) == Ty::Infer(3));
    assert!(result_ty(int_ty(), ref_ty(bool_ty())) == result_ty(int_ty(), ref_ty(bool_ty())));
}

#[test]
fn a_reference_refers_to_its_one_parameter() {
    match ref_ty(int_ty()).as_reference() {
        Some((inner, Mutability::Shared)) => assert!(inner.same(&int_ty())),
        other => panic!("unexpected {:?}", other),
    }
    let exclusive = Ty::apply(TypeCtor::Ref(Mutability::Mut), vec![bool_ty()]);
    assert!(matches!(exclusive.as_reference(), Some((_, Mutability::Mut))));
    assert!(int_ty().as_reference().is_none());
    assert!(Ty::Unknown.as_reference().is_none());
    assert!(Ty::apply(TypeCtor::RawPtr(Mutability::Shared), vec![int_ty()]).as_reference().is_none());
    // a reference that is not applied to exactly one type refers to nothing
    assert!(Ty::apply(TypeCtor::Ref(Mutability::Shared), vec![]).as_reference().is_none());
    assert!(Ty::apply(TypeCtor::Ref(Mutability::Shared), vec![int_ty(), int_ty()])
        .as_reference()
        .is_none());
}

#[test]
fn database_finds_the_fields_of_every_kind_of_definition() {
    let db = database(vec![]);
    assert_eq!(db.variant_data(VariantId::StructId(POINT)).unwrap().fields().len(), 2);
    assert_eq!(db.variant_data(VariantId::StructId(QUAD)).unwrap().fields().len(), 4);
    assert_eq!(db.variant_data(VariantId::UnionId(BITS)).unwrap().fields().len(), 2);
    let ok = EnumVariantId { parent: RESULT, local_id: LocalEnumVariantId(0) };
    assert_eq!(db.variant_data(VariantId::EnumVariantId(ok)).unwrap().fields().len(), 0);
    assert!(db.variant_data(VariantId::StructId(StructId(2))).is_none());
    assert!(db.variant_data(VariantId::UnionId(UnionId(1))).is_none());
    let none = EnumVariantId { parent: RESULT, local_id: LocalEnumVariantId(2) };
    assert!(db.variant_data(VariantId::EnumVariantId(none)).is_none());
    let none = EnumVariantId { parent: EnumId(1), local_id: LocalEnumVariantId(0) };
    assert!(db.variant_data(VariantId::EnumVariantId(none)).is_none());
    assert!(db.function(FunctionId(0)).is_none());
    assert!(HirDatabase::new().function(FunctionId(0)).is_none());
}

#[test]
fn source_map_answers_for_synthetic_expressions() {
    let mut map = BodySourceMap::new();
    assert_eq!(map.expr_syntax(ExprId(0)).err(), Some(SyntheticSyntax));
    map.expr_map_back.insert(2, match_source(0));
    let found = map.expr_syntax(ExprId(2)).unwrap();
    assert_eq!(found.file_id, FILE);
    assert!(found.value.is_left());
    assert_eq!(map.expr_syntax(ExprId(1)).err(), Some(SyntheticSyntax));
}

#[test]
fn pat_stacks_are_heads() {
    assert_eq!(PatStack::from_wild().head, PatIdOrWild::Wild);
    assert_eq!(PatStack::from_pattern(PatId(4)).head, PatIdOrWild::PatId(PatId(4)));
    let mut matrix = Matrix::empty();
    assert!(matrix.rows.is_empty());
    matrix.push(PatStack::from_pattern(PatId(1)));
    matrix.push(PatStack::from_wild());
    assert_eq!(matrix.rows, vec![PatStack::from_pattern(PatId(1)), PatStack::from_wild()]);
}
