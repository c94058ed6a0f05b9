use hir_core::syntax::algo::InsertPosition;
use hir_core::syntax::ast::{
    child, Alias, AstNode, BinExpr, Block, FnDef, ImplItem, ItemList, MatchArm, MatchArmList, Pat,
    Path, PathSegment, RecordField, RecordFieldList, TypeArgList, TypeParam, UseItem, UseTree,
    UseTreeList,
};
use hir_core::syntax::edit::{remove_attrs_and_docs, AstNodeEdit, IndentLevel};
use hir_core::syntax::green::{GreenElement, GreenNode};
use hir_core::syntax::kind::SyntaxKind;
use hir_core::syntax::make;
use hir_core::syntax::node::SyntaxNode;

#[test]
fn test_increase_indent() {
    let arm_list = {
        let pat = Pat::cast(make::placeholder_pat().syntax().clone()).unwrap();
        let arm = make::match_arm(vec![pat], make::expr_unit());
        make::match_arm_list(vec![arm.clone(), arm])
    };
    assert_eq!(
        arm_list.syntax().to_string(),
        "{
    _ => (),
    _ => (),
}"
    );
    let indented = IndentLevel(2).increase_indent(arm_list);
    assert_eq!(
        indented.syntax().to_string(),
        "{
            _ => (),
            _ => (),
        }"
    );
}

fn tok(kind: SyntaxKind, text: &str) -> GreenElement {
    GreenElement::token(kind, text)
}

fn ws(text: &str) -> GreenElement {
    tok(SyntaxKind::WHITESPACE, text)
}

fn ident(text: &str) -> GreenElement {
    tok(SyntaxKind::IDENT, text)
}

fn punct(kind: SyntaxKind) -> GreenElement {
    make::token(kind)
}

fn node(kind: SyntaxKind, children: Vec<GreenElement>) -> GreenElement {
    GreenElement::node(GreenNode::new(kind, children))
}

fn root(element: GreenElement) -> SyntaxNode {
    let file = SyntaxNode::new_root(GreenNode::new(SyntaxKind::SOURCE_FILE, vec![element]));
    file.child(0).unwrap()
}

/// The node `element` as `N`, in a file of its own.
fn ast<N: AstNode>(element: GreenElement) -> N {
    N::cast(root(element)).unwrap()
}

/// The node that stands at `path` in a file that holds `elements`.
fn ast_at<N: AstNode>(elements: Vec<GreenElement>, path: &[usize]) -> N {
    let mut at = SyntaxNode::new_root(GreenNode::new(SyntaxKind::SOURCE_FILE, elements));
    for &step in path {
        at = at.child(step).unwrap();
    }
    N::cast(at).unwrap()
}

fn file_text<N: AstNode>(node: &N) -> String {
    let mut at = node.syntax().clone();
    while let Some(parent) = at.parent() {
        at = parent;
    }
    at.to_string()
}

fn name(text: &str) -> GreenElement {
    node(SyntaxKind::NAME, vec![ident(text)])
}

fn name_ref(text: &str) -> GreenElement {
    node(SyntaxKind::NAME_REF, vec![ident(text)])
}

fn literal(text: &str) -> GreenElement {
    node(SyntaxKind::LITERAL, vec![tok(SyntaxKind::INT_NUMBER, text)])
}

fn block() -> GreenElement {
    node(SyntaxKind::BLOCK, vec![punct(SyntaxKind::L_CURLY), punct(SyntaxKind::R_CURLY)])
}

fn block_expr() -> GreenElement {
    node(SyntaxKind::BLOCK_EXPR, vec![block()])
}

fn params() -> GreenElement {
    node(SyntaxKind::PARAM_LIST, vec![punct(SyntaxKind::L_PAREN), punct(SyntaxKind::R_PAREN)])
}

/// `fn <name>() {}`
fn fn_def(text: &str) -> GreenElement {
    node(
        SyntaxKind::FN_DEF,
        vec![tok(SyntaxKind::FN_KW, "fn"), ws(" "), name(text), params(), ws(" "), block_expr()],
    )
}

fn segment(text: &str) -> GreenElement {
    node(SyntaxKind::PATH_SEGMENT, vec![name_ref(text)])
}

/// `a::b::c` for `["a", "b", "c"]`
fn path(segments: &[&str]) -> GreenElement {
    let mut res = node(SyntaxKind::PATH, vec![segment(segments[0])]);
    for s in &segments[1..] {
        res = node(SyntaxKind::PATH, vec![res, punct(SyntaxKind::COLONCOLON), segment(s)]);
    }
    res
}

fn use_tree(children: Vec<GreenElement>) -> GreenElement {
    node(SyntaxKind::USE_TREE, children)
}

/// `{a, b}` for the use trees `a` and `b`
fn use_tree_list(trees: Vec<GreenElement>) -> GreenElement {
    let mut children = vec![punct(SyntaxKind::L_CURLY)];
    for (i, tree) in trees.into_iter().enumerate() {
        if i > 0 {
            children.push(punct(SyntaxKind::COMMA));
            children.push(ws(" "));
        }
        children.push(tree);
    }
    children.push(punct(SyntaxKind::R_CURLY));
    node(SyntaxKind::USE_TREE_LIST, children)
}

/// `use <tree>;`
fn use_item(tree: GreenElement) -> GreenElement {
    node(
        SyntaxKind::USE_ITEM,
        vec![tok(SyntaxKind::USE_KW, "use"), ws(" "), tree, punct(SyntaxKind::SEMI)],
    )
}

/// `<name>: <value>`
fn record_field(text: &str, value: &str) -> GreenElement {
    node(
        SyntaxKind::RECORD_FIELD,
        vec![name_ref(text), punct(SyntaxKind::COLON), ws(" "), literal(value)],
    )
}

fn record_field_list(children: Vec<GreenElement>) -> GreenElement {
    node(SyntaxKind::RECORD_FIELD_LIST, children)
}

fn arm(pat: GreenElement, value: &str) -> GreenElement {
    node(
        SyntaxKind::MATCH_ARM,
        vec![pat, ws(" "), punct(SyntaxKind::FAT_ARROW), ws(" "), literal(value)],
    )
}

fn placeholder() -> GreenElement {
    node(SyntaxKind::PLACEHOLDER_PAT, vec![punct(SyntaxKind::UNDERSCORE)])
}

fn bind(text: &str) -> GreenElement {
    node(SyntaxKind::BIND_PAT, vec![name(text)])
}

fn made_arm() -> MatchArm {
    make::match_arm(
        vec![Pat::cast(make::placeholder_pat().syntax().clone()).unwrap()],
        make::expr_unit(),
    )
}

#[test]
fn test_decrease_indent() {
    let list = make::match_arm_list(vec![made_arm(), made_arm()]);
    let deep = IndentLevel(2).increase_indent(list);
    let back = IndentLevel(2).decrease_indent(deep.clone());
    assert_eq!(back.syntax().to_string(), "{\n    _ => (),\n    _ => (),\n}");
    let once = IndentLevel(1).decrease_indent(deep.clone());
    assert_eq!(once.syntax().to_string(), "{\n        _ => (),\n        _ => (),\n    }");
    // a line that is not as deep as the level stays as it is
    let over = IndentLevel(3).decrease_indent(deep);
    assert_eq!(over.syntax().to_string(), "{\n_ => (),\n_ => (),\n        }");
}

#[test]
fn indent_level_is_made_from_a_number() {
    let level: IndentLevel = 3u8.into();
    assert_eq!(level.0, 3);
    assert_eq!(IndentLevel::from(0).0, 0);
    let list = make::match_arm_list(vec![made_arm()]);
    assert_eq!(
        IndentLevel::from(1).increase_indent(list).syntax().to_string(),
        "{\n        _ => (),\n    }"
    );
}

#[test]
fn indent_level_zero_changes_nothing() {
    let list = make::match_arm_list(vec![made_arm()]);
    let text = list.syntax().to_string();
    assert_eq!(IndentLevel(0).increase_indent(list.clone()).syntax().to_string(), text);
    assert_eq!(IndentLevel(0).decrease_indent(list).syntax().to_string(), text);
}

#[test]
fn only_blank_space_with_a_line_break_is_shifted() {
    let list: ItemList = ast(node(
        SyntaxKind::ITEM_LIST,
        vec![
            punct(SyntaxKind::L_CURLY),
            ws(" "),
            tok(SyntaxKind::COMMENT, "// a\n"),
            ws("\n\n  "),
            node(SyntaxKind::FN_DEF, vec![tok(SyntaxKind::STRING, "\"\n\""), ws("  \n")]),
            punct(SyntaxKind::R_CURLY),
        ],
    ));
    assert_eq!(
        IndentLevel(1).increase_indent(list.clone()).syntax().to_string(),
        "{ // a\n\n\n      \"\n\"  \n    }"
    );
    assert_eq!(
        IndentLevel(255).increase_indent(list).syntax().to_string(),
        format!("{{ // a\n\n\n  {0}\"\n\"  \n{0}}}", " ".repeat(1020))
    );
}

#[test]
fn a_shift_keeps_what_is_around_the_node() {
    let list: MatchArmList = ast_at(
        vec![
            ws("\n"),
            node(
                SyntaxKind::MATCH_EXPR,
                vec![
                    tok(SyntaxKind::MATCH_KW, "match"),
                    ws("\n"),
                    node(
                        SyntaxKind::MATCH_ARM_LIST,
                        vec![punct(SyntaxKind::L_CURLY), ws("\n"), punct(SyntaxKind::R_CURLY)],
                    ),
                ],
            ),
            ws("\n"),
        ],
        &[1, 2],
    );
    let shifted = IndentLevel(1).increase_indent(list);
    assert_eq!(shifted.syntax().to_string(), "{\n    }");
    assert_eq!(file_text(&shifted), "\nmatch\n{\n    }\n");
}

#[test]
fn replace_op_exchanges_the_operator() {
    let expr: BinExpr = ast(node(
        SyntaxKind::BIN_EXPR,
        vec![literal("1"), ws(" "), punct(SyntaxKind::PLUS), ws(" "), literal("2")],
    ));
    assert_eq!(expr.op_index(), Some(2));
    assert_eq!(expr.replace_op(SyntaxKind::MINUS).unwrap().syntax().to_string(), "1 - 2");
    assert_eq!(expr.replace_op(SyntaxKind::SHLEQ).unwrap().syntax().to_string(), "1 <<= 2");
    assert_eq!(expr.syntax().to_string(), "1 + 2");
    // the first operator is the one
    let expr: BinExpr = ast(node(
        SyntaxKind::BIN_EXPR,
        vec![punct(SyntaxKind::EXCL), literal("1"), punct(SyntaxKind::STAR), punct(SyntaxKind::PLUS)],
    ));
    assert_eq!(expr.replace_op(SyntaxKind::EQEQ).unwrap().syntax().to_string(), "!1==+");
}

#[test]
fn replace_op_needs_an_operator() {
    let expr: BinExpr = ast(node(SyntaxKind::BIN_EXPR, vec![literal("1"), ws(" "), literal("2")]));
    assert!(expr.replace_op(SyntaxKind::MINUS).is_none());
    assert_eq!(expr.op_index(), None);
    // an operator inside an operand is not the operator of the expression
    let inner = node(SyntaxKind::BIN_EXPR, vec![literal("1"), punct(SyntaxKind::PLUS), literal("2")]);
    let expr: BinExpr = ast(node(SyntaxKind::BIN_EXPR, vec![inner]));
    assert!(expr.replace_op(SyntaxKind::MINUS).is_none());
}

#[test]
fn with_body_exchanges_the_body() {
    let new_body = || -> Block {
        ast(node(
            SyntaxKind::BLOCK,
            vec![punct(SyntaxKind::L_CURLY), ws(" "), literal("1"), ws(" "), punct(SyntaxKind::R_CURLY)],
        ))
    };
    let def: FnDef = ast(fn_def("f"));
    assert_eq!(def.with_body(new_body()).syntax().to_string(), "fn f() { 1 }");
    // a semicolon gives way to a blank and the body
    let def: FnDef = ast(node(
        SyntaxKind::FN_DEF,
        vec![tok(SyntaxKind::FN_KW, "fn"), ws(" "), name("f"), params(), punct(SyntaxKind::SEMI)],
    ));
    assert_eq!(def.syntax().to_string(), "fn f();");
    assert_eq!(def.with_body(new_body()).syntax().to_string(), "fn f() { 1 }");
    // without either, the body goes to the end
    let def: FnDef = ast(node(
        SyntaxKind::FN_DEF,
        vec![tok(SyntaxKind::FN_KW, "fn"), ws(" "), name("f"), params()],
    ));
    assert_eq!(def.with_body(new_body()).syntax().to_string(), "fn f() { 1 }");
}

fn impl_item(text: &str) -> ImplItem {
    ast(fn_def(text))
}

#[test]
fn append_items_opens_a_list_on_one_line() {
    let list: ItemList =
        ast(node(SyntaxKind::ITEM_LIST, vec![punct(SyntaxKind::L_CURLY), punct(SyntaxKind::R_CURLY)]));
    assert_eq!(list.append_items(vec![]).syntax().to_string(), "{\n}");
    assert_eq!(list.append_items(vec![impl_item("a")]).syntax().to_string(), "{\n    fn a() {}\n}");
    assert_eq!(
        list.append_items(vec![impl_item("a"), impl_item("b")]).syntax().to_string(),
        "{\n    fn a() {}\n    fn b() {}\n}"
    );
    // blank space without a line break after the brace gives way
    let list: ItemList = ast(node(
        SyntaxKind::ITEM_LIST,
        vec![punct(SyntaxKind::L_CURLY), ws("  "), punct(SyntaxKind::R_CURLY)],
    ));
    assert_eq!(list.append_items(vec![impl_item("a")]).syntax().to_string(), "{\n    fn a() {}\n}");
}

#[test]
fn append_item_keeps_the_indentation_of_the_last_item() {
    let list: ItemList = ast(node(
        SyntaxKind::ITEM_LIST,
        vec![
            punct(SyntaxKind::L_CURLY),
            ws("\n  "),
            fn_def("a"),
            ws("\n"),
            punct(SyntaxKind::R_CURLY),
        ],
    ));
    assert_eq!(list.append_item(impl_item("b")).syntax().to_string(), "{\n  fn a() {}\n  fn b() {}\n}");
    assert_eq!(
        list.append_items(vec![impl_item("b"), impl_item("c")]).syntax().to_string(),
        "{\n  fn a() {}\n  fn b() {}\n  fn c() {}\n}"
    );
}

#[test]
fn append_item_to_an_empty_list_goes_four_blanks_deeper_than_the_list() {
    let list: ItemList = ast_at(
        vec![
            tok(SyntaxKind::IMPL_KW, "impl"),
            ws("\n  "),
            node(
                SyntaxKind::ITEM_LIST,
                vec![punct(SyntaxKind::L_CURLY), ws("\n  "), punct(SyntaxKind::R_CURLY)],
            ),
        ],
        &[2],
    );
    let new = list.append_item(impl_item("a"));
    assert_eq!(new.syntax().to_string(), "{\n      fn a() {}\n  }");
    assert_eq!(file_text(&new), "impl\n  {\n      fn a() {}\n  }");
    // append_items finds the line break and leaves the list as it is
    assert_eq!(list.append_items(vec![impl_item("a")]).syntax().to_string(), "{\n      fn a() {}\n  }");
}

#[test]
fn append_item_needs_an_item_or_a_brace() {
    let list: ItemList = ast(node(SyntaxKind::ITEM_LIST, vec![ws(" ")]));
    assert_eq!(list.append_item(impl_item("a")).syntax().to_string(), " ");
    assert_eq!(list.append_items(vec![impl_item("a")]).syntax().to_string(), " ");
}

fn field(text: &str, value: &str) -> RecordField {
    ast(record_field(text, value))
}

fn one_line_fields() -> RecordFieldList {
    ast(record_field_list(vec![
        punct(SyntaxKind::L_CURLY),
        ws(" "),
        record_field("x", "1"),
        ws(" "),
        punct(SyntaxKind::R_CURLY),
    ]))
}

fn multiline_fields() -> RecordFieldList {
    ast_at(
        vec![
            ws("\n    "),
            node(
                SyntaxKind::RECORD_LIT,
                vec![
                    path(&["S"]),
                    ws(" "),
                    record_field_list(vec![
                        punct(SyntaxKind::L_CURLY),
                        ws("\n        "),
                        record_field("x", "1"),
                        punct(SyntaxKind::COMMA),
                        ws("\n        "),
                        record_field("y", "2"),
                        punct(SyntaxKind::COMMA),
                        ws("\n    "),
                        punct(SyntaxKind::R_CURLY),
                    ]),
                ],
            ),
        ],
        &[1, 2],
    )
}

#[test]
fn append_field_to_a_list_on_one_line() {
    let list = one_line_fields();
    assert_eq!(list.syntax().to_string(), "{ x: 1 }");
    assert_eq!(list.append_field(&field("y", "2")).syntax().to_string(), "{ x: 1, y: 2 }");
    // a comma that is there is not doubled
    let list: RecordFieldList = ast(record_field_list(vec![
        punct(SyntaxKind::L_CURLY),
        ws(" "),
        record_field("x", "1"),
        punct(SyntaxKind::COMMA),
        ws(" "),
        punct(SyntaxKind::R_CURLY),
    ]));
    assert_eq!(list.append_field(&field("y", "2")).syntax().to_string(), "{ x: 1, y: 2 }");
    // an empty list
    let list: RecordFieldList =
        ast(record_field_list(vec![punct(SyntaxKind::L_CURLY), punct(SyntaxKind::R_CURLY)]));
    assert_eq!(list.append_field(&field("y", "2")).syntax().to_string(), "{ y: 2}");
    // no brace, no field: nowhere to go
    let list: RecordFieldList = ast(record_field_list(vec![ws(" ")]));
    assert_eq!(list.append_field(&field("y", "2")).syntax().to_string(), " ");
}

#[test]
fn append_field_to_a_list_over_lines() {
    let list = multiline_fields();
    let new = list.append_field(&field("z", "3"));
    assert_eq!(
        new.syntax().to_string(),
        "{\n        x: 1,\n        y: 2,\n        z: 3,\n    }"
    );
    assert_eq!(
        file_text(&new),
        "\n    S {\n        x: 1,\n        y: 2,\n        z: 3,\n    }"
    );
}

#[test]
fn insert_field_at_every_position() {
    let list = one_line_fields();
    let y = field("y", "2");
    assert_eq!(list.insert_field(InsertPosition::First, &y).syntax().to_string(), "{ y: 2, x: 1 }");
    assert_eq!(list.insert_field(InsertPosition::Last, &y).syntax().to_string(), "{ x: 1, y: 2 }");
    let x: RecordField = child(list.syntax()).unwrap();
    assert_eq!(
        list.insert_field(InsertPosition::After(&x), &y).syntax().to_string(),
        "{ x: 1, y: 2, }"
    );
    assert_eq!(
        list.insert_field(InsertPosition::Before(&x), &y).syntax().to_string(),
        "{  y: 2,x: 1 }"
    );

    let list = multiline_fields();
    let x: RecordField = child(list.syntax()).unwrap();
    assert_eq!(
        list.insert_field(InsertPosition::After(&x), &y).syntax().to_string(),
        "{\n        x: 1,\n        y: 2,\n        y: 2,\n    }"
    );
    assert_eq!(
        list.insert_field(InsertPosition::First, &y).syntax().to_string(),
        "{\n        y: 2,\n        x: 1,\n        y: 2,\n    }"
    );
}

#[test]
fn remove_bounds_takes_the_colon_and_the_bounds() {
    let bounds = node(
        SyntaxKind::TYPE_BOUND_LIST,
        vec![
            node(SyntaxKind::TYPE_BOUND, vec![ident("Clone")]),
            ws(" "),
            punct(SyntaxKind::PLUS),
            ws(" "),
            node(SyntaxKind::TYPE_BOUND, vec![ident("Copy")]),
        ],
    );
    let param: TypeParam =
        ast(node(SyntaxKind::TYPE_PARAM, vec![name("T"), punct(SyntaxKind::COLON), ws(" "), bounds]));
    assert_eq!(param.syntax().to_string(), "T: Clone + Copy");
    assert_eq!(param.remove_bounds().syntax().to_string(), "T");
    // a colon without bounds
    let param: TypeParam =
        ast(node(SyntaxKind::TYPE_PARAM, vec![name("T"), punct(SyntaxKind::COLON), ws(" ")]));
    assert_eq!(param.remove_bounds().syntax().to_string(), "T ");
    // no colon: nothing to take
    let param: TypeParam = ast(node(SyntaxKind::TYPE_PARAM, vec![name("T")]));
    assert_eq!(param.remove_bounds().syntax().to_string(), "T");
}

#[test]
fn with_segment_exchanges_the_segment() {
    let new = || -> PathSegment { ast(segment("z")) };
    let p: Path = ast(path(&["a", "b"]));
    assert_eq!(p.with_segment(new()).syntax().to_string(), "a::z");
    let p: Path = ast(path(&["a"]));
    assert_eq!(p.with_segment(new()).syntax().to_string(), "z");
    let p: Path = ast(node(SyntaxKind::PATH, vec![punct(SyntaxKind::COLONCOLON)]));
    assert_eq!(p.with_segment(new()).syntax().to_string(), "::");
}

fn type_args(text: &str) -> TypeArgList {
    ast(node(
        SyntaxKind::TYPE_ARG_LIST,
        vec![
            punct(SyntaxKind::L_ANGLE),
            node(SyntaxKind::TYPE_ARG, vec![ident(text)]),
            punct(SyntaxKind::R_ANGLE),
        ],
    ))
}

#[test]
fn with_type_args_appends_or_exchanges() {
    let seg: PathSegment = ast(segment("Vec"));
    assert_eq!(seg.with_type_args(type_args("T")).syntax().to_string(), "Vec<T>");
    assert_eq!(seg.with_turbo_fish(type_args("T")).syntax().to_string(), "Vec::<T>");
    let with = seg.with_turbo_fish(type_args("T"));
    // type arguments that are there give way, and no `::` is added
    assert_eq!(with.with_type_args(type_args("U")).syntax().to_string(), "Vec::<U>");
    assert_eq!(with.with_turbo_fish(type_args("U")).syntax().to_string(), "Vec::<U>");
    assert_eq!(
        seg.with_type_args(type_args("T")).with_turbo_fish(type_args("U")).syntax().to_string(),
        "Vec<U>"
    );
}

#[test]
fn with_use_tree_exchanges_the_use_tree() {
    let item: UseItem = ast(use_item(use_tree(vec![path(&["a", "b"])])));
    assert_eq!(item.syntax().to_string(), "use a::b;");
    let new: UseTree = ast(use_tree(vec![path(&["c"])]));
    assert_eq!(item.with_use_tree(new.clone()).syntax().to_string(), "use c;");
    let item: UseItem =
        ast(node(SyntaxKind::USE_ITEM, vec![tok(SyntaxKind::USE_KW, "use"), punct(SyntaxKind::SEMI)]));
    assert_eq!(item.with_use_tree(new).syntax().to_string(), "use;");
}

#[test]
fn with_path_and_with_use_tree_list_exchange_their_part() {
    let list = || use_tree_list(vec![use_tree(vec![path(&["x"])]), use_tree(vec![path(&["y"])])]);
    let tree: UseTree = ast(use_tree(vec![path(&["a"]), punct(SyntaxKind::COLONCOLON), list()]));
    assert_eq!(tree.syntax().to_string(), "a::{x, y}");
    let new_path: Path = ast(path(&["b", "c"]));
    assert_eq!(tree.with_path(new_path.clone()).syntax().to_string(), "b::c::{x, y}");
    let new_list: UseTreeList = ast(use_tree_list(vec![use_tree(vec![path(&["z"])])]));
    assert_eq!(tree.with_use_tree_list(new_list.clone()).syntax().to_string(), "a::{z}");
    // a use tree without the part stays as it is
    let bare: UseTree = ast(use_tree(vec![punct(SyntaxKind::STAR)]));
    assert_eq!(bare.with_path(new_path).syntax().to_string(), "*");
    assert_eq!(bare.with_use_tree_list(new_list).syntax().to_string(), "*");
}

#[test]
fn split_prefix_nests_the_rest_of_the_path() {
    let tree: UseTree = ast(use_tree(vec![path(&["a", "b", "c"])]));
    let whole: Path = child(tree.syntax()).unwrap();
    let ab: Path = child(whole.syntax()).unwrap();
    let a: Path = child(ab.syntax()).unwrap();
    assert_eq!(a.syntax().to_string(), "a");
    assert_eq!(tree.split_prefix(&a).syntax().to_string(), "a::{b::c}");
    assert_eq!(tree.split_prefix(&ab).syntax().to_string(), "a::b::{c}");
    // after the whole path nothing is left to nest
    assert_eq!(tree.split_prefix(&whole).syntax().to_string(), "a::b::c");
    assert_eq!(a.parent_path().unwrap().syntax().to_string(), "a::b");
    assert!(whole.parent_path().is_none());
}

#[test]
fn split_prefix_keeps_list_star_and_alias() {
    let list = use_tree_list(vec![use_tree(vec![path(&["x"])]), use_tree(vec![path(&["y"])])]);
    let tree: UseTree = ast(use_tree(vec![path(&["a", "b"]), punct(SyntaxKind::COLONCOLON), list]));
    let a: Path = child(child::<Path>(tree.syntax()).unwrap().syntax()).unwrap();
    assert_eq!(tree.split_prefix(&a).syntax().to_string(), "a::{b::{x, y}}");

    let tree: UseTree = ast(use_tree(vec![
        path(&["a", "b"]),
        punct(SyntaxKind::COLONCOLON),
        punct(SyntaxKind::STAR),
    ]));
    let a: Path = child(child::<Path>(tree.syntax()).unwrap().syntax()).unwrap();
    assert_eq!(tree.split_prefix(&a).syntax().to_string(), "a::{b::*}");

    let alias = node(SyntaxKind::ALIAS, vec![tok(SyntaxKind::AS_KW, "as"), ws(" "), name("c")]);
    let tree: UseTree = ast(use_tree(vec![path(&["a", "b"]), ws(" "), alias]));
    assert!(child::<Alias>(tree.syntax()).is_some());
    let a: Path = child(child::<Path>(tree.syntax()).unwrap().syntax()).unwrap();
    assert_eq!(tree.split_prefix(&a).syntax().to_string(), "a::{b as c}");
}

#[test]
fn split_prefix_gives_up_on_a_path_without_segment() {
    let inner = node(SyntaxKind::PATH, vec![segment("a")]);
    let broken = node(SyntaxKind::PATH, vec![inner, punct(SyntaxKind::COLONCOLON)]);
    let tree: UseTree = ast(use_tree(vec![broken]));
    let a: Path = child(child::<Path>(tree.syntax()).unwrap().syntax()).unwrap();
    assert_eq!(tree.split_prefix(&a).syntax().to_string(), "a::");
}

#[test]
fn removing_a_use_item_takes_its_line_break() {
    let file = SyntaxNode::new_root(GreenNode::new(
        SyntaxKind::SOURCE_FILE,
        vec![
            use_item(use_tree(vec![path(&["a"])])),
            ws("\n"),
            use_item(use_tree(vec![path(&["b"])])),
            ws("\n\n"),
            use_item(use_tree(vec![path(&["c"])])),
            ws("  \n"),
            use_item(use_tree(vec![path(&["d"])])),
        ],
    ));
    assert_eq!(file.to_string(), "use a;\nuse b;\n\nuse c;  \nuse d;");
    let item = |i: usize| UseItem::cast(file.child(i).unwrap()).unwrap();
    assert_eq!(item(0).remove().rewrite(&file).to_string(), "use b;\n\nuse c;  \nuse d;");
    assert_eq!(item(2).remove().rewrite(&file).to_string(), "use a;\n\nuse c;  \nuse d;");
    // blank space that does not start with a line break stays
    assert_eq!(item(4).remove().rewrite(&file).to_string(), "use a;\nuse b;\n\n  \nuse d;");
    // nothing follows the last item
    assert_eq!(item(6).remove().rewrite(&file).to_string(), "use a;\nuse b;\n\nuse c;  \n");
}

#[test]
fn removing_a_use_tree_takes_the_comma_on_one_side() {
    let tree = |text: &str| use_tree(vec![path(&[text])]);
    let list = root(use_tree_list(vec![tree("a"), tree("b"), tree("c")]));
    assert_eq!(list.to_string(), "{a, b, c}");
    let at = |i: usize| UseTree::cast(list.child(i).unwrap()).unwrap();
    assert_eq!(at(1).remove().rewrite(&list).to_string(), "{b, c}");
    assert_eq!(at(4).remove().rewrite(&list).to_string(), "{a, c}");
    assert_eq!(at(7).remove().rewrite(&list).to_string(), "{a, b}");
    let list = root(use_tree_list(vec![tree("a")]));
    let only = UseTree::cast(list.child(1).unwrap()).unwrap();
    assert_eq!(only.remove().rewrite(&list).to_string(), "{}");
    // a use tree that stands in no list
    let alone: UseTree = UseTree::cast(SyntaxNode::new_root(GreenNode::new(
        SyntaxKind::USE_TREE,
        vec![path(&["a"])],
    )))
    .unwrap();
    assert_eq!(alone.remove().rewrite(alone.syntax()).to_string(), "a");
}

#[test]
fn append_arms_opens_the_list() {
    let list: MatchArmList = ast(node(
        SyntaxKind::MATCH_ARM_LIST,
        vec![punct(SyntaxKind::L_CURLY), punct(SyntaxKind::R_CURLY)],
    ));
    assert_eq!(list.append_arms(vec![]).syntax().to_string(), "{\n}");
    assert_eq!(list.append_arms(vec![made_arm()]).syntax().to_string(), "{\n    _ => ()\n}");
    assert_eq!(
        list.append_arms(vec![made_arm(), made_arm()]).syntax().to_string(),
        "{\n    _ => ()\n    _ => ()\n}"
    );
    // blank space between the braces goes first
    let list: MatchArmList = ast(node(
        SyntaxKind::MATCH_ARM_LIST,
        vec![punct(SyntaxKind::L_CURLY), ws("\n\n"), ws("   "), punct(SyntaxKind::R_CURLY)],
    ));
    assert_eq!(list.strip_if_only_whitespace().syntax().to_string(), "{}");
    assert_eq!(list.append_arms(vec![made_arm()]).syntax().to_string(), "{\n    _ => ()\n}");
}

#[test]
fn append_arm_follows_the_indentation_of_the_match() {
    let list: MatchArmList = ast_at(
        vec![
            ws("\n    "),
            node(
                SyntaxKind::MATCH_EXPR,
                vec![
                    tok(SyntaxKind::MATCH_KW, "match"),
                    ws(" "),
                    literal("1"),
                    ws(" "),
                    node(
                        SyntaxKind::MATCH_ARM_LIST,
                        vec![
                            punct(SyntaxKind::L_CURLY),
                            ws("\n        "),
                            arm(bind("a"), "1"),
                            punct(SyntaxKind::COMMA),
                            ws("\n    "),
                            punct(SyntaxKind::R_CURLY),
                        ],
                    ),
                ],
            ),
        ],
        &[1, 4],
    );
    let new = list.append_arm(made_arm());
    assert_eq!(new.syntax().to_string(), "{\n        a => 1,\n        _ => ()\n    }");
    assert_eq!(file_text(&new), "\n    match 1 {\n        a => 1,\n        _ => ()\n    }");
    assert_eq!(
        list.append_arms(vec![made_arm()]).syntax().to_string(),
        "{\n        a => 1,\n        _ => ()\n    }"
    );
    // without a closing brace there is nowhere to go
    let list: MatchArmList = ast(node(SyntaxKind::MATCH_ARM_LIST, vec![punct(SyntaxKind::L_CURLY)]));
    assert_eq!(list.append_arm(made_arm()).syntax().to_string(), "{");
}

#[test]
fn strip_if_only_whitespace_leaves_everything_else() {
    let strip = |children: Vec<GreenElement>| -> String {
        let list: MatchArmList = ast(node(SyntaxKind::MATCH_ARM_LIST, children));
        list.strip_if_only_whitespace().syntax().to_string()
    };
    let (open, close) = (|| punct(SyntaxKind::L_CURLY), || punct(SyntaxKind::R_CURLY));
    assert_eq!(strip(vec![open(), close()]), "{}");
    assert_eq!(strip(vec![open(), ws(" "), close()]), "{}");
    assert_eq!(strip(vec![ws(" "), open(), ws(" "), ws("\n"), close(), ws(" ")]), " {} ");
    assert_eq!(strip(vec![open(), ws(" "), arm(placeholder(), "1"), close()]), "{ _ => 1}");
    assert_eq!(strip(vec![open(), ws(" "), tok(SyntaxKind::COMMENT, "/**/"), close()]), "{ /**/}");
    // without a closing brace everything after the opening one is inside
    assert_eq!(strip(vec![open(), ws(" ")]), "{");
    // without an opening brace nothing is inside
    assert_eq!(strip(vec![ws(" "), close()]), " }");
    assert_eq!(strip(vec![]), "");
}

fn arms(children: Vec<GreenElement>) -> MatchArmList {
    ast(node(SyntaxKind::MATCH_ARM_LIST, children))
}

#[test]
fn remove_placeholder_takes_the_arm_and_its_comma() {
    let list = arms(vec![
        punct(SyntaxKind::L_CURLY),
        ws("\n    "),
        arm(bind("a"), "1"),
        punct(SyntaxKind::COMMA),
        ws("\n    "),
        arm(placeholder(), "2"),
        punct(SyntaxKind::COMMA),
        ws("\n"),
        punct(SyntaxKind::R_CURLY),
    ]);
    assert_eq!(list.syntax().to_string(), "{\n    a => 1,\n    _ => 2,\n}");
    assert_eq!(list.remove_placeholder().syntax().to_string(), "{\n    a => 1,\n    \n}");
    // the comma may stand after blank space and comments
    let list = arms(vec![
        punct(SyntaxKind::L_CURLY),
        arm(placeholder(), "2"),
        ws(" "),
        tok(SyntaxKind::COMMENT, "/* c */"),
        punct(SyntaxKind::COMMA),
        punct(SyntaxKind::R_CURLY),
    ]);
    assert_eq!(list.remove_placeholder().syntax().to_string(), "{}");
    // what follows is no comma: the arm goes alone
    let list = arms(vec![
        punct(SyntaxKind::L_CURLY),
        arm(placeholder(), "2"),
        ws(" "),
        punct(SyntaxKind::R_CURLY),
    ]);
    assert_eq!(list.remove_placeholder().syntax().to_string(), "{ }");
    // nothing follows
    let list = arms(vec![punct(SyntaxKind::L_CURLY), arm(placeholder(), "2")]);
    assert_eq!(list.remove_placeholder().syntax().to_string(), "{");
}

#[test]
fn remove_placeholder_takes_the_first_and_only_that() {
    let list = arms(vec![
        arm(bind("a"), "1"),
        punct(SyntaxKind::COMMA),
        arm(placeholder(), "2"),
        punct(SyntaxKind::COMMA),
        arm(placeholder(), "3"),
        punct(SyntaxKind::COMMA),
    ]);
    assert_eq!(list.remove_placeholder().syntax().to_string(), "a => 1,_ => 3,");
    // without a placeholder the list stays
    let list = arms(vec![arm(bind("a"), "1"), punct(SyntaxKind::COMMA)]);
    assert_eq!(list.remove_placeholder().syntax().to_string(), "a => 1,");
    // the pattern of an arm is its first pattern
    let both = node(
        SyntaxKind::MATCH_ARM,
        vec![bind("a"), punct(SyntaxKind::PIPE), placeholder(), punct(SyntaxKind::FAT_ARROW), literal("1")],
    );
    let list = arms(vec![both]);
    assert_eq!(list.remove_placeholder().syntax().to_string(), "a|_=>1");
}

#[test]
fn remove_arm_takes_the_named_arm() {
    let list = arms(vec![
        arm(bind("a"), "1"),
        punct(SyntaxKind::COMMA),
        ws(" "),
        arm(bind("b"), "2"),
        punct(SyntaxKind::COMMA),
    ]);
    let b = MatchArm::cast(list.syntax().child(3).unwrap()).unwrap();
    assert_eq!(list.remove_arm(&b).syntax().to_string(), "a => 1, ");
    let a = MatchArm::cast(list.syntax().child(0).unwrap()).unwrap();
    assert_eq!(list.remove_arm(&a).syntax().to_string(), " b => 2,");
}

#[test]
fn remove_attrs_and_docs_takes_them_with_their_blank_space() {
    let attr = || node(SyntaxKind::ATTR, vec![punct(SyntaxKind::POUND), ident("[a]")]);
    let doc = || tok(SyntaxKind::COMMENT, "/// doc");
    let def: FnDef = ast(node(
        SyntaxKind::FN_DEF,
        vec![
            doc(),
            ws("\n"),
            attr(),
            ws("\n"),
            attr(),
            attr(),
            ws(" "),
            ws("  "),
            tok(SyntaxKind::FN_KW, "fn"),
            ws(" "),
            doc(),
            name("f"),
            params(),
            attr(),
        ],
    ));
    assert_eq!(def.syntax().to_string(), "/// doc\n#[a]\n#[a]#[a]   fn /// docf()#[a]");
    assert_eq!(remove_attrs_and_docs(&def).syntax().to_string(), "  fn f()");
    // what is inside the other children stays
    let def: FnDef = ast(node(
        SyntaxKind::FN_DEF,
        vec![attr(), node(SyntaxKind::BLOCK_EXPR, vec![attr(), doc()])],
    ));
    assert_eq!(remove_attrs_and_docs(&def).syntax().to_string(), "#[a]/// doc");
    let def: FnDef = ast(fn_def("f"));
    assert_eq!(remove_attrs_and_docs(&def).syntax().to_string(), "fn f() {}");
}

#[test]
fn every_view_can_exchange_its_children() {
    let list = arms(vec![
        punct(SyntaxKind::L_CURLY),
        arm(bind("a"), "1"),
        punct(SyntaxKind::COMMA),
        punct(SyntaxKind::R_CURLY),
    ]);
    let at = |i: usize| list.syntax().child_or_token(i).unwrap();
    let new = || vec![ws(" "), arm(bind("b"), "2")];
    assert_eq!(list.insert_children(InsertPosition::First, new()).syntax().to_string(), " b => 2{a => 1,}");
    assert_eq!(list.insert_children(InsertPosition::Last, new()).syntax().to_string(), "{a => 1,} b => 2");
    assert_eq!(
        list.insert_children(InsertPosition::After(at(2)), new()).syntax().to_string(),
        "{a => 1, b => 2}"
    );
    assert_eq!(
        list.insert_children(InsertPosition::Before(at(1)), new()).syntax().to_string(),
        "{ b => 2a => 1,}"
    );
    assert_eq!(list.replace_children(&at(1), &at(2), new()).syntax().to_string(), "{ b => 2}");
    assert_eq!(list.replace_children(&at(1), &at(1), vec![]).syntax().to_string(), "{,}");
    assert_eq!(list.replace_children(&at(0), &at(3), vec![]).syntax().to_string(), "");
}

#[test]
fn every_view_can_exchange_what_is_inside_it() {
    let tree: UseTree = ast(use_tree(vec![path(&["a", "b", "c"])]));
    let whole: Path = child(tree.syntax()).unwrap();
    let ab: Path = child(whole.syntax()).unwrap();
    let a: Path = child(ab.syntax()).unwrap();
    let x: Path = ast(path(&["x", "y"]));
    assert_eq!(tree.replace_descendant(a.clone(), x.clone()).syntax().to_string(), "x::y::b::c");
    assert_eq!(tree.replace_descendant(ab.clone(), x.clone()).syntax().to_string(), "x::y::c");
    assert_eq!(tree.replace_descendant(whole.clone(), x.clone()).syntax().to_string(), "x::y");
    // the outer of two nested places goes first, so the inner is not met
    assert_eq!(
        tree.replace_descendants(vec![(a.clone(), x.clone()), (ab.clone(), a.clone())])
            .syntax()
            .to_string(),
        "a::c"
    );
    assert_eq!(tree.replace_descendants(Vec::<(Path, Path)>::new()).syntax().to_string(), "a::b::c");
    // a view is not exchanged for itself: only what is inside it
    assert_eq!(whole.replace_descendant(whole.clone(), x).syntax().to_string(), "a::b::c");
}
