use hir_core::syntax::algo::{
    find_kind, find_last_node, find_node, find_token, insert_children, replace_children,
    InsertPosition,
};
use hir_core::syntax::ast::{child, find_child, find_last_child, AstNode, MatchArm, MatchArmList, Pat, Path};
use hir_core::syntax::edit::{leading_indent, IndentLevel};
use hir_core::syntax::green::{GreenElement, GreenNode};
use hir_core::syntax::kind::SyntaxKind;
use hir_core::syntax::make;
use hir_core::syntax::node::{SyntaxElement, SyntaxNode};
use hir_core::syntax::rewriter::{Replacement, SyntaxRewriter};
use hir_core::syntax::text::{
    byte_size, chars_of, contains_newline, join, len_utf8, pad, remove_indent, string_of,
    suffix_after_last_newline,
};

fn tok(kind: SyntaxKind, text: &str) -> GreenElement {
    GreenElement::token(kind, text)
}

fn ws(text: &str) -> GreenElement {
    tok(SyntaxKind::WHITESPACE, text)
}

fn ident(text: &str) -> GreenElement {
    tok(SyntaxKind::IDENT, text)
}

fn node(kind: SyntaxKind, children: Vec<GreenElement>) -> GreenElement {
    GreenElement::node(GreenNode::new(kind, children))
}

fn root(kind: SyntaxKind, children: Vec<GreenElement>) -> SyntaxNode {
    SyntaxNode::new_root(GreenNode::new(kind, children))
}

fn name(text: &str) -> GreenElement {
    node(SyntaxKind::NAME, vec![ident(text)])
}

/// `fn <name>() {}`
fn fn_def(text: &str) -> GreenElement {
    node(
        SyntaxKind::FN_DEF,
        vec![
            tok(SyntaxKind::FN_KW, "fn"),
            ws(" "),
            name(text),
            node(
                SyntaxKind::PARAM_LIST,
                vec![tok(SyntaxKind::L_PAREN, "("), tok(SyntaxKind::R_PAREN, ")")],
            ),
            ws(" "),
            node(
                SyntaxKind::BLOCK_EXPR,
                vec![node(
                    SyntaxKind::BLOCK,
                    vec![tok(SyntaxKind::L_CURLY, "{"), tok(SyntaxKind::R_CURLY, "}")],
                )],
            ),
        ],
    )
}

/// `mod m {\n    fn a() {}\n\n    fn b() {}\n}`
fn module() -> SyntaxNode {
    root(
        SyntaxKind::SOURCE_FILE,
        vec![
            tok(SyntaxKind::MOD_KW, "mod"),
            ws(" "),
            name("m"),
            ws(" "),
            node(
                SyntaxKind::ITEM_LIST,
                vec![
                    tok(SyntaxKind::L_CURLY, "{"),
                    ws("\n    "),
                    fn_def("a"),
                    ws("\n\n    "),
                    fn_def("b"),
                    ws("\n"),
                    tok(SyntaxKind::R_CURLY, "}"),
                ],
            ),
        ],
    )
}

fn text_of(chars: &[char]) -> String {
    chars.iter().collect()
}

#[test]
fn a_node_stands_for_the_text_of_its_tokens() {
    let file = module();
    assert_eq!(file.to_string(), "mod m {\n    fn a() {}\n\n    fn b() {}\n}");
    assert_eq!(text_of(&file.text()), file.to_string());
    assert_eq!(file.kind(), SyntaxKind::SOURCE_FILE);
    let list = file.child(4).unwrap();
    assert_eq!(list.kind(), SyntaxKind::ITEM_LIST);
    assert_eq!(list.to_string(), "{\n    fn a() {}\n\n    fn b() {}\n}");
    let b = list.child(4).unwrap();
    assert_eq!(b.to_string(), "fn b() {}");
    assert_eq!(b.child(2).unwrap().to_string(), "b");
    assert_eq!(root(SyntaxKind::SOURCE_FILE, vec![]).to_string(), "");
}

#[test]
fn children_are_found_in_their_places() {
    let file = module();
    assert!(file.child(0).is_none(), "a token is no node");
    assert!(file.child(5).is_none(), "there is no sixth child");
    assert_eq!(file.children_with_tokens().len(), 5);
    let list = file.child(4).unwrap();
    assert_eq!(list.index_in_parent(), Some(4));
    assert_eq!(file.index_in_parent(), None);
    assert!(file.parent().is_none());
    let up = list.parent().unwrap();
    assert!(up.same_place(&file));
    assert!(!up.same_place(&list));
    let a = list.child(2).unwrap();
    assert_eq!(a.path(), &vec![4, 2]);
    assert_eq!(a.parent().unwrap().parent().unwrap().to_string(), file.to_string());
    assert_eq!(a.clone().to_string(), "fn a() {}");
}

#[test]
fn elements_know_what_follows_them() {
    let file = module();
    let list = file.child(4).unwrap();
    let a = list.child(2).unwrap();
    match a.next_sibling_or_token() {
        Some(SyntaxElement::Token(t)) => {
            assert_eq!(t.kind(), SyntaxKind::WHITESPACE);
            assert_eq!(text_of(t.text()), "\n\n    ");
        }
        _ => panic!("blank space follows the function"),
    }
    assert!(list.next_sibling_or_token().is_none());
    assert!(file.next_sibling_or_token().is_none());
    match file.child_or_token(4) {
        Some(SyntaxElement::Node(n)) => assert!(n.same_place(&list)),
        _ => panic!("the list is a node"),
    }
    match file.child_or_token(0) {
        Some(e @ SyntaxElement::Token(_)) => {
            assert_eq!(e.kind(), SyntaxKind::MOD_KW);
            assert_eq!(e.path(), &vec![0]);
            assert_eq!(e.green().kind(), SyntaxKind::MOD_KW);
        }
        _ => panic!("the keyword is a token"),
    }
    assert!(file.child_or_token(5).is_none());
}

#[test]
fn offsets_count_bytes() {
    let file = root(
        SyntaxKind::SOURCE_FILE,
        vec![ident("é"), ws(" "), node(SyntaxKind::NAME, vec![ident("a€")]), name("x")],
    );
    assert_eq!(file.text_offset(), 0);
    assert_eq!(file.child(2).unwrap().text_offset(), 3);
    assert_eq!(file.child(3).unwrap().text_offset(), 7);
    assert_eq!(file.green().byte_size(), 8);
    assert_eq!(file.child(2).unwrap().green().byte_size(), 4);
    assert_eq!(byte_size(&chars_of("a€é")), 6);
    assert_eq!(byte_size(&[]), 0);
    for c in ['a', '\u{7f}', '\u{80}', 'é', '\u{7ff}', '\u{800}', '€', '\u{ffff}', '\u{10000}', '😀'] {
        assert_eq!(len_utf8(c), c.len_utf8());
    }
}

#[test]
fn leading_tokens_end_with_the_first_token_of_the_node() {
    let file = module();
    let b = file.child(4).unwrap().child(4).unwrap();
    let kinds: Vec<SyntaxKind> = b.leading_tokens().iter().map(|t| t.kind).collect();
    assert_eq!(
        kinds,
        vec![
            SyntaxKind::MOD_KW,
            SyntaxKind::WHITESPACE,
            SyntaxKind::IDENT,
            SyntaxKind::WHITESPACE,
            SyntaxKind::L_CURLY,
            SyntaxKind::WHITESPACE,
            SyntaxKind::FN_KW,
            SyntaxKind::WHITESPACE,
            SyntaxKind::IDENT,
            SyntaxKind::L_PAREN,
            SyntaxKind::R_PAREN,
            SyntaxKind::WHITESPACE,
            SyntaxKind::L_CURLY,
            SyntaxKind::R_CURLY,
            SyntaxKind::WHITESPACE,
            SyntaxKind::FN_KW,
        ]
    );
    assert_eq!(file.leading_tokens().len(), 1);
    assert!(root(SyntaxKind::SOURCE_FILE, vec![]).leading_tokens().is_empty());
}

#[test]
fn leading_indent_is_what_follows_the_last_line_break() {
    let file = module();
    let list = file.child(4).unwrap();
    assert_eq!(leading_indent(&file), None);
    assert_eq!(leading_indent(&list), None);
    assert_eq!(leading_indent(&list.child(2).unwrap()).map(|i| text_of(&i)), Some("    ".to_string()));
    assert_eq!(leading_indent(&list.child(4).unwrap()).map(|i| text_of(&i)), Some("    ".to_string()));
    // the name of `b` stands on the line of `b`
    let b_name = list.child(4).unwrap().child(2).unwrap();
    assert_eq!(leading_indent(&b_name).map(|i| text_of(&i)), Some("    ".to_string()));
}

#[test]
fn a_line_break_in_another_token_ends_the_search_for_the_indent() {
    let file = root(
        SyntaxKind::SOURCE_FILE,
        vec![ws("\n  "), tok(SyntaxKind::COMMENT, "/* a\n b */"), ws(" "), name("x")],
    );
    let x = file.child(3).unwrap();
    assert_eq!(leading_indent(&x), None);
    // the depth looks at blank space only
    assert_eq!(IndentLevel::from_node(&x).0, 0);
    let file = root(
        SyntaxKind::SOURCE_FILE,
        vec![ws("\n        "), tok(SyntaxKind::COMMENT, "/* a\n b */"), ws(" "), name("x")],
    );
    assert_eq!(IndentLevel::from_node(&file.child(3).unwrap()).0, 2);
}

#[test]
fn indent_level_counts_steps_of_four_blanks() {
    let file = module();
    let list = file.child(4).unwrap();
    assert_eq!(IndentLevel::from_node(&file).0, 0);
    assert_eq!(IndentLevel::from_node(&list).0, 0);
    assert_eq!(IndentLevel::from_node(&list.child(2).unwrap()).0, 1);
    for (blanks, level) in [(0, 0), (3, 0), (4, 1), (7, 1), (8, 2), (1023, 255), (1024, 0), (1028, 1)] {
        let text = format!("\n{}", " ".repeat(blanks));
        let file = root(SyntaxKind::SOURCE_FILE, vec![ws(&text), name("x")]);
        assert_eq!(IndentLevel::from_node(&file.child(1).unwrap()).0, level, "{} blanks", blanks);
    }
    let empty = root(SyntaxKind::SOURCE_FILE, vec![]);
    assert_eq!(IndentLevel::from_node(&empty).0, 0);
}

#[test]
fn text_helpers() {
    assert_eq!(chars_of("aé€"), vec!['a', 'é', '€']);
    assert_eq!(string_of(&['a', 'é', '€']), "aé€");
    assert_eq!(string_of(&[]), "");
    assert!(contains_newline(&chars_of("a\nb")));
    assert!(!contains_newline(&chars_of("a\rb")));
    assert!(!contains_newline(&[]));
    assert_eq!(suffix_after_last_newline(&chars_of("a\nb\n  c")), Some(chars_of("  c")));
    assert_eq!(suffix_after_last_newline(&chars_of("a\n")), Some(vec![]));
    assert_eq!(suffix_after_last_newline(&chars_of("\n")), Some(vec![]));
    assert_eq!(suffix_after_last_newline(&chars_of("abc")), None);
    assert_eq!(suffix_after_last_newline(&[]), None);
    assert_eq!(pad(&chars_of("\n"), 3), chars_of("\n   "));
    assert_eq!(pad(&chars_of("ab"), 0), chars_of("ab"));
    assert_eq!(join(&chars_of("ab"), &chars_of("cd")), chars_of("abcd"));
    assert_eq!(join(&[], &[]), Vec::<char>::new());
}

#[test]
fn remove_indent_reads_from_left_to_right() {
    let dedent = |text: &str, width: usize| text_of(&remove_indent(&chars_of(text), width));
    assert_eq!(dedent("\n        ", 4), "\n    ");
    assert_eq!(dedent("\n        ", 8), "\n");
    assert_eq!(dedent("\n    ", 8), "\n    ");
    assert_eq!(dedent("\n\n    ", 4), "\n\n");
    assert_eq!(dedent("\n    \n    ", 4), "\n\n");
    assert_eq!(dedent("    \n  ", 2), "    \n");
    assert_eq!(dedent("\n  x\n   y", 2), "\nx\n y");
    assert_eq!(dedent("\n  ", 0), "\n  ");
    assert_eq!(dedent("", 4), "");
    assert_eq!(dedent("a", 4), "a");
    for (text, width) in [("\n        a\n    b\n  c", 4), ("\n\n\n", 1), ("\n \n  \n   ", 2), ("x\n", 3)] {
        let pattern = format!("\n{}", " ".repeat(width));
        assert_eq!(dedent(text, width), text.replace(&pattern, "\n"));
    }
}

#[test]
fn children_are_found_by_kind() {
    let file = module();
    let list = file.child(4).unwrap();
    let children = list.children_with_tokens();
    assert_eq!(find_kind(children, SyntaxKind::WHITESPACE, 0), Some(1));
    assert_eq!(find_kind(children, SyntaxKind::WHITESPACE, 2), Some(3));
    assert_eq!(find_kind(children, SyntaxKind::WHITESPACE, 6), None);
    assert_eq!(find_kind(children, SyntaxKind::FN_DEF, 0), Some(2));
    assert_eq!(find_kind(children, SyntaxKind::R_CURLY, 7), None);
    assert_eq!(find_kind(children, SyntaxKind::R_CURLY, 100), None);
    assert_eq!(find_token(children, SyntaxKind::L_CURLY, 0), Some(0));
    assert_eq!(find_token(children, SyntaxKind::FN_DEF, 0), None);
    assert_eq!(find_node(children, SyntaxKind::FN_DEF, 0), Some(2));
    assert_eq!(find_node(children, SyntaxKind::FN_DEF, 3), Some(4));
    assert_eq!(find_node(children, SyntaxKind::L_CURLY, 0), None);
    assert_eq!(find_last_node(children, SyntaxKind::FN_DEF), Some(4));
    assert_eq!(find_last_node(children, SyntaxKind::USE_ITEM), None);
    assert_eq!(find_child::<hir_core::syntax::ast::ImplItem>(children, 0), Some(2));
    assert_eq!(find_last_child::<hir_core::syntax::ast::ImplItem>(children), Some(4));
    assert_eq!(find_child::<Path>(children, 0), None);
    assert!(child::<hir_core::syntax::ast::ItemList>(&file).is_some());
    assert!(child::<Path>(&file).is_none());
}

#[test]
fn typed_views_check_the_kind() {
    let file = module();
    let list = file.child(4).unwrap();
    assert!(Path::cast(list.clone()).is_none());
    assert!(hir_core::syntax::ast::ItemList::cast(list.clone()).is_some());
    assert!(hir_core::syntax::ast::ImplItem::cast(list.child(2).unwrap()).is_some());
    assert!(hir_core::syntax::ast::FnDef::cast(list.child(2).unwrap()).is_some());
    assert!(Path::can_cast_kind(SyntaxKind::PATH));
    assert!(!Path::can_cast_kind(SyntaxKind::PATH_SEGMENT));
    for kind in [SyntaxKind::PLACEHOLDER_PAT, SyntaxKind::BIND_PAT, SyntaxKind::PATH_PAT] {
        assert!(Pat::can_cast_kind(kind));
    }
    assert!(!Pat::can_cast_kind(SyntaxKind::MATCH_ARM));
    let arm = make::match_arm(
        vec![Pat::cast(make::placeholder_pat().syntax().clone()).unwrap()],
        make::expr_unit(),
    );
    assert_eq!(arm.syntax().kind(), SyntaxKind::MATCH_ARM);
    assert!(MatchArmList::cast(arm.syntax().clone()).is_none());
    assert!(MatchArm::cast(arm.syntax().clone()).is_some());
}

#[test]
fn made_syntax_reads_as_it_is_written() {
    assert_eq!(make::placeholder_pat().syntax().to_string(), "_");
    assert_eq!(make::expr_unit().syntax().to_string(), "()");
    let pat = || Pat::cast(make::placeholder_pat().syntax().clone()).unwrap();
    assert_eq!(make::match_arm(vec![pat()], make::expr_unit()).syntax().to_string(), "_ => ()");
    assert_eq!(
        make::match_arm(vec![pat(), pat(), pat()], make::expr_unit()).syntax().to_string(),
        "_ | _ | _ => ()"
    );
    assert_eq!(make::match_arm_list(vec![]).syntax().to_string(), "{\n}");
    assert_eq!(make::single_space().kind(), SyntaxKind::WHITESPACE);
    for (kind, text) in [
        (SyntaxKind::COLONCOLON, "::"),
        (SyntaxKind::FAT_ARROW, "=>"),
        (SyntaxKind::SHLEQ, "<<="),
        (SyntaxKind::L_CURLY, "{"),
        (SyntaxKind::MATCH_KW, "match"),
        (SyntaxKind::DOTDOTEQ, "..="),
    ] {
        assert_eq!(kind.fixed_text(), Some(text));
        let made = root(SyntaxKind::SOURCE_FILE, vec![make::token(kind)]);
        assert_eq!(made.to_string(), text);
    }
    assert_eq!(SyntaxKind::IDENT.fixed_text(), None);
    assert_eq!(SyntaxKind::WHITESPACE.fixed_text(), None);
    assert_eq!(SyntaxKind::FN_DEF.fixed_text(), None);
}

#[test]
fn kinds_know_their_classes() {
    assert!(SyntaxKind::WHITESPACE.is_trivia());
    assert!(SyntaxKind::COMMENT.is_trivia());
    assert!(!SyntaxKind::IDENT.is_trivia());
    assert!(SyntaxKind::STRING.is_literal());
    assert!(SyntaxKind::INT_NUMBER.is_literal());
    assert!(!SyntaxKind::LITERAL.is_literal());
    assert!(SyntaxKind::PLUS.is_bin_op());
    assert!(SyntaxKind::SHREQ.is_bin_op());
    assert!(!SyntaxKind::EXCL.is_bin_op());
    assert!(!SyntaxKind::COMMA.is_bin_op());
}

#[test]
fn children_are_exchanged_in_place() {
    let file = module();
    let list = file.child(4).unwrap();
    let new = replace_children(&list, 1, 6, &vec![ws(" ")]);
    assert_eq!(new.to_string(), "{ }");
    assert_eq!(new.parent().unwrap().to_string(), "mod m { }");
    assert_eq!(new.path(), list.path());
    // the old tree is as it was
    assert_eq!(file.to_string(), "mod m {\n    fn a() {}\n\n    fn b() {}\n}");
    assert_eq!(replace_children(&list, 0, 7, &vec![]).to_string(), "");
    assert_eq!(replace_children(&list, 7, 7, &vec![ws("!")]).to_string(), format!("{}!", list.to_string()));
    assert_eq!(replace_children(&list, 3, 3, &vec![]).to_string(), list.to_string());
}

#[test]
fn children_are_put_in_at_a_position() {
    let list = root(SyntaxKind::USE_TREE_LIST, vec![ident("a"), ident("b"), ident("c")]);
    let new = vec![ident("x"), ident("y")];
    assert_eq!(insert_children(&list, InsertPosition::First, &new).to_string(), "xyabc");
    assert_eq!(insert_children(&list, InsertPosition::Last, &new).to_string(), "abcxy");
    assert_eq!(insert_children(&list, InsertPosition::Before(1), &new).to_string(), "axybc");
    assert_eq!(insert_children(&list, InsertPosition::After(1), &new).to_string(), "abxyc");
    assert_eq!(insert_children(&list, InsertPosition::After(2), &new).to_string(), "abcxy");
    assert_eq!(insert_children(&list, InsertPosition::Before(0), &vec![]).to_string(), "abc");
}

#[test]
fn a_rewriter_exchanges_what_it_is_told() {
    let file = module();
    let list = file.child(4).unwrap();
    let mut rewriter = SyntaxRewriter::new();
    assert_eq!(rewriter.rewrite(&file).to_string(), file.to_string());
    let a = list.child(2).unwrap();
    let b_name = list.child(4).unwrap().child(2).unwrap();
    rewriter.delete_node(&a);
    rewriter.delete(&list.child_or_token(3).unwrap());
    rewriter.replace(&SyntaxElement::Node(b_name.clone()), name("c"));
    assert_eq!(rewriter.rewrite(&file).to_string(), "mod m {\n    fn c() {}\n}");
    assert_eq!(rewriter.rewrite(&list).to_string(), "{\n    fn c() {}\n}");
    assert_eq!(rewriter.rewrite(&list).parent().unwrap().to_string(), "mod m {\n    fn c() {}\n}");
    // what is inside a node that goes is not looked at
    let mut rewriter = SyntaxRewriter::new();
    rewriter.replace(&SyntaxElement::Node(b_name.clone()), name("c"));
    rewriter.delete_node(&list.child(4).unwrap());
    assert_eq!(rewriter.rewrite(&file).to_string(), "mod m {\n    fn a() {}\n\n    \n}");
    // what is said last of a place counts
    let mut rewriter = SyntaxRewriter::new();
    rewriter.delete_node(&b_name);
    rewriter.replace_node(&b_name, &a.child(2).unwrap());
    assert_eq!(rewriter.rewrite(&file).to_string(), "mod m {\n    fn a() {}\n\n    fn a() {}\n}");
    assert!(matches!(rewriter.replacement(&vec![4, 4, 2]), Some(Replacement::Single(_))));
    assert!(rewriter.replacement(&vec![4, 4]).is_none());
    rewriter.delete_node(&b_name);
    assert!(matches!(rewriter.replacement(&vec![4, 4, 2]), Some(Replacement::Delete)));
    // the node that is rewritten stays: only what is inside it is exchanged
    let mut rewriter = SyntaxRewriter::new();
    rewriter.delete_node(&list);
    assert_eq!(rewriter.rewrite(&list).to_string(), list.to_string());
    assert_eq!(rewriter.rewrite(&file).to_string(), "mod m ");
}
