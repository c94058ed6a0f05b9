use hir_core::codegen::{
    is_ascii_uppercase, to_ascii_lowercase, to_ascii_uppercase, to_lower_snake_case,
    to_pascal_case, to_upper_snake_case,
};

#[test]
fn upper_snake_case_splits_at_capitals() {
    assert_eq!(to_upper_snake_case("FnDef"), "FN_DEF");
    assert_eq!(to_upper_snake_case("RecordFieldDefList"), "RECORD_FIELD_DEF_LIST");
    assert_eq!(to_upper_snake_case("fn"), "FN");
    assert_eq!(to_upper_snake_case("ABC"), "A_B_C");
    assert_eq!(to_upper_snake_case(""), "");
    assert_eq!(to_upper_snake_case("a"), "A");
    assert_eq!(to_upper_snake_case("A"), "A");
    assert_eq!(to_upper_snake_case("aB"), "A_B");
    assert_eq!(to_upper_snake_case("already_SNAKE"), "ALREADY__S_N_A_K_E");
}

#[test]
fn lower_snake_case_splits_at_capitals() {
    assert_eq!(to_lower_snake_case("FnDef"), "fn_def");
    assert_eq!(to_lower_snake_case("RecordFieldDefList"), "record_field_def_list");
    assert_eq!(to_lower_snake_case("Name"), "name");
    assert_eq!(to_lower_snake_case("ABC"), "a_b_c");
    assert_eq!(to_lower_snake_case(""), "");
    assert_eq!(to_lower_snake_case("x1Y2"), "x1_y2");
}

#[test]
fn pascal_case_joins_the_words() {
    assert_eq!(to_pascal_case("FN_DEF"), "FnDef");
    assert_eq!(to_pascal_case("fn_def"), "FnDef");
    assert_eq!(to_pascal_case("RECORD_FIELD_DEF_LIST"), "RecordFieldDefList");
    assert_eq!(to_pascal_case("L_CURLY"), "LCurly");
    assert_eq!(to_pascal_case(""), "");
    assert_eq!(to_pascal_case("_"), "");
    assert_eq!(to_pascal_case("_a__b_"), "AB");
    assert_eq!(to_pascal_case("already"), "Already");
    assert_eq!(to_pascal_case("MiXed"), "Mixed");
}

#[test]
fn only_ascii_letters_change_their_case() {
    assert_eq!(to_upper_snake_case("é1_ß"), "é1_ß");
    assert_eq!(to_lower_snake_case("É"), "É");
    assert_eq!(to_pascal_case("é_ü"), "éü");
    assert_eq!(to_ascii_uppercase('a'), 'A');
    assert_eq!(to_ascii_uppercase('z'), 'Z');
    assert_eq!(to_ascii_uppercase('A'), 'A');
    assert_eq!(to_ascii_uppercase('{'), '{');
    assert_eq!(to_ascii_uppercase('`'), '`');
    assert_eq!(to_ascii_lowercase('A'), 'a');
    assert_eq!(to_ascii_lowercase('Z'), 'z');
    assert_eq!(to_ascii_lowercase('['), '[');
    assert_eq!(to_ascii_lowercase('@'), '@');
    assert_eq!(to_ascii_lowercase('ä'), 'ä');
    assert!(is_ascii_uppercase('A') && is_ascii_uppercase('Z'));
    assert!(!is_ascii_uppercase('a') && !is_ascii_uppercase('[') && !is_ascii_uppercase('@'));
    for c in ['a', 'A', 'm', 'Z', '0', '_', 'é', '{'] {
        assert_eq!(to_ascii_uppercase(c), c.to_ascii_uppercase());
        assert_eq!(to_ascii_lowercase(c), c.to_ascii_lowercase());
        assert_eq!(is_ascii_uppercase(c), c.is_ascii_uppercase());
    }
}

#[test]
fn the_spellings_go_back_and_forth() {
    for name in ["FnDef", "UseTreeList", "Path", "MatchArm"] {
        assert_eq!(to_pascal_case(&to_upper_snake_case(name)), name);
        assert_eq!(to_pascal_case(&to_lower_snake_case(name)), name);
    }
}
