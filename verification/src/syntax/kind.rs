//! The kinds of tokens and nodes of a syntax tree.

use vstd::prelude::*;

verus! {

/// The kind of a token or a node.
#[allow(non_camel_case_types)]
#[derive(Clone, Copy, PartialEq, Eq, Structural, Debug, Hash)]
pub enum SyntaxKind {
    // punctuation
    SEMI,
    COMMA,
    L_PAREN,
    R_PAREN,
    L_CURLY,
    R_CURLY,
    L_BRACK,
    R_BRACK,
    L_ANGLE,
    R_ANGLE,
    AT,
    POUND,
    TILDE,
    QUESTION,
    DOLLAR,
    AMP,
    PIPE,
    PLUS,
    STAR,
    SLASH,
    CARET,
    PERCENT,
    UNDERSCORE,
    DOT,
    DOTDOT,
    DOTDOTDOT,
    DOTDOTEQ,
    COLON,
    COLONCOLON,
    EQ,
    EQEQ,
    FAT_ARROW,
    EXCL,
    NEQ,
    MINUS,
    THIN_ARROW,
    LTEQ,
    GTEQ,
    PLUSEQ,
    MINUSEQ,
    PIPEEQ,
    AMPEQ,
    CARETEQ,
    SLASHEQ,
    STAREQ,
    PERCENTEQ,
    AMPAMP,
    PIPEPIPE,
    SHL,
    SHR,
    SHLEQ,
    SHREQ,
    // keywords
    AS_KW,
    CONST_KW,
    CRATE_KW,
    ENUM_KW,
    FN_KW,
    FOR_KW,
    IMPL_KW,
    IN_KW,
    LET_KW,
    MATCH_KW,
    MOD_KW,
    MUT_KW,
    PUB_KW,
    SELF_KW,
    STRUCT_KW,
    SUPER_KW,
    TRAIT_KW,
    TYPE_KW,
    UNION_KW,
    USE_KW,
    WHERE_KW,
    // literals
    INT_NUMBER,
    FLOAT_NUMBER,
    CHAR,
    BYTE,
    STRING,
    RAW_STRING,
    BYTE_STRING,
    RAW_BYTE_STRING,
    // other tokens
    ERROR,
    IDENT,
    WHITESPACE,
    LIFETIME,
    COMMENT,
    // nodes
    SOURCE_FILE,
    STRUCT_DEF,
    UNION_DEF,
    ENUM_DEF,
    FN_DEF,
    IMPL_DEF,
    CONST_DEF,
    TYPE_ALIAS_DEF,
    USE_ITEM,
    ITEM_LIST,
    RET_TYPE,
    PARAM_LIST,
    VISIBILITY,
    ATTR,
    NAME,
    NAME_REF,
    BLOCK,
    BLOCK_EXPR,
    BIN_EXPR,
    PREFIX_EXPR,
    RANGE_EXPR,
    FIELD_EXPR,
    TUPLE_EXPR,
    PATH_EXPR,
    LITERAL,
    MATCH_EXPR,
    MATCH_ARM_LIST,
    MATCH_ARM,
    MATCH_GUARD,
    RECORD_LIT,
    RECORD_FIELD_LIST,
    RECORD_FIELD,
    RECORD_FIELD_DEF_LIST,
    RECORD_FIELD_DEF,
    TUPLE_FIELD_DEF_LIST,
    TUPLE_FIELD_DEF,
    ENUM_VARIANT_LIST,
    ENUM_VARIANT,
    PLACEHOLDER_PAT,
    BIND_PAT,
    PATH_PAT,
    PATH,
    PATH_SEGMENT,
    PATH_TYPE,
    PAREN_TYPE,
    TUPLE_TYPE,
    NEVER_TYPE,
    POINTER_TYPE,
    ARRAY_TYPE,
    SLICE_TYPE,
    REFERENCE_TYPE,
    PLACEHOLDER_TYPE,
    FN_POINTER_TYPE,
    FOR_TYPE,
    IMPL_TRAIT_TYPE,
    DYN_TRAIT_TYPE,
    TYPE_ARG_LIST,
    TYPE_ARG,
    TYPE_PARAM_LIST,
    TYPE_PARAM,
    TYPE_BOUND_LIST,
    TYPE_BOUND,
    USE_TREE,
    USE_TREE_LIST,
    ALIAS,
}

impl SyntaxKind {
    /// Whether tokens of this kind carry no meaning: blank space and
    /// comments.
    pub open spec fn spec_is_trivia(self) -> bool {
        self == SyntaxKind::WHITESPACE || self == SyntaxKind::COMMENT
    }

    /// Whether tokens of this kind carry no meaning.
    #[verifier::when_used_as_spec(spec_is_trivia)]
    pub fn is_trivia(self) -> (r: bool)
        ensures
            r == self.spec_is_trivia(),
    {
        self == SyntaxKind::WHITESPACE || self == SyntaxKind::COMMENT
    }

    /// Whether this is one of the kinds of a literal's token.
    pub open spec fn spec_is_literal(self) -> bool {
        self == SyntaxKind::INT_NUMBER || self == SyntaxKind::FLOAT_NUMBER || self
            == SyntaxKind::CHAR || self == SyntaxKind::BYTE || self == SyntaxKind::STRING || self
            == SyntaxKind::RAW_STRING || self == SyntaxKind::BYTE_STRING || self
            == SyntaxKind::RAW_BYTE_STRING
    }

    /// Whether this is one of the kinds of a literal's token.
    #[verifier::when_used_as_spec(spec_is_literal)]
    pub fn is_literal(self) -> (r: bool)
        ensures
            r == self.spec_is_literal(),
    {
        match self {
            SyntaxKind::INT_NUMBER
            | SyntaxKind::FLOAT_NUMBER
            | SyntaxKind::CHAR
            | SyntaxKind::BYTE
            | SyntaxKind::STRING
            | SyntaxKind::RAW_STRING
            | SyntaxKind::BYTE_STRING
            | SyntaxKind::RAW_BYTE_STRING => true,
            _ => false,
        }
    }

    /// The text of a token of this kind, for the kinds whose tokens always
    /// read the same: punctuation and keywords.
    pub open spec fn spec_fixed_text(self) -> Option<Seq<char>> {
        match self {
            SyntaxKind::SEMI => Some(";"@),
            SyntaxKind::COMMA => Some(","@),
            SyntaxKind::L_PAREN => Some("("@),
            SyntaxKind::R_PAREN => Some(")"@),
            SyntaxKind::L_CURLY => Some("{"@),
            SyntaxKind::R_CURLY => Some("}"@),
            SyntaxKind::L_BRACK => Some("["@),
            SyntaxKind::R_BRACK => Some("]"@),
            SyntaxKind::L_ANGLE => Some("<"@),
            SyntaxKind::R_ANGLE => Some(">"@),
            SyntaxKind::AT => Some("@"@),
            SyntaxKind::POUND => Some("#"@),
            SyntaxKind::TILDE => Some("~"@),
            SyntaxKind::QUESTION => Some("?"@),
            SyntaxKind::DOLLAR => Some("$"@),
            SyntaxKind::AMP => Some("&"@),
            SyntaxKind::PIPE => Some("|"@),
            SyntaxKind::PLUS => Some("+"@),
            SyntaxKind::STAR => Some("*"@),
            SyntaxKind::SLASH => Some("/"@),
            SyntaxKind::CARET => Some("^"@),
            SyntaxKind::PERCENT => Some("%"@),
            SyntaxKind::UNDERSCORE => Some("_"@),
            SyntaxKind::DOT => Some("."@),
            SyntaxKind::DOTDOT => Some(".."@),
            SyntaxKind::DOTDOTDOT => Some("..."@),
            SyntaxKind::DOTDOTEQ => Some("..="@),
            SyntaxKind::COLON => Some(":"@),
            SyntaxKind::COLONCOLON => Some("::"@),
            SyntaxKind::EQ => Some("="@),
            SyntaxKind::EQEQ => Some("=="@),
            SyntaxKind::FAT_ARROW => Some("=>"@),
            SyntaxKind::EXCL => Some("!"@),
            SyntaxKind::NEQ => Some("!="@),
            SyntaxKind::MINUS => Some("-"@),
            SyntaxKind::THIN_ARROW => Some("->"@),
            SyntaxKind::LTEQ => Some("<="@),
            SyntaxKind::GTEQ => Some(">="@),
            SyntaxKind::PLUSEQ => Some("+="@),
            SyntaxKind::MINUSEQ => Some("-="@),
            SyntaxKind::PIPEEQ => Some("|="@),
            SyntaxKind::AMPEQ => Some("&="@),
            SyntaxKind::CARETEQ => Some("^="@),
            SyntaxKind::SLASHEQ => Some("/="@),
            SyntaxKind::STAREQ => Some("*="@),
            SyntaxKind::PERCENTEQ => Some("%="@),
            SyntaxKind::AMPAMP => Some("&&"@),
            SyntaxKind::PIPEPIPE => Some("||"@),
            SyntaxKind::SHL => Some("<<"@),
            SyntaxKind::SHR => Some(">>"@),
            SyntaxKind::SHLEQ => Some("<<="@),
            SyntaxKind::SHREQ => Some(">>="@),
            SyntaxKind::AS_KW => Some("as"@),
            SyntaxKind::CONST_KW => Some("const"@),
            SyntaxKind::CRATE_KW => Some("crate"@),
            SyntaxKind::ENUM_KW => Some("enum"@),
            SyntaxKind::FN_KW => Some("fn"@),
            SyntaxKind::FOR_KW => Some("for"@),
            SyntaxKind::IMPL_KW => Some("impl"@),
            SyntaxKind::IN_KW => Some("in"@),
            SyntaxKind::LET_KW => Some("let"@),
            SyntaxKind::MATCH_KW => Some("match"@),
            SyntaxKind::MOD_KW => Some("mod"@),
            SyntaxKind::MUT_KW => Some("mut"@),
            SyntaxKind::PUB_KW => Some("pub"@),
            SyntaxKind::SELF_KW => Some("self"@),
            SyntaxKind::STRUCT_KW => Some("struct"@),
            SyntaxKind::SUPER_KW => Some("super"@),
            SyntaxKind::TRAIT_KW => Some("trait"@),
            SyntaxKind::TYPE_KW => Some("type"@),
            SyntaxKind::UNION_KW => Some("union"@),
            SyntaxKind::USE_KW => Some("use"@),
            SyntaxKind::WHERE_KW => Some("where"@),
            _ => None,
        }
    }

    /// The text of a token of this kind, for the kinds whose tokens always
    /// read the same.
    pub fn fixed_text(self) -> (r: Option<&'static str>)
        ensures
            match r {
                Some(s) => self.spec_fixed_text() == Some(s@),
                None => self.spec_fixed_text() is None,
            },
    {
        match self {
            SyntaxKind::SEMI => Some(";"),
            SyntaxKind::COMMA => Some(","),
            SyntaxKind::L_PAREN => Some("("),
            SyntaxKind::R_PAREN => Some(")"),
            SyntaxKind::L_CURLY => Some("{"),
            SyntaxKind::R_CURLY => Some("}"),
            SyntaxKind::L_BRACK => Some("["),
            SyntaxKind::R_BRACK => Some("]"),
            SyntaxKind::L_ANGLE => Some("<"),
            SyntaxKind::R_ANGLE => Some(">"),
            SyntaxKind::AT => Some("@"),
            SyntaxKind::POUND => Some("#"),
            SyntaxKind::TILDE => Some("~"),
            SyntaxKind::QUESTION => Some("?"),
            SyntaxKind::DOLLAR => Some("$"),
            SyntaxKind::AMP => Some("&"),
            SyntaxKind::PIPE => Some("|"),
            SyntaxKind::PLUS => Some("+"),
            SyntaxKind::STAR => Some("*"),
            SyntaxKind::SLASH => Some("/"),
            SyntaxKind::CARET => Some("^"),
            SyntaxKind::PERCENT => Some("%"),
            SyntaxKind::UNDERSCORE => Some("_"),
            SyntaxKind::DOT => Some("."),
            SyntaxKind::DOTDOT => Some(".."),
            SyntaxKind::DOTDOTDOT => Some("..."),
            SyntaxKind::DOTDOTEQ => Some("..="),
            SyntaxKind::COLON => Some(":"),
            SyntaxKind::COLONCOLON => Some("::"),
            SyntaxKind::EQ => Some("="),
            SyntaxKind::EQEQ => Some("=="),
            SyntaxKind::FAT_ARROW => Some("=>"),
            SyntaxKind::EXCL => Some("!"),
            SyntaxKind::NEQ => Some("!="),
            SyntaxKind::MINUS => Some("-"),
            SyntaxKind::THIN_ARROW => Some("->"),
            SyntaxKind::LTEQ => Some("<="),
            SyntaxKind::GTEQ => Some(">="),
            SyntaxKind::PLUSEQ => Some("+="),
            SyntaxKind::MINUSEQ => Some("-="),
            SyntaxKind::PIPEEQ => Some("|="),
            SyntaxKind::AMPEQ => Some("&="),
            SyntaxKind::CARETEQ => Some("^="),
            SyntaxKind::SLASHEQ => Some("/="),
            SyntaxKind::STAREQ => Some("*="),
            SyntaxKind::PERCENTEQ => Some("%="),
            SyntaxKind::AMPAMP => Some("&&"),
            SyntaxKind::PIPEPIPE => Some("||"),
            SyntaxKind::SHL => Some("<<"),
            SyntaxKind::SHR => Some(">>"),
            SyntaxKind::SHLEQ => Some("<<="),
            SyntaxKind::SHREQ => Some(">>="),
            SyntaxKind::AS_KW => Some("as"),
            SyntaxKind::CONST_KW => Some("const"),
            SyntaxKind::CRATE_KW => Some("crate"),
            SyntaxKind::ENUM_KW => Some("enum"),
            SyntaxKind::FN_KW => Some("fn"),
            SyntaxKind::FOR_KW => Some("for"),
            SyntaxKind::IMPL_KW => Some("impl"),
            SyntaxKind::IN_KW => Some("in"),
            SyntaxKind::LET_KW => Some("let"),
            SyntaxKind::MATCH_KW => Some("match"),
            SyntaxKind::MOD_KW => Some("mod"),
            SyntaxKind::MUT_KW => Some("mut"),
            SyntaxKind::PUB_KW => Some("pub"),
            SyntaxKind::SELF_KW => Some("self"),
            SyntaxKind::STRUCT_KW => Some("struct"),
            SyntaxKind::SUPER_KW => Some("super"),
            SyntaxKind::TRAIT_KW => Some("trait"),
            SyntaxKind::TYPE_KW => Some("type"),
            SyntaxKind::UNION_KW => Some("union"),
            SyntaxKind::USE_KW => Some("use"),
            SyntaxKind::WHERE_KW => Some("where"),
            _ => None,
        }
    }

    /// Whether this is the kind of the operator of a binary expression.
    pub open spec fn spec_is_bin_op(self) -> bool {
        self == SyntaxKind::PIPEPIPE || self == SyntaxKind::AMPAMP || self == SyntaxKind::EQEQ
            || self == SyntaxKind::NEQ || self == SyntaxKind::LTEQ || self == SyntaxKind::GTEQ
            || self == SyntaxKind::L_ANGLE || self == SyntaxKind::R_ANGLE
            || self == SyntaxKind::PLUS || self == SyntaxKind::STAR || self == SyntaxKind::MINUS
            || self == SyntaxKind::SLASH || self == SyntaxKind::PERCENT
            || self == SyntaxKind::SHL || self == SyntaxKind::SHR || self == SyntaxKind::CARET
            || self == SyntaxKind::PIPE || self == SyntaxKind::AMP || self == SyntaxKind::EQ
            || self == SyntaxKind::PLUSEQ || self == SyntaxKind::SLASHEQ
            || self == SyntaxKind::STAREQ || self == SyntaxKind::PERCENTEQ
            || self == SyntaxKind::SHREQ || self == SyntaxKind::SHLEQ
            || self == SyntaxKind::MINUSEQ || self == SyntaxKind::PIPEEQ
            || self == SyntaxKind::AMPEQ || self == SyntaxKind::CARETEQ
    }

    /// Whether this is the kind of the operator of a binary expression.
    #[verifier::when_used_as_spec(spec_is_bin_op)]
    pub fn is_bin_op(self) -> (r: bool)
        ensures
            r == self.spec_is_bin_op(),
    {
        match self {
            SyntaxKind::PIPEPIPE
            | SyntaxKind::AMPAMP
            | SyntaxKind::EQEQ
            | SyntaxKind::NEQ
            | SyntaxKind::LTEQ
            | SyntaxKind::GTEQ
            | SyntaxKind::L_ANGLE
            | SyntaxKind::R_ANGLE
            | SyntaxKind::PLUS
            | SyntaxKind::STAR
            | SyntaxKind::MINUS
            | SyntaxKind::SLASH
            | SyntaxKind::PERCENT
            | SyntaxKind::SHL
            | SyntaxKind::SHR
            | SyntaxKind::CARET
            | SyntaxKind::PIPE
            | SyntaxKind::AMP
            | SyntaxKind::EQ
            | SyntaxKind::PLUSEQ
            | SyntaxKind::SLASHEQ
            | SyntaxKind::STAREQ
            | SyntaxKind::PERCENTEQ
            | SyntaxKind::SHREQ
            | SyntaxKind::SHLEQ
            | SyntaxKind::MINUSEQ
            | SyntaxKind::PIPEEQ
            | SyntaxKind::AMPEQ
            | SyntaxKind::CARETEQ => true,
            _ => false,
        }
    }
}

/// A span of the source text, from `start` up to `end`.
#[derive(Clone, Copy, PartialEq, Eq, Structural, Debug, Hash)]
pub struct TextRange {
    pub start: u32,
    pub end: u32,
}

/// A pointer to a node of the concrete syntax: its kind and where it
/// stands. Two pointers into one file are equal exactly when they point to
/// the same node.
#[derive(Clone, Copy, PartialEq, Eq, Structural, Debug, Hash)]
pub struct AstPtr {
    pub kind: SyntaxKind,
    pub range: TextRange,
}

} // verus!
