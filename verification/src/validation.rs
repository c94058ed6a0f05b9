//! Checks of a syntax tree that the parser leaves open: escapes in
//! literals, the names of tuple fields, visibilities where none is allowed
//! and ranges without an end.

use vstd::prelude::*;
use rustc_ap_rustc_lexer::unescape::EscapeError;
use crate::ext::unescape::{
    unescape_byte, unescape_byte_str, unescape_char, unescape_str, unescaped_byte,
    unescaped_byte_str, unescaped_char, unescaped_str,
};
use crate::syntax::algo::{first_where, lemma_first_where_found, lemma_first_where_none};
use crate::syntax::ast::{
    AstNode, Expr, FieldExpr, ImplDef, Literal, NameRef, RangeExpr, RecordField, TypeRef,
    Visibility, castable, child, find_child,
};
use crate::syntax::green::{GreenElement, Tree, lemma_texts_grow, trees};
use crate::syntax::kind::{SyntaxKind, TextRange};
use crate::syntax::node::{NodeView, SyntaxNode, lemma_at_push};
use crate::syntax::text::{byte_size, len_utf8, string_of, utf8_len, utf8_size};

verus! {

/// The message for an error in an escape.
pub open spec fn escape_error_message(err: EscapeError) -> Seq<char> {
    match err {
        EscapeError::ZeroChars => "Literal must not be empty"@,
        EscapeError::MoreThanOneChar => "Literal must be one character long"@,
        EscapeError::LoneSlash => "Character must be escaped: `\\`"@,
        EscapeError::InvalidEscape => "Invalid escape"@,
        EscapeError::BareCarriageReturn => "Character must be escaped: `\r`"@,
        EscapeError::BareCarriageReturnInRawString => "Character must be escaped: `\r`"@,
        EscapeError::EscapeOnlyChar => "Escape character `\\` must be escaped itself"@,
        EscapeError::TooShortHexEscape => "ASCII hex escape code must have exactly two digits"@,
        EscapeError::InvalidCharInHexEscape => "ASCII hex escape code must contain only hex characters"@,
        EscapeError::OutOfRangeHexEscape => "ASCII hex escape code must be at most 0x7F"@,
        EscapeError::NoBraceInUnicodeEscape => "Missing `{` to begin the unicode escape"@,
        EscapeError::InvalidCharInUnicodeEscape => "Unicode escape must contain only hex characters and underscores"@,
        EscapeError::EmptyUnicodeEscape => "Unicode escape must not be empty"@,
        EscapeError::UnclosedUnicodeEscape => "Missing '}' to terminate the unicode escape"@,
        EscapeError::LeadingUnderscoreUnicodeEscape => "Unicode escape code must not begin with an underscore"@,
        EscapeError::OverlongUnicodeEscape => "Unicode escape code must have at most 6 digits"@,
        EscapeError::LoneSurrogateUnicodeEscape => "Unicode escape code must not be a surrogate"@,
        EscapeError::OutOfRangeUnicodeEscape => "Unicode escape code must be at most 0x10FFFF"@,
        EscapeError::UnicodeEscapeInByte => "Byte literals must not contain unicode escapes"@,
        EscapeError::NonAsciiCharInByte => "Byte literals must not contain non-ASCII characters"@,
        EscapeError::NonAsciiCharInByteString => "Byte literals must not contain non-ASCII characters"@,
    }
}

/// The message for an error in an escape.
pub fn rustc_unescape_error_to_string(err: &EscapeError) -> (r: &'static str)
    ensures
        r@ == escape_error_message(*err),
{
    let err_message = match err {
        EscapeError::ZeroChars => { "Literal must not be empty" },
        EscapeError::MoreThanOneChar => { "Literal must be one character long" },
        EscapeError::LoneSlash => { "Character must be escaped: `\\`" },
        EscapeError::InvalidEscape => { "Invalid escape" },
        EscapeError::BareCarriageReturn | EscapeError::BareCarriageReturnInRawString => {
            "Character must be escaped: `\r`"
        },
        EscapeError::EscapeOnlyChar => { "Escape character `\\` must be escaped itself" },
        EscapeError::TooShortHexEscape => { "ASCII hex escape code must have exactly two digits" },
        EscapeError::InvalidCharInHexEscape => {
            "ASCII hex escape code must contain only hex characters"
        },
        EscapeError::OutOfRangeHexEscape => { "ASCII hex escape code must be at most 0x7F" },
        EscapeError::NoBraceInUnicodeEscape => { "Missing `{` to begin the unicode escape" },
        EscapeError::InvalidCharInUnicodeEscape => {
            "Unicode escape must contain only hex characters and underscores"
        },
        EscapeError::EmptyUnicodeEscape => { "Unicode escape must not be empty" },
        EscapeError::UnclosedUnicodeEscape => { "Missing '}' to terminate the unicode escape" },
        EscapeError::LeadingUnderscoreUnicodeEscape => {
            "Unicode escape code must not begin with an underscore"
        },
        EscapeError::OverlongUnicodeEscape => { "Unicode escape code must have at most 6 digits" },
        EscapeError::LoneSurrogateUnicodeEscape => {
            "Unicode escape code must not be a surrogate"
        },
        EscapeError::OutOfRangeUnicodeEscape => { "Unicode escape code must be at most 0x10FFFF" },
        EscapeError::UnicodeEscapeInByte => { "Byte literals must not contain unicode escapes" },
        EscapeError::NonAsciiCharInByte | EscapeError::NonAsciiCharInByteString => {
            "Byte literals must not contain non-ASCII characters"
        },
    };
    err_message
}

/// A finding about a piece of syntax: what is wrong, and where.
#[derive(Debug)]
pub struct SyntaxError {
    pub message: String,
    pub range: TextRange,
}

/// An error as a value.
pub struct SyntaxErrorView {
    pub message: Seq<char>,
    pub range: TextRange,
}

impl View for SyntaxError {
    type V = SyntaxErrorView;

    open spec fn view(&self) -> SyntaxErrorView {
        SyntaxErrorView { message: self.message@, range: self.range }
    }
}

impl SyntaxError {
    pub fn new(message: &str, range: TextRange) -> (r: SyntaxError)
        ensures
            r@ == (SyntaxErrorView { message: message@, range }),
    {
        SyntaxError { message: message.to_owned(), range }
    }

    /// An error at a point of the text.
    pub fn new_at_offset(message: &str, offset: u32) -> (r: SyntaxError)
        ensures
            r@ == (SyntaxErrorView { message: message@, range: TextRange { start: offset, end: offset } }),
    {
        SyntaxError { message: message.to_owned(), range: TextRange { start: offset, end: offset } }
    }
}

/// The errors as values, in order.
pub open spec fn error_views(errors: Seq<SyntaxError>) -> Seq<SyntaxErrorView> {
    Seq::new(errors.len(), |i: int| errors[i]@)
}

/// The views of errors with one more are the views with one more.
proof fn lemma_error_views_push(errors: Seq<SyntaxError>, e: SyntaxError)
    ensures
        error_views(errors.push(e)) == error_views(errors).push(e@),
{
    assert(error_views(errors.push(e)) =~= error_views(errors).push(e@));
}

/// The span of `size` bytes from `start` on.
pub open spec fn range_of(start: nat, size: nat) -> TextRange {
    TextRange { start: start as u32, end: (start + size) as u32 }
}

/// The span of a node in the text of its tree.
pub open spec fn text_range_of(node: NodeView) -> TextRange {
    range_of(node.offset(), node.green().size())
}

/// The span of a node in the text of its tree, for a tree whose text has
/// no more bytes than 32 bits count.
pub fn text_range(node: &SyntaxNode) -> (r: TextRange)
    requires
        node@.root.size() <= u32::MAX,
    ensures
        r == text_range_of(node@),
{
    let start = node.text_offset();
    let size = node.green().byte_size();
    TextRange { start: start as u32, end: (start + size) as u32 }
}

/// The position of the last `c` in the first `n` characters of `text`.
pub open spec fn last_index_of(text: Seq<char>, c: char, n: int) -> Option<int>
    decreases n,
{
    if n <= 0 || n > text.len() {
        None
    } else if text[n - 1] == c {
        Some(n - 1)
    } else {
        last_index_of(text, c, n - 1)
    }
}

/// The position of the character that starts at the byte `byte` of `text`,
/// counted on from the character at `k`, which starts at the byte `at`;
/// nothing where the byte is inside a character or past the end.
pub open spec fn char_at_byte(text: Seq<char>, byte: nat, k: int, at: nat) -> Option<int>
    decreases text.len() - k,
{
    if at == byte {
        Some(k)
    } else if at > byte || k < 0 || k >= text.len() {
        None
    } else {
        char_at_byte(text, byte, k + 1, at + utf8_len(text[k]))
    }
}

/// What stands between the first `prefix_len` bytes of `text` and its last
/// `end_delimiter`; nothing where it has no such delimiter, where the
/// delimiter stands inside the prefix, and where the prefix ends inside a
/// character.
pub open spec fn unquoted(text: Seq<char>, prefix_len: nat, end_delimiter: char) -> Option<Seq<char>> {
    match (
        last_index_of(text, end_delimiter, text.len() as int),
        char_at_byte(text, prefix_len, 0, 0),
    ) {
        (Some(end), Some(start)) => if start <= end {
            Some(text.subrange(start, end))
        } else {
            None
        },
        _ => None,
    }
}

/// What stands between the first `prefix_len` bytes of `text` and its last
/// `end_delimiter`.
pub fn unquote(text: &[char], prefix_len: usize, end_delimiter: char) -> (r: Option<Vec<char>>)
    ensures
        match r {
            Some(inner) => unquoted(text@, prefix_len as nat, end_delimiter) == Some(inner@),
            None => unquoted(text@, prefix_len as nat, end_delimiter) is None,
        },
{
    let mut end: usize = text.len();
    while end > 0 && text[end - 1] != end_delimiter
        invariant
            end <= text@.len(),
            last_index_of(text@, end_delimiter, text@.len() as int) == last_index_of(
                text@,
                end_delimiter,
                end as int,
            ),
        decreases end,
    {
        end = end - 1;
    }
    if end == 0 {
        return None;
    }
    let end = end - 1;
    let mut start: usize = 0;
    let mut at: usize = 0;
    while at < prefix_len && start < text.len()
        invariant
            start <= text@.len(),
            at <= prefix_len,
            char_at_byte(text@, prefix_len as nat, 0, 0) == char_at_byte(
                text@,
                prefix_len as nat,
                start as int,
                at as nat,
            ),
        decreases text@.len() - start,
    {
        let width = len_utf8(text[start]);
        if width > prefix_len - at {
            // the prefix ends inside this character
            proof {
                assert(char_at_byte(
                    text@,
                    prefix_len as nat,
                    start + 1,
                    (at + width) as nat,
                ) is None);
            }
            return None;
        }
        at = at + width;
        start = start + 1;
    }
    if at != prefix_len || start > end {
        return None;
    }
    let mut inner: Vec<char> = Vec::new();
    let mut i: usize = start;
    while i < end
        invariant
            start <= i <= end < text@.len(),
            inner@ == text@.subrange(start as int, i as int),
        decreases end - i,
    {
        inner.push(text[i]);
        assert(inner@ =~= text@.subrange(start as int, i + 1));
        i = i + 1;
    }
    Some(inner)
}

/// The error for an escape that is wrong at the byte `off` of what a
/// literal holds between its quotes, after a prefix of `prefix_len` bytes,
/// in a token that starts at the byte `token_start` of the text.
pub open spec fn escape_error_at(token_start: nat, prefix_len: nat, off: usize, err: EscapeError) -> SyntaxErrorView {
    SyntaxErrorView {
        message: escape_error_message(err),
        range: range_of((token_start + off + prefix_len) as nat, 0),
    }
}

/// The error for an escape, for a position that 32 bits hold.
pub fn escape_error(token_start: usize, prefix_len: usize, off: usize, err: &EscapeError) -> (r:
    SyntaxError)
    requires
        token_start + off + prefix_len <= u32::MAX,
    ensures
        r@ == escape_error_at(token_start as nat, prefix_len as nat, off, *err),
{
    let at = token_start + off + prefix_len;
    SyntaxError::new_at_offset(rustc_unescape_error_to_string(err), at as u32)
}

/// Zero or one error: the one of a result that is an error, as far as 32
/// bits hold its position.
pub open spec fn error_of<T>(
    result: Result<T, (usize, EscapeError)>,
    token_start: nat,
    prefix_len: nat,
) -> Seq<SyntaxErrorView> {
    match result {
        Err((off, err)) => if token_start + off + prefix_len <= u32::MAX {
            seq![escape_error_at(token_start, prefix_len, off, err)]
        } else {
            Seq::empty()
        },
        Ok(_) => Seq::empty(),
    }
}

/// The errors among the first `n` of `results`, in order.
pub open spec fn errors_of<T>(
    results: Seq<(usize, Result<T, EscapeError>)>,
    n: int,
    token_start: nat,
    prefix_len: nat,
) -> Seq<SyntaxErrorView>
    decreases n,
{
    if n <= 0 || n > results.len() {
        Seq::empty()
    } else {
        errors_of(results, n - 1, token_start, prefix_len) + (match results[n - 1].1 {
            Err(err) => error_of::<T>(Err((results[n - 1].0, err)), token_start, prefix_len),
            Ok(_) => Seq::empty(),
        })
    }
}

/// The errors in the escapes of a literal's token of the kind `kind` with
/// the text `text`, which starts at the byte `token_start`.
pub open spec fn token_errors(kind: SyntaxKind, text: Seq<char>, token_start: nat) -> Seq<SyntaxErrorView> {
    match kind {
        SyntaxKind::BYTE => match unquoted(text, 2, '\'') {
            Some(inner) => error_of(unescaped_byte(inner), token_start, 2),
            None => Seq::empty(),
        },
        SyntaxKind::CHAR => match unquoted(text, 1, '\'') {
            Some(inner) => error_of(unescaped_char(inner), token_start, 1),
            None => Seq::empty(),
        },
        SyntaxKind::BYTE_STRING => match unquoted(text, 2, '"') {
            Some(inner) => errors_of(
                unescaped_byte_str(inner),
                unescaped_byte_str(inner).len() as int,
                token_start,
                2,
            ),
            None => Seq::empty(),
        },
        SyntaxKind::STRING => match unquoted(text, 1, '"') {
            Some(inner) => errors_of(
                unescaped_str(inner),
                unescaped_str(inner).len() as int,
                token_start,
                1,
            ),
            None => Seq::empty(),
        },
        _ => Seq::empty(),
    }
}

/// The property of being what a literal is read from: neither an
/// attribute nor blank space nor a comment.
pub open spec fn literal_part() -> spec_fn(Tree) -> bool {
    |t: Tree| t.kind() != SyntaxKind::ATTR && !t.kind().spec_is_trivia()
}

/// The errors in the escapes of a literal. A literal whose first part is no
/// token has none.
pub open spec fn literal_errors(literal: NodeView) -> Seq<SyntaxErrorView> {
    let cs = literal.children();
    match first_where(cs, literal_part(), 0) {
        Some(k) => if cs[k] is Token {
            token_errors(
                cs[k].kind(),
                cs[k].token_text(),
                literal.offset() + utf8_size(Tree::texts(cs, k)),
            )
        } else {
            Seq::empty()
        },
        None => Seq::empty(),
    }
}

/// Whether a child of the kind `kind` is what a literal is read from.
fn is_literal_part(kind: SyntaxKind) -> (r: bool)
    ensures
        r == (kind != SyntaxKind::ATTR && !kind.spec_is_trivia()),
{
    kind != SyntaxKind::ATTR && !kind.is_trivia()
}

/// Appends the error of `result`, where it is one: what unescaping a
/// character or a byte literal gave, for a token that starts at the byte
/// `token_start` and has a prefix of `prefix_len` bytes before what is
/// unescaped. An error whose position 32 bits do not hold is passed over.
pub fn push_error_of<T>(
    result: &Result<T, (usize, EscapeError)>,
    token_start: usize,
    prefix_len: usize,
    acc: &mut Vec<SyntaxError>,
)
    ensures
        error_views(final(acc)@) == error_views(old(acc)@) + error_of(
            *result,
            token_start as nat,
            prefix_len as nat,
        ),
{
    proof {
        assert(error_views(acc@) =~= error_views(old(acc)@) + Seq::<SyntaxErrorView>::empty());
    }
    if let Err((off, err)) = result {
        if fits(token_start, prefix_len, *off) {
            let e = escape_error(token_start, prefix_len, *off, err);
            proof {
                lemma_error_views_push(acc@, e);
            }
            acc.push(e);
            proof {
                assert(error_views(acc@) =~= error_views(old(acc)@) + seq![e@]);
            }
        }
    }
}

/// Whether 32 bits hold the position of the byte `off` after a prefix of
/// `prefix_len` bytes in a token that starts at the byte `token_start`.
fn fits(token_start: usize, prefix_len: usize, off: usize) -> (r: bool)
    ensures
        r == (token_start + off + prefix_len <= u32::MAX),
{
    token_start <= 0xffff_ffff && prefix_len <= 0xffff_ffff && off <= 0xffff_ffff && (
    token_start as u64) + (prefix_len as u64) + (off as u64) <= 0xffff_ffff
}

/// Appends the errors among `results`, in order: what unescaping a string
/// or a byte string literal gave, piece by piece, for a token that starts at
/// the byte `token_start` and has a prefix of `prefix_len` bytes before
/// what is unescaped. An error whose position 32 bits do not hold is passed
/// over.
pub fn push_errors_of<T>(
    results: &Vec<(usize, Result<T, EscapeError>)>,
    token_start: usize,
    prefix_len: usize,
    acc: &mut Vec<SyntaxError>,
)
    ensures
        error_views(final(acc)@) == error_views(old(acc)@) + errors_of(
            results@,
            results@.len() as int,
            token_start as nat,
            prefix_len as nat,
        ),
{
    let mut i: usize = 0;
    proof {
        assert(error_views(acc@) =~= error_views(old(acc)@) + Seq::<SyntaxErrorView>::empty());
    }
    while i < results.len()
        invariant
            i <= results@.len(),
            error_views(acc@) == error_views(old(acc)@) + errors_of(
                results@,
                i as int,
                token_start as nat,
                prefix_len as nat,
            ),
        decreases results@.len() - i,
    {
        let off = results[i].0;
        if let Err(err) = &results[i].1 {
            if fits(token_start, prefix_len, off) {
                let e = escape_error(token_start, prefix_len, off, err);
                proof {
                    lemma_error_views_push(acc@, e);
                }
                acc.push(e);
            }
        }
        proof {
            assert(error_views(acc@) =~= error_views(old(acc)@) + errors_of(
                results@,
                i + 1,
                token_start as nat,
                prefix_len as nat,
            ));
        }
        i = i + 1;
    }
}

/// Looks for wrong escapes in a literal and appends an error for each,
/// at the byte where the escape goes wrong.
pub fn validate_literal(literal: Literal, acc: &mut Vec<SyntaxError>)
    requires
        literal@.root.size() <= u32::MAX,
    ensures
        error_views(final(acc)@) == error_views(old(acc)@) + literal_errors(literal@),
{
    let syntax = literal.syntax();
    let children = syntax.children_with_tokens();
    let offset = syntax.text_offset();
    proof {
        assert(error_views(acc@) =~= error_views(old(acc)@) + Seq::<SyntaxErrorView>::empty());
        assert(literal@.green().size() == utf8_size(
            Tree::texts(literal@.children(), literal@.children().len() as int),
        ));
    }
    let mut k: usize = 0;
    let mut token_start: usize = offset;
    while k < children.len() && !is_literal_part(children[k].kind())
        invariant
            k <= children@.len(),
            trees(children@) == literal@.children(),
            offset + utf8_size(Tree::texts(literal@.children(), children@.len() as int))
                <= u32::MAX,
            token_start == offset + utf8_size(Tree::texts(literal@.children(), k as int)),
            forall|j: int| 0 <= j < k ==> !literal_part()(#[trigger] literal@.children()[j]),
        decreases children@.len() - k,
    {
        proof {
            assert(literal@.children()[k as int] == children@[k as int]@);
            lemma_texts_grow(literal@.children(), k as int, children@.len() as int);
        }
        token_start = token_start + children[k].byte_size();
        k = k + 1;
    }
    if k >= children.len() {
        proof {
            lemma_first_where_none(literal@.children(), literal_part(), 0);
        }
        return ;
    }
    proof {
        assert(literal@.children()[k as int] == children@[k as int]@);
        lemma_first_where_found(literal@.children(), literal_part(), 0, k as int);
        lemma_texts_grow(literal@.children(), k as int, children@.len() as int);
    }
    let token = match &children[k] {
        GreenElement::Token(t) => t,
        GreenElement::Node(_) => {
            return ;
        },
    };
    let text = token.text.as_slice();
    match token.kind {
        SyntaxKind::BYTE => {
            if let Some(inner) = unquote(text, 2, '\'') {
                let inner = string_of(inner.as_slice());
                push_error_of(&unescape_byte(inner.as_str()), token_start, 2, acc);
            }
        },
        SyntaxKind::CHAR => {
            if let Some(inner) = unquote(text, 1, '\'') {
                let inner = string_of(inner.as_slice());
                push_error_of(&unescape_char(inner.as_str()), token_start, 1, acc);
            }
        },
        SyntaxKind::BYTE_STRING => {
            if let Some(inner) = unquote(text, 2, '"') {
                let inner = string_of(inner.as_slice());
                push_errors_of(&unescape_byte_str(inner.as_str()), token_start, 2, acc);
            }
        },
        SyntaxKind::STRING => {
            if let Some(inner) = unquote(text, 1, '"') {
                let inner = string_of(inner.as_slice());
                push_errors_of(&unescape_str(inner.as_str()), token_start, 1, acc);
            }
        },
        _ => {},
    }
}

/// Whether `c` is one of `0` to `9`.
pub open spec fn is_digit(c: char) -> bool {
    '0' <= c <= '9'
}

/// Whether the text holds digits only.
pub open spec fn all_digits(text: Seq<char>) -> bool {
    forall|i: int| 0 <= i < text.len() ==> is_digit(#[trigger] text[i])
}

/// The error for a name that is written as a number and is no plain
/// decimal number: the name of a tuple field holds digits only.
pub open spec fn numeric_name_errors(name_ref: Option<NodeView>) -> Seq<SyntaxErrorView> {
    match name_ref {
        Some(name) => {
            let inner = name.children();
            if inner.len() > 0 && inner[0] is Token && inner[0].kind() == SyntaxKind::INT_NUMBER
                && !all_digits(inner[0].token_text()) {
                seq![
                    SyntaxErrorView {
                        message: "Tuple (struct) field access is only allowed through decimal integers with no underscores or suffix"@,
                        range: range_of(name.offset(), utf8_size(inner[0].token_text())),
                    },
                ]
            } else {
                Seq::empty()
            }
        },
        None => Seq::empty(),
    }
}

/// Appends an error where `name_ref` is written as a number with anything
/// but digits in it.
pub fn validate_numeric_name(name_ref: Option<NameRef>, errors: &mut Vec<SyntaxError>)
    requires
        name_ref matches Some(name) ==> name@.root.size() <= u32::MAX,
    ensures
        error_views(final(errors)@) == error_views(old(errors)@) + numeric_name_errors(
            match name_ref {
                Some(name) => Some(name@),
                None => None,
            },
        ),
{
    proof {
        assert(error_views(errors@) =~= error_views(old(errors)@) + Seq::<SyntaxErrorView>::empty());
    }
    let name = match name_ref {
        Some(name) => name,
        None => {
            return ;
        },
    };
    let syntax = name.syntax();
    let children = syntax.children_with_tokens();
    if children.len() == 0 {
        return ;
    }
    proof {
        assert(name@.children()[0] == children@[0]@);
    }
    let int_token = match &children[0] {
        GreenElement::Token(t) => {
            if t.kind == SyntaxKind::INT_NUMBER {
                t
            } else {
                return ;
            }
        },
        GreenElement::Node(_) => {
            return ;
        },
    };
    let mut i: usize = 0;
    while i < int_token.text.len() && '0' <= int_token.text[i] && int_token.text[i] <= '9'
        invariant
            i <= int_token.text@.len(),
            forall|j: int| 0 <= j < i ==> is_digit(#[trigger] int_token.text@[j]),
        decreases int_token.text@.len() - i,
    {
        i = i + 1;
    }
    if i < int_token.text.len() {
        proof {
            assert(!is_digit(int_token.text@[i as int]));
            lemma_texts_grow(name@.children(), 0, name@.children().len() as int);
            assert(Tree::texts(name@.children(), 1) =~= int_token.text@) by {
                assert(Tree::texts(name@.children(), 0) =~= Seq::<char>::empty());
            }
        }
        let start = syntax.text_offset();
        let size = byte_size(int_token.text.as_slice());
        let e = SyntaxError::new(
            "Tuple (struct) field access is only allowed through decimal integers with no underscores or suffix",
            TextRange { start: start as u32, end: (start + size) as u32 },
        );
        proof {
            lemma_error_views_push(errors@, e);
        }
        errors.push(e);
        proof {
            assert(error_views(errors@) =~= error_views(old(errors)@) + seq![e@]);
        }
    }
}

/// Whether an impl names a trait: it holds two types, the trait and the
/// type that the trait is implemented for.
pub open spec fn has_target_trait(impl_def: NodeView) -> bool {
    first_where(impl_def.children(), castable::<TypeRef>(), 0) matches Some(first) && first_where(
        impl_def.children(),
        castable::<TypeRef>(),
        first + 1,
    ) is Some
}

/// Whether a node of the kind `kind` is an item that an impl can hold.
pub open spec fn is_impl_item(kind: SyntaxKind) -> bool {
    kind == SyntaxKind::FN_DEF || kind == SyntaxKind::CONST_DEF || kind
        == SyntaxKind::TYPE_ALIAS_DEF
}

/// The error for a visibility on an item of an impl of a trait, where
/// none is allowed: the items are as visible as the trait.
pub open spec fn visibility_errors(vis: NodeView) -> Seq<SyntaxErrorView> {
    match (vis.ancestor(1), vis.ancestor(3)) {
        (Some(parent), Some(great)) => if is_impl_item(parent.kind()) && great.kind()
            == SyntaxKind::IMPL_DEF && has_target_trait(great) {
            seq![
                SyntaxErrorView {
                    message: "Unnecessary visibility qualifier"@,
                    range: text_range_of(vis),
                },
            ]
        } else {
            Seq::empty()
        },
        _ => Seq::empty(),
    }
}

/// Appends an error where `vis` stands on an item of an impl of a trait.
pub fn validate_visibility(vis: Visibility, errors: &mut Vec<SyntaxError>)
    requires
        vis@.root.size() <= u32::MAX,
    ensures
        error_views(final(errors)@) == error_views(old(errors)@) + visibility_errors(vis@),
{
    proof {
        assert(error_views(errors@) =~= error_views(old(errors)@) + Seq::<SyntaxErrorView>::empty());
    }
    let syntax = vis.syntax();
    let parent = match syntax.parent() {
        Some(it) => it,
        None => {
            return ;
        },
    };
    proof {
        assert(vis@.path.subrange(0, vis@.path.len() - 1) =~= vis@.path.drop_last());
    }
    match parent.kind() {
        SyntaxKind::FN_DEF | SyntaxKind::CONST_DEF | SyntaxKind::TYPE_ALIAS_DEF => {},
        _ => {
            return ;
        },
    }
    let grand = match parent.parent() {
        Some(it) => it,
        None => {
            return ;
        },
    };
    let great = match grand.parent() {
        Some(it) => it,
        None => {
            return ;
        },
    };
    proof {
        assert(vis@.path.subrange(0, vis@.path.len() - 3) =~= vis@.path.drop_last().drop_last().drop_last());
    }
    let impl_def = match ImplDef::cast(great) {
        Some(it) => it,
        None => {
            return ;
        },
    };
    let children = impl_def.syntax().children_with_tokens();
    let has_trait = match find_child::<TypeRef>(children, 0) {
        Some(first) => find_child::<TypeRef>(children, first + 1).is_some(),
        None => false,
    };
    if has_trait {
        let e = SyntaxError::new("Unnecessary visibility qualifier", text_range(syntax));
        proof {
            lemma_error_views_push(errors@, e);
        }
        errors.push(e);
        proof {
            assert(error_views(errors@) =~= error_views(old(errors)@) + seq![e@]);
        }
    }
}

/// The property of being the operator of a range.
pub open spec fn range_op() -> spec_fn(Tree) -> bool {
    |t: Tree| t is Token && (t.kind() == SyntaxKind::DOTDOT || t.kind() == SyntaxKind::DOTDOTEQ)
}

/// The error for a range that includes its end and has none: `a..=`.
pub open spec fn range_errors(expr: NodeView) -> Seq<SyntaxErrorView> {
    let cs = expr.children();
    match first_where(cs, range_op(), 0) {
        Some(op) => if cs[op].kind() == SyntaxKind::DOTDOTEQ && first_where(
            cs,
            castable::<Expr>(),
            op + 1,
        ) is None {
            seq![
                SyntaxErrorView {
                    message: "An inclusive range must have an end expression"@,
                    range: text_range_of(expr),
                },
            ]
        } else {
            Seq::empty()
        },
        None => Seq::empty(),
    }
}

/// Whether `element` is the operator of a range.
fn is_range_op(element: &GreenElement) -> (r: bool)
    ensures
        r == range_op()(element@),
{
    match element {
        GreenElement::Token(t) => t.kind == SyntaxKind::DOTDOT || t.kind == SyntaxKind::DOTDOTEQ,
        GreenElement::Node(_) => false,
    }
}

/// Appends an error where `expr` includes its end and has none.
pub fn validate_range_expr(expr: RangeExpr, errors: &mut Vec<SyntaxError>)
    requires
        expr@.root.size() <= u32::MAX,
    ensures
        error_views(final(errors)@) == error_views(old(errors)@) + range_errors(expr@),
{
    proof {
        assert(error_views(errors@) =~= error_views(old(errors)@) + Seq::<SyntaxErrorView>::empty());
    }
    let syntax = expr.syntax();
    let children = syntax.children_with_tokens();
    let mut i: usize = 0;
    while i < children.len() && !is_range_op(&children[i])
        invariant
            trees(children@) == expr@.children(),
            forall|j: int| 0 <= j < i && j < children@.len() ==> !range_op()(
                #[trigger] expr@.children()[j],
            ),
        decreases children@.len() - i,
    {
        proof {
            assert(expr@.children()[i as int] == children@[i as int]@);
        }
        i = i + 1;
    }
    if i >= children.len() {
        proof {
            lemma_first_where_none(expr@.children(), range_op(), 0);
        }
        return ;
    }
    proof {
        assert(expr@.children()[i as int] == children@[i as int]@);
        lemma_first_where_found(expr@.children(), range_op(), 0, i as int);
    }
    if children[i].kind() == SyntaxKind::DOTDOTEQ && find_child::<Expr>(children, i + 1).is_none() {
        let e = SyntaxError::new(
            "An inclusive range must have an end expression",
            text_range(syntax),
        );
        proof {
            lemma_error_views_push(errors@, e);
        }
        errors.push(e);
        proof {
            assert(error_views(errors@) =~= error_views(old(errors)@) + seq![e@]);
        }
    }
}

/// The first child of `owner` that is a name reference, in its place.
pub open spec fn name_ref_of(owner: NodeView) -> Option<NodeView> {
    match first_where(owner.children(), castable::<NameRef>(), 0) {
        Some(i) => Some(owner.child(i)),
        None => None,
    }
}

impl FieldExpr {
    /// The name of the field that is accessed.
    pub fn name_ref(&self) -> (r: Option<NameRef>)
        ensures
            match r {
                Some(name) => name_ref_of(self@) == Some(name@),
                None => name_ref_of(self@) is None,
            },
    {
        child::<NameRef>(self.syntax())
    }
}

impl RecordField {
    /// The name of the field that is given a value.
    pub fn name_ref(&self) -> (r: Option<NameRef>)
        ensures
            match r {
                Some(name) => name_ref_of(self@) == Some(name@),
                None => name_ref_of(self@) is None,
            },
    {
        child::<NameRef>(self.syntax())
    }
}

/// The errors about the node itself, by its kind.
pub open spec fn node_errors(node: NodeView) -> Seq<SyntaxErrorView> {
    match node.kind() {
        SyntaxKind::LITERAL => literal_errors(node),
        SyntaxKind::FIELD_EXPR => numeric_name_errors(name_ref_of(node)),
        SyntaxKind::RECORD_FIELD => numeric_name_errors(name_ref_of(node)),
        SyntaxKind::VISIBILITY => visibility_errors(node),
        SyntaxKind::RANGE_EXPR => range_errors(node),
        _ => Seq::empty(),
    }
}

/// The errors about the tree `t`, which `path` leads to from `root`: those
/// about the node itself, then those about its children from left to
/// right.
pub open spec fn errors_in(root: Tree, t: Tree, path: Seq<int>) -> Seq<SyntaxErrorView>
    decreases t,
{
    match t {
        Tree::Token { .. } => Seq::empty(),
        Tree::Node { children, .. } => node_errors(NodeView { root, path }) + children_errors(
            root,
            children,
            children.len() as int,
            path,
        ),
    }
}

/// The errors about the first `n` of the children `trees` of the node that
/// `path` leads to.
pub open spec fn children_errors(root: Tree, trees: Seq<Tree>, n: int, path: Seq<int>) -> Seq<
    SyntaxErrorView,
>
    decreases trees, n,
{
    if n <= 0 || n > trees.len() {
        Seq::empty()
    } else {
        children_errors(root, trees, n - 1, path) + errors_in(root, trees[n - 1], path.push(n - 1))
    }
}

/// The errors about `root` and everything inside it, node by node in the
/// order of the text. The call is for a tree whose text has no more bytes
/// than 32 bits count.
pub fn validate(root: &SyntaxNode) -> (errors: Vec<SyntaxError>)
    requires
        root@.root.size() <= u32::MAX,
    ensures
        error_views(errors@) == errors_in(root@.root, root@.green(), root@.path),
{
    let mut errors: Vec<SyntaxError> = Vec::new();
    validate_in(root, &mut errors);
    proof {
        assert(error_views(Seq::<SyntaxError>::empty()) =~= Seq::<SyntaxErrorView>::empty());
    }
    errors
}

/// Appends the errors about `node` and everything inside it.
fn validate_in(node: &SyntaxNode, errors: &mut Vec<SyntaxError>)
    requires
        node@.root.size() <= u32::MAX,
    ensures
        error_views(final(errors)@) == error_views(old(errors)@) + errors_in(
            node@.root,
            node@.green(),
            node@.path,
        ),
    decreases node@.green(),
{
    let kind = node.kind();
    proof {
        assert(error_views(errors@) =~= error_views(old(errors)@) + Seq::<SyntaxErrorView>::empty());
    }
    match kind {
        SyntaxKind::LITERAL => {
            if let Some(it) = Literal::cast(node.share()) {
                validate_literal(it, errors);
            }
        },
        SyntaxKind::FIELD_EXPR => {
            if let Some(it) = FieldExpr::cast(node.share()) {
                validate_numeric_name(it.name_ref(), errors);
            }
        },
        SyntaxKind::RECORD_FIELD => {
            if let Some(it) = RecordField::cast(node.share()) {
                validate_numeric_name(it.name_ref(), errors);
            }
        },
        SyntaxKind::VISIBILITY => {
            if let Some(it) = Visibility::cast(node.share()) {
                validate_visibility(it, errors);
            }
        },
        SyntaxKind::RANGE_EXPR => {
            if let Some(it) = RangeExpr::cast(node.share()) {
                validate_range_expr(it, errors);
            }
        },
        _ => {},
    }
    let children = node.children_with_tokens();
    let ghost own = error_views(errors@);
    let mut i: usize = 0;
    proof {
        assert(error_views(errors@) =~= own + children_errors(
            node@.root,
            node@.children(),
            0,
            node@.path,
        ));
    }
    while i < children.len()
        invariant
            i <= children@.len(),
            node@.wf(),
            node@.root.size() <= u32::MAX,
            trees(children@) == node@.children(),
            error_views(errors@) == own + children_errors(
                node@.root,
                node@.children(),
                i as int,
                node@.path,
            ),
        decreases children@.len() - i,
    {
        proof {
            assert(node@.children()[i as int] == children@[i as int]@);
        }
        let ghost before = error_views(errors@);
        let ghost step = errors_in(
            node@.root,
            node@.children()[i as int],
            node@.path.push(i as int),
        );
        if let Some(c) = node.child(i) {
            validate_in(&c, errors);
            proof {
                assert(error_views(errors@) == before + step);
            }
        } else {
            proof {
                assert(node@.children()[i as int] is Token);
                assert(before =~= before + step);
            }
        }
        proof {
            assert(children_errors(node@.root, node@.children(), i + 1, node@.path)
                == children_errors(node@.root, node@.children(), i as int, node@.path) + step);
            assert(error_views(errors@) =~= own + children_errors(
                node@.root,
                node@.children(),
                i + 1,
                node@.path,
            ));
        }
        i = i + 1;
    }
}

/// Whether a node stands after the place `path` among the children of its
/// parent.
pub open spec fn has_next_sibling(root: Tree, path: Seq<int>) -> bool {
    path.len() > 0 && (root.at(path.drop_last()) matches Some(parent) && exists|j: int|
        path.last() < j < parent.children().len() && #[trigger] parent.children()[j] is Node)
}

/// Whether a node stands before the place `path` among the children of its
/// parent.
pub open spec fn has_prev_sibling(root: Tree, path: Seq<int>) -> bool {
    path.len() > 0 && (root.at(path.drop_last()) matches Some(parent) && exists|j: int|
        0 <= j < path.last() && j < parent.children().len() && #[trigger] parent.children()[j]
            is Node)
}

/// Whether an opening brace at `open` and a closing brace at `close` make
/// a pair: they have one parent, nothing follows the closing brace there
/// and nothing stands before the opening one.
pub open spec fn is_pair(root: Tree, open: Seq<int>, close: Seq<int>) -> bool {
    &&& open.len() == close.len()
    &&& (open.len() > 0 ==> open.drop_last() == close.drop_last())
    &&& !has_next_sibling(root, close)
    &&& !has_prev_sibling(root, open)
}

/// The braces that are still open, innermost last, and whether every pair
/// so far was one.
pub struct Braces {
    pub open: Seq<Seq<int>>,
    pub paired: bool,
}

/// The braces after the node at `path` is met.
pub open spec fn met(root: Tree, path: Seq<int>, braces: Braces) -> Braces {
    match root.at(path) {
        Some(node) => if node.kind() == SyntaxKind::L_CURLY {
            Braces { open: braces.open.push(path), paired: braces.paired }
        } else if node.kind() == SyntaxKind::R_CURLY && braces.open.len() > 0 {
            Braces {
                open: braces.open.drop_last(),
                paired: braces.paired && is_pair(root, braces.open.last(), path),
            }
        } else {
            braces
        },
        None => braces,
    }
}

/// The braces after the tree `t`, which `path` leads to from `root`, is
/// walked node by node in the order of the text.
pub open spec fn walked(root: Tree, t: Tree, path: Seq<int>, braces: Braces) -> Braces
    decreases t,
{
    match t {
        Tree::Token { .. } => braces,
        Tree::Node { children, .. } => walked_children(
            root,
            children,
            children.len() as int,
            path,
            met(root, path, braces),
        ),
    }
}

/// The braces after the first `n` of the children `trees` of the node that
/// `path` leads to are walked.
pub open spec fn walked_children(root: Tree, trees: Seq<Tree>, n: int, path: Seq<int>, braces: Braces) -> Braces
    decreases trees, n,
{
    if n <= 0 || n > trees.len() {
        braces
    } else {
        walked(
            root,
            trees[n - 1],
            path.push(n - 1),
            walked_children(root, trees, n - 1, path, braces),
        )
    }
}

/// The places of nodes, in order.
pub open spec fn places(nodes: Seq<SyntaxNode>) -> Seq<Seq<int>> {
    Seq::new(nodes.len(), |i: int| nodes[i]@.path)
}

/// Whether a node follows `node` among the children of its parent.
fn next_sibling_exists(node: &SyntaxNode) -> (r: bool)
    ensures
        r == has_next_sibling(node@.root, node@.path),
{
    let parent = match node.parent() {
        Some(p) => p,
        None => {
            return false;
        },
    };
    let index = match node.index_in_parent() {
        Some(i) => i,
        None => {
            return false;
        },
    };
    let children = parent.children_with_tokens();
    proof {
        use_type_invariant(node);
        lemma_at_push(node@.root, parent@.path, index as int);
        assert(node@.path =~= parent@.path.push(index as int));
        assert(index < parent@.children().len());
        assert(trees(children@).len() == children@.len());
    }
    let mut j: usize = index + 1;
    while j < children.len()
        invariant
            index < j,
            node@.path.len() > 0,
            index == node@.path.last(),
            parent@.wf(),
            parent@.root == node@.root,
            parent@.path == node@.path.drop_last(),
            trees(children@) == parent@.children(),
            forall|k: int| index < k < j && k < children@.len() ==> !(
            #[trigger] parent@.children()[k] is Node),
        decreases children@.len() - j,
    {
        proof {
            assert(parent@.children()[j as int] == children@[j as int]@);
        }
        if let GreenElement::Node(_) = &children[j] {
            return true;
        }
        j = j + 1;
    }
    false
}

/// Whether a node stands before `node` among the children of its parent.
fn prev_sibling_exists(node: &SyntaxNode) -> (r: bool)
    ensures
        r == has_prev_sibling(node@.root, node@.path),
{
    let parent = match node.parent() {
        Some(p) => p,
        None => {
            return false;
        },
    };
    let index = match node.index_in_parent() {
        Some(i) => i,
        None => {
            return false;
        },
    };
    let children = parent.children_with_tokens();
    proof {
        lemma_at_push(node@.root, parent@.path, index as int);
    }
    let mut j: usize = 0;
    while j < index && j < children.len()
        invariant
            j <= index,
            node@.path.len() > 0,
            index == node@.path.last(),
            parent@.wf(),
            parent@.root == node@.root,
            parent@.path == node@.path.drop_last(),
            trees(children@) == parent@.children(),
            forall|k: int| 0 <= k < j && k < children@.len() ==> !(
            #[trigger] parent@.children()[k] is Node),
        decreases index - j,
    {
        proof {
            assert(parent@.children()[j as int] == children@[j as int]@);
        }
        if let GreenElement::Node(_) = &children[j] {
            return true;
        }
        j = j + 1;
    }
    false
}

/// Whether the braces of the tree are in their places: walking `root` and
/// everything inside it node by node in the order of the text, every
/// closing brace makes a pair with the opening brace that was met last and
/// is still open. A closing brace that meets none open is passed over.
pub fn validate_block_structure(root: &SyntaxNode) -> (r: bool)
    ensures
        r == walked(
            root@.root,
            root@.green(),
            root@.path,
            Braces { open: Seq::empty(), paired: true },
        ).paired,
{
    let mut stack: Vec<SyntaxNode> = Vec::new();
    let mut paired = true;
    proof {
        assert(places(stack@) =~= Seq::<Seq<int>>::empty());
    }
    walk(root, &mut stack, &mut paired);
    paired
}

/// Walks `node` and everything inside it and keeps the braces that are
/// open in `stack`, all of them nodes of the tree of `node`.
fn walk(node: &SyntaxNode, stack: &mut Vec<SyntaxNode>, paired: &mut bool)
    requires
        forall|i: int| 0 <= i < old(stack)@.len() ==> (#[trigger] old(stack)@[i])@.root
            == node@.root,
    ensures
        forall|i: int| 0 <= i < final(stack)@.len() ==> (#[trigger] final(stack)@[i])@.root
            == node@.root,
        (Braces { open: places(final(stack)@), paired: *final(paired) }) == walked(
            node@.root,
            node@.green(),
            node@.path,
            Braces { open: places(old(stack)@), paired: *old(paired) },
        ),
    decreases node@.green(),
{
    let kind = node.kind();
    let ghost start = Braces { open: places(stack@), paired: *paired };
    match kind {
        SyntaxKind::L_CURLY => {
            stack.push(node.share());
            proof {
                assert(places(stack@) =~= start.open.push(node@.path));
            }
        },
        SyntaxKind::R_CURLY => {
            if let Some(pair) = stack.pop() {
                proof {
                    assert(places(stack@) =~= start.open.drop_last());
                    assert(start.open.last() == pair@.path);
                }
                let same_parent = match (node.parent(), pair.parent()) {
                    (Some(a), Some(b)) => a.same_place(&b),
                    (None, None) => true,
                    _ => false,
                };
                let tight = !next_sibling_exists(node) && !prev_sibling_exists(&pair);
                proof {
                    if pair@.path.len() > 0 && node@.path.len() > 0 {
                        if pair@.path.drop_last() == node@.path.drop_last() {
                            assert(pair@.path.drop_last().len() == node@.path.drop_last().len());
                        }
                    }
                    assert(same_parent == (pair@.path.len() == node@.path.len() && (pair@.path.len()
                        > 0 ==> pair@.path.drop_last() == node@.path.drop_last())));
                }
                *paired = *paired && same_parent && tight;
            }
        },
        _ => {},
    }
    let children = node.children_with_tokens();
    let ghost own = Braces { open: places(stack@), paired: *paired };
    proof {
        assert(own == met(node@.root, node@.path, start));
    }
    let mut i: usize = 0;
    while i < children.len()
        invariant
            i <= children@.len(),
            node@.wf(),
            trees(children@) == node@.children(),
            forall|k: int| 0 <= k < stack@.len() ==> (#[trigger] stack@[k])@.root == node@.root,
            (Braces { open: places(stack@), paired: *paired }) == walked_children(
                node@.root,
                node@.children(),
                i as int,
                node@.path,
                own,
            ),
        decreases children@.len() - i,
    {
        proof {
            assert(node@.children()[i as int] == children@[i as int]@);
        }
        let ghost before = Braces { open: places(stack@), paired: *paired };
        if let Some(c) = node.child(i) {
            walk(&c, stack, paired);
        } else {
            proof {
                assert(node@.children()[i as int] is Token);
            }
        }
        proof {
            assert(walked_children(node@.root, node@.children(), i + 1, node@.path, own) == walked(
                node@.root,
                node@.children()[i as int],
                node@.path.push(i as int),
                before,
            ));
        }
        i = i + 1;
    }
}

} // verus!
