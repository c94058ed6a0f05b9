//! The escapes of character and string literals, read by
//! `rustc_lexer::unescape`.
//!
//! What a literal's text unescapes to is a function of the text alone. It
//! takes pages to state, so each function's result has a name here, and the
//! contracts say no more than that the call returns it.

use vstd::prelude::*;
use rustc_ap_rustc_lexer::unescape::EscapeError;

verus! {

/// `unescape::EscapeError`, a plain enum of the ways in which an escape can
/// be wrong; the declaration lets verified code tell its variants apart.
#[verifier::external_type_specification]
pub struct ExEscapeError(EscapeError);

/// What `unescape_char` returns for the text between the quotes of a
/// character literal: the character, or the first error with the byte at
/// which it was met.
pub uninterp spec fn unescaped_char(text: Seq<char>) -> Result<char, (usize, EscapeError)>;

/// What `unescape_byte` returns for the text between the quotes of a byte
/// literal.
pub uninterp spec fn unescaped_byte(text: Seq<char>) -> Result<u8, (usize, EscapeError)>;

/// What `unescape_str` hands to its callback for the text between the
/// quotes of a string literal: for each character or escape in turn, the
/// byte at which it starts and what it stands for.
pub uninterp spec fn unescaped_str(text: Seq<char>) -> Seq<(usize, Result<char, EscapeError>)>;

/// What `unescape_byte_str` hands to its callback for the text between the
/// quotes of a byte string literal.
pub uninterp spec fn unescaped_byte_str(text: Seq<char>) -> Seq<(usize, Result<u8, EscapeError>)>;

/// `unescape::unescape_char`
#[verifier::external_body]
pub(crate) fn unescape_char(text: &str) -> (r: Result<char, (usize, EscapeError)>)
    ensures
        r == unescaped_char(text@),
{
    rustc_ap_rustc_lexer::unescape::unescape_char(text)
}

/// `unescape::unescape_byte`
#[verifier::external_body]
pub(crate) fn unescape_byte(text: &str) -> (r: Result<u8, (usize, EscapeError)>)
    ensures
        r == unescaped_byte(text@),
{
    rustc_ap_rustc_lexer::unescape::unescape_byte(text)
}

/// `unescape::unescape_str`, with a callback that keeps, for each call, the
/// start of the range and the result.
#[verifier::external_body]
pub(crate) fn unescape_str(text: &str) -> (r: Vec<(usize, Result<char, EscapeError>)>)
    ensures
        r@ == unescaped_str(text@),
{
    let mut out = Vec::new();
    rustc_ap_rustc_lexer::unescape::unescape_str(text, &mut |range, c| out.push((range.start, c)));
    out
}

/// `unescape::unescape_byte_str`, with a callback that keeps, for each
/// call, the start of the range and the result.
#[verifier::external_body]
pub(crate) fn unescape_byte_str(text: &str) -> (r: Vec<(usize, Result<u8, EscapeError>)>)
    ensures
        r@ == unescaped_byte_str(text@),
{
    let mut out = Vec::new();
    rustc_ap_rustc_lexer::unescape::unescape_byte_str(
        text,
        &mut |range, c| out.push((range.start, c)),
    );
    out
}

} // verus!
