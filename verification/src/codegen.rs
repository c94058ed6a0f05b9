//! The spellings of a name that generated code uses: `UPPER_SNAKE_CASE`
//! for the kinds of syntax, `lower_snake_case` for the methods of a node and
//! `PascalCase` for its type.

use vstd::prelude::*;
use crate::syntax::text::{chars_of, string_of};

verus! {

/// Whether `c` is one of `A` to `Z`.
pub open spec fn is_upper(c: char) -> bool {
    'A' <= c <= 'Z'
}

/// Whether `c` is one of `a` to `z`.
pub open spec fn is_lower(c: char) -> bool {
    'a' <= c <= 'z'
}

/// `c` as a capital letter, where it is one of `a` to `z`.
pub open spec fn upper(c: char) -> char {
    if is_lower(c) {
        ((c as u8) - 32) as char
    } else {
        c
    }
}

/// `c` as a small letter, where it is one of `A` to `Z`.
pub open spec fn lower(c: char) -> char {
    if is_upper(c) {
        ((c as u8) + 32) as char
    } else {
        c
    }
}

/// Whether `c` is one of `A` to `Z`.
pub fn is_ascii_uppercase(c: char) -> (r: bool)
    ensures
        r == is_upper(c),
{
    'A' <= c && c <= 'Z'
}

/// `c` as a capital letter, where it is one of `a` to `z`.
pub fn to_ascii_uppercase(c: char) -> (r: char)
    ensures
        r == upper(c),
{
    if 'a' <= c && c <= 'z' {
        ((c as u8) - 32) as char
    } else {
        c
    }
}

/// `c` as a small letter, where it is one of `A` to `Z`.
pub fn to_ascii_lowercase(c: char) -> (r: char)
    ensures
        r == lower(c),
{
    if 'A' <= c && c <= 'Z' {
        ((c as u8) + 32) as char
    } else {
        c
    }
}

/// The first `n` characters of `s` in snake case: an underscore goes before
/// every capital letter but the first character, and every letter is
/// written large or small as `large` says.
pub open spec fn snake_case(s: Seq<char>, n: int, large: bool) -> Seq<char>
    decreases n,
{
    if n <= 0 || n > s.len() {
        Seq::empty()
    } else {
        let c = s[n - 1];
        let head = snake_case(s, n - 1, large);
        let head = if is_upper(c) && n > 1 {
            head.push('_')
        } else {
            head
        };
        head.push(
            if large {
                upper(c)
            } else {
                lower(c)
            },
        )
    }
}

/// Whether the character after the first `n` of `s` starts a word: it is
/// the first, or it follows an underscore.
pub open spec fn starts_word(s: Seq<char>, n: int) -> bool {
    n <= 0 || (n <= s.len() && s[n - 1] == '_')
}

/// The first `n` characters of `s` in Pascal case: the underscores are
/// left out, the first letter of every word is written large and every
/// other letter small.
pub open spec fn pascal_case(s: Seq<char>, n: int) -> Seq<char>
    decreases n,
{
    if n <= 0 || n > s.len() {
        Seq::empty()
    } else {
        let c = s[n - 1];
        let head = pascal_case(s, n - 1);
        if c == '_' {
            head
        } else if starts_word(s, n - 1) {
            head.push(upper(c))
        } else {
            head.push(lower(c))
        }
    }
}

/// `s` in snake case, in capital letters where `large` is set and in
/// small letters where it is not.
fn to_snake_case(s: &str, large: bool) -> (r: String)
    ensures
        r@ == snake_case(s@, s@.len() as int, large),
{
    let chars = chars_of(s);
    let mut buf: Vec<char> = Vec::new();
    let mut prev = false;
    let mut i: usize = 0;
    while i < chars.len()
        invariant
            i <= chars@.len(),
            prev == (i > 0),
            buf@ == snake_case(chars@, i as int, large),
        decreases chars@.len() - i,
    {
        let c = chars[i];
        if is_ascii_uppercase(c) && prev {
            buf.push('_');
        }
        prev = true;
        if large {
            buf.push(to_ascii_uppercase(c));
        } else {
            buf.push(to_ascii_lowercase(c));
        }
        i = i + 1;
    }
    string_of(buf.as_slice())
}

/// `s` in capital letters, with an underscore before every letter that was
/// a capital already and is not the first character: `FnDef` becomes
/// `FN_DEF`.
pub fn to_upper_snake_case(s: &str) -> (r: String)
    ensures
        r@ == snake_case(s@, s@.len() as int, true),
{
    to_snake_case(s, true)
}

/// `s` in small letters, with an underscore before every letter that was a
/// capital and is not the first character: `FnDef` becomes `fn_def`.
pub fn to_lower_snake_case(s: &str) -> (r: String)
    ensures
        r@ == snake_case(s@, s@.len() as int, false),
{
    to_snake_case(s, false)
}

/// `s` without its underscores, each word with a capital first letter and
/// small letters after it: `FN_DEF` becomes `FnDef`.
pub fn to_pascal_case(s: &str) -> (r: String)
    ensures
        r@ == pascal_case(s@, s@.len() as int),
{
    let chars = chars_of(s);
    let mut buf: Vec<char> = Vec::new();
    let mut prev_is_underscore = true;
    let mut i: usize = 0;
    while i < chars.len()
        invariant
            i <= chars@.len(),
            prev_is_underscore == starts_word(chars@, i as int),
            buf@ == pascal_case(chars@, i as int),
        decreases chars@.len() - i,
    {
        let c = chars[i];
        if c == '_' {
            prev_is_underscore = true;
        } else if prev_is_underscore {
            buf.push(to_ascii_uppercase(c));
            prev_is_underscore = false;
        } else {
            buf.push(to_ascii_lowercase(c));
        }
        i = i + 1;
    }
    string_of(buf.as_slice())
}

} // verus!
