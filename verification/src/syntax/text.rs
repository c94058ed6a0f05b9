//! Text as a sequence of characters, and what the edits ask of it.

use vstd::prelude::*;
use crate::ext::shared::push_char;

verus! {

/// The characters of `s`.
pub fn chars_of(s: &str) -> (v: Vec<char>)
    ensures
        v@ == s@,
{
    let n = s.unicode_len();
    let mut v: Vec<char> = Vec::new();
    let mut i: usize = 0;
    while i < n
        invariant
            i <= n,
            n == s@.len(),
            v@ == s@.subrange(0, i as int),
        decreases n - i,
    {
        v.push(s.get_char(i));
        assert(v@ =~= s@.subrange(0, i + 1));
        i = i + 1;
    }
    assert(s@.subrange(0, n as int) =~= s@);
    v
}

/// The string of the characters `chars`.
pub fn string_of(chars: &[char]) -> (s: String)
    ensures
        s@ == chars@,
{
    let mut s = String::new();
    let mut i: usize = 0;
    while i < chars.len()
        invariant
            i <= chars@.len(),
            s@ == chars@.subrange(0, i as int),
        decreases chars@.len() - i,
    {
        push_char(&mut s, chars[i]);
        assert(s@ =~= chars@.subrange(0, i + 1));
        i = i + 1;
    }
    assert(chars@.subrange(0, i as int) =~= chars@);
    s
}

/// Whether the text holds a line break.
pub open spec fn has_newline(text: Seq<char>) -> bool {
    text.contains('\n')
}

/// Whether the text holds a line break.
pub fn contains_newline(text: &[char]) -> (r: bool)
    ensures
        r == has_newline(text@),
{
    let mut i: usize = 0;
    while i < text.len()
        invariant
            i <= text@.len(),
            forall|j: int| 0 <= j < i ==> text@[j] != '\n',
        decreases text@.len() - i,
    {
        if text[i] == '\n' {
            return true;
        }
        i = i + 1;
    }
    false
}

/// What follows the last line break of the text; all of it where it holds
/// none.
pub open spec fn after_last_newline(text: Seq<char>) -> Seq<char>
    decreases text.len(),
{
    if text.len() == 0 {
        text
    } else if text.last() == '\n' {
        Seq::empty()
    } else {
        after_last_newline(text.drop_last()).push(text.last())
    }
}

/// What follows the last line break stands at the end of the text, after a
/// line break or at the start, and holds no line break.
pub proof fn lemma_after_last_newline(text: Seq<char>)
    ensures
        after_last_newline(text).len() <= text.len(),
        after_last_newline(text) == text.subrange(
            text.len() - after_last_newline(text).len(),
            text.len() as int,
        ),
        !has_newline(after_last_newline(text)),
        has_newline(text) ==> after_last_newline(text).len() < text.len() && text[text.len()
            - after_last_newline(text).len() - 1] == '\n',
        !has_newline(text) ==> after_last_newline(text) == text,
    decreases text.len(),
{
    if text.len() == 0 {
        assert(text.subrange(0, 0) =~= text);
    } else if text.last() == '\n' {
        assert(text.subrange(text.len() as int, text.len() as int) =~= Seq::<char>::empty());
    } else {
        let front = text.drop_last();
        lemma_after_last_newline(front);
        let tail = after_last_newline(front);
        assert(tail.push(text.last()) =~= text.subrange(
            text.len() - tail.len() - 1,
            text.len() as int,
        ));
        if has_newline(text) {
            let k = choose|k: int| 0 <= k < text.len() && text[k] == '\n';
            assert(front[k] == '\n');
        } else {
            assert forall|k: int| 0 <= k < front.len() implies front[k] != '\n' by {
                assert(text[k] == front[k]);
            }
            assert(tail.push(text.last()) =~= text);
        }
        assert forall|k: int| 0 <= k < tail.push(text.last()).len() implies tail.push(
            text.last(),
        )[k] != '\n' by {
            if k < tail.len() {
                assert(tail[k] != '\n');
            }
        }
    }
}

/// What follows the last line break of the text, where it holds one.
pub fn suffix_after_last_newline(text: &[char]) -> (r: Option<Vec<char>>)
    ensures
        match r {
            Some(tail) => has_newline(text@) && tail@ == after_last_newline(text@),
            None => !has_newline(text@),
        },
{
    let mut i: usize = text.len();
    while i > 0
        invariant
            i <= text@.len(),
            forall|j: int| i <= j < text@.len() ==> text@[j] != '\n',
        decreases i,
    {
        if text[i - 1] == '\n' {
            let mut tail: Vec<char> = Vec::new();
            let mut k: usize = i;
            while k < text.len()
                invariant
                    i <= k <= text@.len(),
                    tail@ == text@.subrange(i as int, k as int),
                decreases text@.len() - k,
            {
                tail.push(text[k]);
                assert(tail@ =~= text@.subrange(i as int, k + 1));
                k = k + 1;
            }
            proof {
                lemma_after_last_newline(text@);
                assert(text@[i - 1] == '\n');
                let rest = after_last_newline(text@);
                let start = text@.len() - rest.len();
                // the last line break stands right before the rest
                assert(text@[start - 1] == '\n');
                if start < i {
                    assert(text@[i - 1] == rest[i - 1 - start]);
                } else if start > i {
                    assert(text@[start - 1] != '\n');
                }
            }
            return Some(tail);
        }
        i = i - 1;
    }
    None
}

/// `n` blanks.
pub open spec fn blanks(n: nat) -> Seq<char> {
    Seq::new(n, |i: int| ' ')
}

/// `text` followed by `n` blanks.
pub fn pad(text: &[char], n: usize) -> (r: Vec<char>)
    ensures
        r@ == text@ + blanks(n as nat),
{
    let mut r: Vec<char> = Vec::new();
    let mut i: usize = 0;
    while i < text.len()
        invariant
            i <= text@.len(),
            r@ == text@.subrange(0, i as int),
        decreases text@.len() - i,
    {
        r.push(text[i]);
        assert(r@ =~= text@.subrange(0, i + 1));
        i = i + 1;
    }
    assert(text@.subrange(0, i as int) =~= text@);
    let mut k: usize = 0;
    while k < n
        invariant
            k <= n,
            r@ == text@ + blanks(k as nat),
        decreases n - k,
    {
        r.push(' ');
        assert(r@ =~= text@ + blanks((k + 1) as nat));
        k = k + 1;
    }
    r
}

/// `a` followed by `b`.
pub fn join(a: &[char], b: &[char]) -> (r: Vec<char>)
    ensures
        r@ == a@ + b@,
{
    let mut r: Vec<char> = Vec::new();
    let mut i: usize = 0;
    while i < a.len()
        invariant
            i <= a@.len(),
            r@ == a@.subrange(0, i as int),
        decreases a@.len() - i,
    {
        r.push(a[i]);
        assert(r@ =~= a@.subrange(0, i + 1));
        i = i + 1;
    }
    assert(a@.subrange(0, i as int) =~= a@);
    let mut k: usize = 0;
    while k < b.len()
        invariant
            k <= b@.len(),
            r@ == a@ + b@.subrange(0, k as int),
        decreases b@.len() - k,
    {
        r.push(b[k]);
        assert(r@ =~= a@ + b@.subrange(0, k + 1));
        k = k + 1;
    }
    assert(b@.subrange(0, k as int) =~= b@);
    r
}

/// Whether a line break and `width` blanks stand at `at`.
pub open spec fn indent_at(text: Seq<char>, at: int, width: nat) -> bool {
    &&& 0 <= at
    &&& at + 1 + width <= text.len()
    &&& text[at] == '\n'
    &&& forall|k: int| at < k <= at + width ==> text[k] == ' '
}

/// The text from `at` on, with `width` blanks taken out after every line
/// break that is followed by as many; the line breaks are read from left to
/// right, and blanks that were taken out are not read again.
pub open spec fn dedent_from(text: Seq<char>, at: int, width: nat) -> Seq<char>
    decreases text.len() - at,
{
    if at < 0 || at >= text.len() {
        Seq::empty()
    } else if indent_at(text, at, width) {
        seq!['\n'] + dedent_from(text, at + 1 + width, width)
    } else {
        seq![text[at]] + dedent_from(text, at + 1, width)
    }
}

/// The text with `width` blanks taken out after every line break that is
/// followed by as many.
pub open spec fn dedent(text: Seq<char>, width: nat) -> Seq<char> {
    dedent_from(text, 0, width)
}

/// The text with `width` blanks taken out after every line break that is
/// followed by as many.
pub fn remove_indent(text: &[char], width: usize) -> (r: Vec<char>)
    ensures
        r@ == dedent(text@, width as nat),
{
    let n = text.len();
    let mut r: Vec<char> = Vec::new();
    let mut i: usize = 0;
    while i < n
        invariant
            i <= n,
            n == text@.len(),
            dedent(text@, width as nat) == r@ + dedent_from(text@, i as int, width as nat),
        decreases n - i,
    {
        let mut indented = text[i] == '\n' && width <= n - i - 1;
        if indented {
            let mut k: usize = 0;
            while k < width && text[i + 1 + k] == ' '
                invariant
                    i < n,
                    n == text@.len(),
                    k <= width,
                    width <= n - i - 1,
                    forall|j: int| i < j <= i + k ==> text@[j] == ' ',
                decreases width - k,
            {
                k = k + 1;
            }
            indented = k == width;
            proof {
                if k < width {
                    assert(text@[i + 1 + k] != ' ');
                    assert(!indent_at(text@, i as int, width as nat));
                }
            }
        }
        if indented {
            assert(indent_at(text@, i as int, width as nat));
            let ghost before = r@;
            r.push('\n');
            assert(r@ + dedent_from(text@, i + 1 + width, width as nat) =~= before + (seq!['\n']
                + dedent_from(text@, i + 1 + width, width as nat)));
            i = i + 1 + width;
        } else {
            assert(!indent_at(text@, i as int, width as nat));
            let ghost before = r@;
            r.push(text[i]);
            assert(r@ + dedent_from(text@, i + 1, width as nat) =~= before + (seq![text@[i as int]]
                + dedent_from(text@, i + 1, width as nat)));
            i = i + 1;
        }
    }
    assert(r@ + dedent_from(text@, i as int, width as nat) =~= r@);
    r
}

/// The number of bytes that `c` takes in UTF-8.
pub open spec fn utf8_len(c: char) -> nat {
    if (c as u32) < 0x80 {
        1
    } else if (c as u32) < 0x800 {
        2
    } else if (c as u32) < 0x10000 {
        3
    } else {
        4
    }
}

/// The number of bytes that `c` takes in UTF-8.
pub fn len_utf8(c: char) -> (r: usize)
    ensures
        r == utf8_len(c),
        1 <= r <= 4,
{
    let code = c as u32;
    if code < 0x80 {
        1
    } else if code < 0x800 {
        2
    } else if code < 0x10000 {
        3
    } else {
        4
    }
}

/// The number of bytes that the text takes in UTF-8.
pub open spec fn utf8_size(text: Seq<char>) -> nat
    decreases text.len(),
{
    if text.len() == 0 {
        0
    } else {
        utf8_size(text.drop_last()) + utf8_len(text.last())
    }
}

/// The bytes of two texts in a row are the bytes of the one and of the
/// other.
pub proof fn lemma_utf8_size_add(a: Seq<char>, b: Seq<char>)
    ensures
        utf8_size(a + b) == utf8_size(a) + utf8_size(b),
    decreases b.len(),
{
    if b.len() == 0 {
        assert(a + b =~= a);
    } else {
        lemma_utf8_size_add(a, b.drop_last());
        assert((a + b).drop_last() =~= a + b.drop_last());
        assert((a + b).last() == b.last());
    }
}

/// The number of bytes that the text takes in UTF-8, for a text whose size
/// a machine word holds.
pub fn byte_size(text: &[char]) -> (r: usize)
    requires
        utf8_size(text@) <= usize::MAX,
    ensures
        r == utf8_size(text@),
{
    let mut r: usize = 0;
    let mut i: usize = 0;
    proof {
        assert(text@.subrange(0, 0) =~= Seq::<char>::empty());
    }
    while i < text.len()
        invariant
            i <= text@.len(),
            utf8_size(text@) <= usize::MAX,
            r == utf8_size(text@.subrange(0, i as int)),
        decreases text@.len() - i,
    {
        proof {
            let head = text@.subrange(0, i + 1);
            assert(head.drop_last() =~= text@.subrange(0, i as int));
            assert(head.last() == text@[i as int]);
            assert(text@ =~= head + text@.subrange(i + 1, text@.len() as int));
            lemma_utf8_size_add(head, text@.subrange(i + 1, text@.len() as int));
        }
        r = r + len_utf8(text[i]);
        i = i + 1;
    }
    proof {
        assert(text@.subrange(0, i as int) =~= text@);
    }
    r
}

} // verus!
