//! Text as a sequence of characters, and the cuts that header grammars make in it.

use vstd::prelude::*;
use vstd::slice::slice_subrange;

use crate::text::to_chars;

verus! {

/// Whether the character is white space: a character with the Unicode
/// property `White_Space`.
pub open spec fn is_white_space(c: char) -> bool {
    let u = c as u32;
    ||| 0x09 <= u <= 0x0D
    ||| u == 0x20
    ||| u == 0x85
    ||| u == 0xA0
    ||| u == 0x1680
    ||| 0x2000 <= u <= 0x200A
    ||| u == 0x2028
    ||| u == 0x2029
    ||| u == 0x202F
    ||| u == 0x205F
    ||| u == 0x3000
}

/// How many characters at the start of the text are white space.
pub open spec fn leading_space(s: Seq<char>) -> nat
    decreases s.len(),
{
    if s.len() > 0 && is_white_space(s[0]) {
        1 + leading_space(s.drop_first())
    } else {
        0
    }
}

/// How many characters at the end of the text are white space.
pub open spec fn trailing_space(s: Seq<char>) -> nat
    decreases s.len(),
{
    if s.len() > 0 && is_white_space(s.last()) {
        1 + trailing_space(s.drop_last())
    } else {
        0
    }
}

/// The text without the white space at its start.
pub open spec fn trim_start(s: Seq<char>) -> Seq<char> {
    s.skip(leading_space(s) as int)
}

/// The text without the white space at its end.
pub open spec fn trim_end(s: Seq<char>) -> Seq<char> {
    s.take(s.len() - trailing_space(s))
}

/// The text without the white space at its start and at its end.
pub open spec fn trim(s: Seq<char>) -> Seq<char> {
    trim_end(trim_start(s))
}

/// The position of the first `needle` in the text, the length of the text
/// where there is none.
pub open spec fn find(s: Seq<char>, needle: char) -> nat
    decreases s.len(),
{
    if s.len() == 0 || s[0] == needle {
        0
    } else {
        1 + find(s.drop_first(), needle)
    }
}

/// The text before the first `needle` and the text after it; the whole
/// text and the empty text where there is no `needle`.
pub open spec fn split(s: Seq<char>, needle: char) -> (Seq<char>, Seq<char>) {
    let at = find(s, needle) as int;
    if at < s.len() {
        (s.take(at), s.skip(at + 1))
    } else {
        (s, Seq::empty())
    }
}

/// As `split`, with the white space taken off the end of the first part and
/// off the start of the second.
pub open spec fn split_and_trim(s: Seq<char>, needle: char) -> (Seq<char>, Seq<char>) {
    (trim_end(split(s, needle).0), trim_start(split(s, needle).1))
}

/// The leading white space is what comes before the first character that
/// is none.
pub proof fn lemma_leading_space(s: Seq<char>, n: int)
    requires
        0 <= n <= s.len(),
        forall|i: int| 0 <= i < n ==> is_white_space(#[trigger] s[i]),
        n < s.len() ==> !is_white_space(s[n]),
    ensures
        leading_space(s) == n,
    decreases n,
{
    if n > 0 {
        let rest = s.drop_first();
        assert forall|i: int| 0 <= i < n - 1 implies is_white_space(#[trigger] rest[i]) by {
            assert(rest[i] == s[i + 1]);
        }
        lemma_leading_space(rest, n - 1);
    }
}

/// The trailing white space is what comes after the last character that
/// is none.
pub proof fn lemma_trailing_space(s: Seq<char>, n: int)
    requires
        0 <= n <= s.len(),
        forall|i: int| s.len() - n <= i < s.len() ==> is_white_space(#[trigger] s[i]),
        n < s.len() ==> !is_white_space(s[s.len() - n - 1]),
    ensures
        trailing_space(s) == n,
    decreases n,
{
    if n > 0 {
        let rest = s.drop_last();
        assert forall|i: int| rest.len() - (n - 1) <= i < rest.len() implies is_white_space(
            #[trigger] rest[i],
        ) by {
            assert(rest[i] == s[i]);
        }
        if n - 1 < rest.len() {
            assert(rest[rest.len() - (n - 1) - 1] == s[s.len() - n - 1]);
        }
        lemma_trailing_space(rest, n - 1);
    }
}

/// The first `needle` is where none comes before.
pub proof fn lemma_find(s: Seq<char>, needle: char, n: int)
    requires
        0 <= n <= s.len(),
        forall|i: int| 0 <= i < n ==> #[trigger] s[i] != needle,
        n < s.len() ==> s[n] == needle,
    ensures
        find(s, needle) == n,
    decreases n,
{
    if n > 0 {
        let rest = s.drop_first();
        assert forall|i: int| 0 <= i < n - 1 implies #[trigger] rest[i] != needle by {
            assert(rest[i] == s[i + 1]);
        }
        lemma_find(rest, needle, n - 1);
    }
}

/// The counts of white space and the position of a needle lie within the
/// text.
pub proof fn lemma_cut_bounds(s: Seq<char>, needle: char)
    ensures
        leading_space(s) <= s.len(),
        trailing_space(s) <= s.len(),
        find(s, needle) <= s.len(),
    decreases s.len(),
{
    if s.len() > 0 {
        lemma_cut_bounds(s.drop_first(), needle);
        lemma_cut_bounds(s.drop_last(), needle);
    }
}

/// Whether the character is white space.
pub fn is_whitespace(c: char) -> (white: bool)
    ensures
        white == is_white_space(c),
{
    let u: u32 = c as u32;
    (0x09 <= u && u <= 0x0D) || u == 0x20 || u == 0x85 || u == 0xA0 || u == 0x1680 || (0x2000
        <= u && u <= 0x200A) || u == 0x2028 || u == 0x2029 || u == 0x202F || u == 0x205F || u
        == 0x3000
}

/// The text without the white space at its start.
pub fn trimmed_start(s: &[char]) -> (rest: &[char])
    ensures
        rest@ == trim_start(s@),
{
    let mut at: usize = 0;
    while at < s.len() && is_whitespace(s[at])
        invariant
            at <= s.len(),
            forall|i: int| 0 <= i < at ==> is_white_space(#[trigger] s@[i]),
        decreases s.len() - at,
    {
        at += 1;
    }
    proof {
        lemma_leading_space(s@, at as int);
    }
    let rest = slice_subrange(s, at, s.len());
    assert(rest@ =~= s@.skip(at as int));
    rest
}

/// The text without the white space at its end.
pub fn trimmed_end(s: &[char]) -> (rest: &[char])
    ensures
        rest@ == trim_end(s@),
{
    let mut end: usize = s.len();
    while end > 0 && is_whitespace(s[end - 1])
        invariant
            end <= s.len(),
            forall|i: int| end <= i < s.len() ==> is_white_space(#[trigger] s@[i]),
        decreases end,
    {
        end -= 1;
    }
    proof {
        lemma_trailing_space(s@, s.len() - end);
    }
    let rest = slice_subrange(s, 0, end);
    assert(rest@ =~= s@.take(end as int));
    rest
}

/// The text without the white space at its start and at its end.
pub fn trimmed(s: &[char]) -> (rest: &[char])
    ensures
        rest@ == trim(s@),
{
    trimmed_end(trimmed_start(s))
}

/// Splits at the first `needle` if there is one, at the end otherwise.
pub fn split_once(haystack: &[char], needle: char) -> (parts: (&[char], &[char]))
    ensures
        (parts.0@, parts.1@) == split(haystack@, needle),
{
    let mut at: usize = 0;
    while at < haystack.len() && haystack[at] != needle
        invariant
            at <= haystack.len(),
            forall|i: int| 0 <= i < at ==> #[trigger] haystack@[i] != needle,
        decreases haystack.len() - at,
    {
        at += 1;
    }
    proof {
        lemma_find(haystack@, needle, at as int);
    }
    if at < haystack.len() {
        let first = slice_subrange(haystack, 0, at);
        let last = slice_subrange(haystack, at + 1, haystack.len());
        assert(first@ =~= haystack@.take(at as int));
        assert(last@ =~= haystack@.skip(at + 1));
        (first, last)
    } else {
        let last = slice_subrange(haystack, at, haystack.len());
        assert(last@ =~= Seq::<char>::empty());
        (haystack, last)
    }
}

/// Splits at the first `needle` if there is one, at the end otherwise, and
/// takes the white space off the end of the first part and off the start of
/// the second.
pub fn split_once_and_trim(haystack: &[char], needle: char) -> (parts: (&[char], &[char]))
    ensures
        (parts.0@, parts.1@) == split_and_trim(haystack@, needle),
{
    let (first, last) = split_once(haystack, needle);
    (trimmed_end(first), trimmed_start(last))
}

/// Whether the slice holds exactly the characters of the text.
pub fn is_text(s: &[char], text: &str) -> (same: bool)
    ensures
        same == (s@ == text@),
{
    let wanted = to_chars(text);
    if s.len() != wanted.len() {
        return false;
    }
    let mut at: usize = 0;
    while at < s.len()
        invariant
            at <= s.len(),
            s.len() == wanted.len(),
            wanted@ == text@,
            forall|i: int| 0 <= i < at ==> s@[i] == wanted@[i],
        decreases s.len() - at,
    {
        if s[at] != wanted[at] {
            return false;
        }
        at += 1;
    }
    assert(s@ =~= wanted@);
    true
}

/// Whether two texts hold the same characters.
pub fn same_text(a: &str, b: &str) -> (same: bool)
    ensures
        same == (a@ == b@),
{
    let chars = to_chars(a);
    is_text(chars.as_slice(), b)
}

} // verus!
