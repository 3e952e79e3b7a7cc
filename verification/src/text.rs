//! Texts as sequences of characters, and ASCII case folding on them, as
//! header names and authorities use it.

use vstd::prelude::*;

verus! {

/// The lower-case form of an ASCII upper-case letter; any other character
/// is left as it is.
pub open spec fn ascii_lower(c: char) -> char {
    if 'A' <= c && c <= 'Z' {
        ((c as u8 + 32) as u8) as char
    } else {
        c
    }
}

/// A text with every ASCII upper-case letter replaced by its lower-case form.
pub open spec fn lowercase(s: Seq<char>) -> Seq<char> {
    s.map_values(|c: char| ascii_lower(c))
}

/// The upper-case form of an ASCII lower-case letter; any other character
/// is left as it is.
pub open spec fn ascii_upper(c: char) -> char {
    if 'a' <= c && c <= 'z' {
        ((c as u8 - 32) as u8) as char
    } else {
        c
    }
}

/// A text with every ASCII lower-case letter replaced by its upper-case form.
pub open spec fn uppercase(s: Seq<char>) -> Seq<char> {
    s.map_values(|c: char| ascii_upper(c))
}

/// Whether two texts are equal once ASCII letters are folded to one case.
pub open spec fn same_ignoring_case(a: Seq<char>, b: Seq<char>) -> bool {
    lowercase(a) == lowercase(b)
}

/// The characters of a text, one by one.
pub fn to_chars(s: &str) -> (chars: Vec<char>)
    ensures
        chars@ == s@,
{
    let mut chars: Vec<char> = Vec::new();
    for c in it: s.chars()
        invariant
            it.seq() == s@,
            chars@ == it.seq().take(it.index() as int),
    {
        chars.push(c);
        assert(it.seq().take(it.index() + 1) =~= it.seq().take(it.index() as int).push(c));
    }
    assert(s@.take(s@.len() as int) =~= s@);
    chars
}

/// `String::from_iter` over characters: the string that is made of these
/// characters, in this order.
#[verifier::external_body]
pub(crate) fn to_string(chars: &[char]) -> (text: String)
    ensures
        text@ == chars@,
{
    String::from_iter(chars.iter())
}

/// The lower-case form of an ASCII upper-case letter; any other character
/// is left as it is.
pub fn to_lower(c: char) -> (lower: char)
    ensures
        lower == ascii_lower(c),
{
    let u: u32 = c as u32;
    if 0x41 <= u && u <= 0x5A {
        ((u + 32) as u8) as char
    } else {
        c
    }
}

/// The upper-case form of an ASCII lower-case letter; any other character
/// is left as it is.
pub fn to_upper(c: char) -> (upper: char)
    ensures
        upper == ascii_upper(c),
{
    let u: u32 = c as u32;
    if 0x61 <= u && u <= 0x7A {
        ((u - 32) as u8) as char
    } else {
        c
    }
}

/// A copy of the text in which the ASCII letters `A` to `Z` are mapped to
/// `a` to `z` and every other character is unchanged.
pub fn to_ascii_lowercase(s: &str) -> (lowered: String)
    ensures
        lowered@ == lowercase(s@),
{
    let chars = to_chars(s);
    let mut lowered: Vec<char> = Vec::new();
    let mut at: usize = 0;
    while at < chars.len()
        invariant
            at <= chars.len(),
            lowered@ == lowercase(chars@.take(at as int)),
        decreases chars.len() - at,
    {
        lowered.push(to_lower(chars[at]));
        assert(lowered@ =~= lowercase(chars@.take(at + 1)));
        at += 1;
    }
    assert(chars@.take(at as int) =~= chars@);
    to_string(lowered.as_slice())
}

/// A copy of the text in which the ASCII letters `a` to `z` are mapped to
/// `A` to `Z` and every other character is unchanged.
pub fn to_ascii_uppercase(s: &str) -> (raised: String)
    ensures
        raised@ == uppercase(s@),
{
    let chars = to_chars(s);
    let mut raised: Vec<char> = Vec::new();
    let mut at: usize = 0;
    while at < chars.len()
        invariant
            at <= chars.len(),
            raised@ == uppercase(chars@.take(at as int)),
        decreases chars.len() - at,
    {
        raised.push(to_upper(chars[at]));
        assert(raised@ =~= uppercase(chars@.take(at + 1)));
        at += 1;
    }
    assert(chars@.take(at as int) =~= chars@);
    to_string(raised.as_slice())
}

/// Whether the two texts are equal once both are put in ASCII lower case.
pub fn eq_ignore_ascii_case(a: &str, b: &str) -> (same: bool)
    ensures
        same == same_ignoring_case(a@, b@),
{
    let left = to_chars(a);
    let right = to_chars(b);
    if left.len() != right.len() {
        assert(lowercase(a@).len() != lowercase(b@).len());
        return false;
    }
    let mut at: usize = 0;
    while at < left.len()
        invariant
            at <= left.len(),
            left.len() == right.len(),
            left@ == a@,
            right@ == b@,
            forall|i: int| 0 <= i < at ==> ascii_lower(left@[i]) == ascii_lower(right@[i]),
        decreases left.len() - at,
    {
        if to_lower(left[at]) != to_lower(right[at]) {
            assert(lowercase(a@)[at as int] != lowercase(b@)[at as int]);
            return false;
        }
        at += 1;
    }
    assert(lowercase(a@) =~= lowercase(b@));
    true
}

} // verus!
