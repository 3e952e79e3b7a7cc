//! Helpers for the paths that resources are registered under.

use vstd::prelude::*;

use crate::text::{to_chars, to_string};

verus! {

/// A path as it is registered: a path that is not empty begins with a
/// slash, which is put in front of it where it is missing.
pub open spec fn slashed(path: Seq<char>) -> Seq<char> {
    if path.len() > 0 && path[0] != '/' {
        seq!['/'] + path
    } else {
        path
    }
}

/// The texts of the paths.
pub open spec fn texts(paths: Seq<String>) -> Seq<Seq<char>> {
    paths.map_values(|path: String| path@)
}

/// Puts a slash in front of every pattern that is not empty and does not
/// begin with one.
pub fn insert_slash(patterns: Vec<String>) -> (slashed_patterns: Vec<String>)
    ensures
        texts(slashed_patterns@) == texts(patterns@).map_values(|path: Seq<char>| slashed(path)),
{
    let mut done: Vec<String> = Vec::new();
    let mut at: usize = 0;
    while at < patterns.len()
        invariant
            at <= patterns.len(),
            done.len() == at,
            forall|i: int| 0 <= i < at ==> (#[trigger] done@[i])@ == slashed(patterns@[i]@),
        decreases patterns.len() - at,
    {
        let mut chars = to_chars(patterns[at].as_str());
        if chars.len() > 0 && chars[0] != '/' {
            chars.insert(0, '/');
            assert(chars@ =~= seq!['/'] + patterns@[at as int]@);
        }
        done.push(to_string(chars.as_slice()));
        at += 1;
    }
    assert(texts(done@) =~= texts(patterns@).map_values(|path: Seq<char>| slashed(path)));
    done
}

} // verus!
