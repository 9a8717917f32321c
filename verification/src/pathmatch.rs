//! Matching of request paths against configured path prefixes.
use vstd::prelude::*;
use crate::text::{chars_of, starts_with, is_prefix};

verus! {

/// A request path falls under a configured path when it is that path, or lies below
/// it: the pattern is a prefix of the path that ends at a segment boundary (the
/// pattern ends with `/`, or the next character of the path is `/`).
pub open spec fn skip_match(path: Seq<char>, pattern: Seq<char>) -> bool {
    ||| path == pattern
    ||| (is_prefix(pattern, path) && ((pattern.len() > 0 && pattern.last() == '/')
        || (path.len() > pattern.len() && path[pattern.len() as int] == '/')))
}

/// Whether `path` falls under the configured path `pattern`.
pub fn path_matches_skip(path: &str, pattern: &str) -> (res: bool)
    ensures
        res == skip_match(path@, pattern@),
{
    let p = chars_of(path);
    let q = chars_of(pattern);
    if !starts_with(&p, &q) {
        proof {
            if path@ == pattern@ {
                assert(p@.subrange(0, q@.len() as int) =~= p@);
            }
        }
        return false;
    }
    if p.len() == q.len() {
        assert(p@.subrange(0, q@.len() as int) =~= p@);
        return true;
    }
    if q.len() > 0 && q[q.len() - 1] == '/' {
        return true;
    }
    proof {
        if path@ == pattern@ {
            assert(p@.len() == q@.len());
        }
    }
    p[q.len()] == '/'
}

/// Whether `path` falls under any of `patterns`.
pub fn matches_any(path: &str, patterns: &Vec<String>) -> (res: bool)
    ensures
        res == exists|i: int| 0 <= i < patterns@.len() && skip_match(path@, #[trigger] patterns@[i]@),
{
    let mut i: usize = 0;
    while i < patterns.len()
        invariant
            i <= patterns@.len(),
            forall|j: int| 0 <= j < i ==> !skip_match(path@, #[trigger] patterns@[j]@),
        decreases patterns.len() - i,
    {
        if path_matches_skip(path, patterns[i].as_str()) {
            return true;
        }
        i = i + 1;
    }
    false
}

} // verus!
