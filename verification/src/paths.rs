//! Paths and the wildcard in them.

use vstd::prelude::*;

verus! {

/// The character that stands for any rest of a path.
pub const WILDCARD: char = '*';

/// Whether `path` holds a wildcard.
pub open spec fn has_wildcard(path: Seq<char>) -> bool {
    path.contains(WILDCARD)
}

/// Whether a wildcard stands in `path` before its last character.
pub open spec fn has_early_wildcard(path: Seq<char>) -> bool {
    path.len() > 0 && has_wildcard(path.drop_last())
}

/// One more character adds a wildcard exactly if it is one.
proof fn lemma_wildcard_in_longer_prefix(path: Seq<char>, n: int)
    requires
        0 <= n < path.len(),
    ensures
        has_wildcard(path.take(n + 1)) == (has_wildcard(path.take(n)) || path[n] == WILDCARD),
        has_early_wildcard(path.take(n + 1)) == has_wildcard(path.take(n)),
{
    let longer = path.take(n + 1);
    assert(longer.drop_last() == path.take(n));
    assert(longer == path.take(n).push(path[n]));
    if has_wildcard(path.take(n)) {
        let i = path.take(n).index_of(WILDCARD);
        assert(longer[i] == WILDCARD);
    }
    assert(longer[n] == path[n]);
}

/// Tells whether `path` holds a wildcard.
pub fn contains_wildcard(path: &str) -> (found: bool)
    ensures
        found == has_wildcard(path@),
{
    let mut found: bool = false;
    for c in it: path.chars()
        invariant
            it.seq() == path@,
            found == has_wildcard(path@.take(it.index())),
    {
        proof {
            lemma_wildcard_in_longer_prefix(path@, it.index());
        }
        if c == WILDCARD {
            found = true;
        }
    }
    assert(path@.take(path@.len() as int) == path@);
    found
}

/// Tells whether a wildcard stands in `path` before its last character.
pub fn contains_early_wildcard(path: &str) -> (found: bool)
    ensures
        found == has_early_wildcard(path@),
{
    let mut seen: bool = false;
    let mut found: bool = false;
    for c in it: path.chars()
        invariant
            it.seq() == path@,
            seen == has_wildcard(path@.take(it.index())),
            found == has_early_wildcard(path@.take(it.index())),
    {
        proof {
            lemma_wildcard_in_longer_prefix(path@, it.index());
        }
        found = seen;
        if c == WILDCARD {
            seen = true;
        }
    }
    assert(path@.take(path@.len() as int) == path@);
    found
}

} // verus!
