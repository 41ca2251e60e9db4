//! Path keys: the logical names by which a cell and an export find each other.
//!
//! A path is a colon- or dot-delimited name such as `::app::render` or
//! `app::render`. Two spellings denote the same key when they agree after their
//! leading separators are removed.

use vstd::prelude::*;
use vstd::string::*;

verus! {

/// The characters that delimit the segments of a path.
pub open spec fn is_separator(c: char) -> bool {
    c == ':' || c == '.'
}

/// The number of separators that `path` starts with.
pub open spec fn leading_separators(path: Seq<char>) -> nat
    decreases path.len(),
{
    if path.len() > 0 && is_separator(path[0]) {
        1 + leading_separators(path.drop_first())
    } else {
        0
    }
}

/// The key of `path`: what remains after its leading separators.
pub open spec fn normalized(path: Seq<char>) -> Seq<char> {
    path.subrange(leading_separators(path) as int, path.len() as int)
}

/// The leading separators of a path lie within it, every character before
/// that point is a separator, and the character at that point, if there is
/// one, is none.
pub proof fn lemma_leading_separators(path: Seq<char>)
    ensures
        leading_separators(path) <= path.len(),
        forall|i: int| 0 <= i < leading_separators(path) ==> is_separator(#[trigger] path[i]),
        leading_separators(path) < path.len() ==> !is_separator(
            path[leading_separators(path) as int],
        ),
    decreases path.len(),
{
    if path.len() > 0 && is_separator(path[0]) {
        let rest = path.drop_first();
        lemma_leading_separators(rest);
        assert forall|i: int| 0 <= i < leading_separators(path) implies is_separator(
            #[trigger] path[i],
        ) by {
            if i > 0 {
                assert(path[i] == rest[i - 1]);
            }
        }
        if leading_separators(path) < path.len() {
            assert(path[leading_separators(path) as int] == rest[leading_separators(rest) as int]);
        }
    }
}

/// A count of leading separators that stops at a character which is none, or
/// at the end, is the number of leading separators.
pub proof fn lemma_leading_separators_unique(path: Seq<char>, n: nat)
    requires
        n <= path.len(),
        forall|i: int| 0 <= i < n ==> is_separator(#[trigger] path[i]),
        n < path.len() ==> !is_separator(path[n as int]),
    ensures
        leading_separators(path) == n,
    decreases path.len(),
{
    if path.len() > 0 && is_separator(path[0]) {
        let rest = path.drop_first();
        assert(n > 0);
        assert forall|i: int| 0 <= i < n - 1 implies is_separator(#[trigger] rest[i]) by {
            assert(rest[i] == path[i + 1]);
        }
        if n - 1 < rest.len() {
            assert(rest[n - 1] == path[n as int]);
        }
        lemma_leading_separators_unique(rest, (n - 1) as nat);
    } else if path.len() > 0 {
        if n > 0 {
            assert(is_separator(path[0]));
        }
    }
}

/// A key has no leading separator, so normalizing it again changes nothing.
pub proof fn lemma_normalized_idempotent(path: Seq<char>)
    ensures
        leading_separators(normalized(path)) == 0,
        normalized(normalized(path)) == normalized(path),
{
    lemma_leading_separators(path);
    let key = normalized(path);
    if key.len() > 0 {
        assert(key[0] == path[leading_separators(path) as int]);
    }
    assert(key.subrange(0, key.len() as int) =~= key);
}

/// Putting separators in front of a path does not change its key: the
/// absolute spelling and the relative one name the same thing.
pub proof fn lemma_normalized_ignores_prefix(prefix: Seq<char>, path: Seq<char>)
    requires
        forall|i: int| 0 <= i < prefix.len() ==> is_separator(#[trigger] prefix[i]),
    ensures
        normalized(prefix + path) == normalized(path),
{
    lemma_leading_separators(path);
    let whole = prefix + path;
    let n = prefix.len() + leading_separators(path);
    assert forall|i: int| 0 <= i < n implies is_separator(#[trigger] whole[i]) by {
        if i >= prefix.len() {
            assert(whole[i] == path[i - prefix.len()]);
        }
    }
    if n < whole.len() {
        assert(whole[n as int] == path[leading_separators(path) as int]);
    }
    lemma_leading_separators_unique(whole, n);
    assert(normalized(whole) =~= normalized(path));
}

/// Whether `c` delimits the segments of a path.
pub fn separates(c: char) -> (r: bool)
    ensures
        r == is_separator(c),
{
    c == ':' || c == '.'
}

/// The key of `path`: the path without its leading separators.
pub fn normalize<'a>(path: &'a str) -> (key: &'a str)
    ensures
        key@ == normalized(path@),
{
    let len = path.unicode_len();
    let mut start: usize = 0;
    while start < len && separates(path.get_char(start))
        invariant
            start <= len,
            len == path@.len(),
            forall|i: int| 0 <= i < start ==> is_separator(#[trigger] path@[i]),
        decreases len - start,
    {
        start += 1;
    }
    proof {
        lemma_leading_separators_unique(path@, start as nat);
    }
    path.substring_char(start, len)
}

/// Whether two texts hold the same characters.
pub fn same_text(a: &str, b: &str) -> (r: bool)
    ensures
        r == (a@ == b@),
{
    a.to_owned() == b.to_owned()
}

/// Whether `path` names the key `key`.
pub fn names_key(path: &str, key: &str) -> (r: bool)
    ensures
        r == (normalized(path@) == key@),
{
    same_text(normalize(path), key)
}

} // verus!
