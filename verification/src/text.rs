//! Case folding of names.
use std::sync::Arc;
use vstd::prelude::*;

verus! {

/// The lowercase form of a string, as `str::to_lowercase` of the standard
/// library computes it.
pub uninterp spec fn lowercase(s: Seq<char>) -> Seq<char>;

/// Calls `str::to_lowercase`. Nothing is proved of it: the result is, by
/// definition, `lowercase` of the argument, a function of the text alone.
#[verifier::external_body]
pub(crate) fn to_lowercase(s: &str) -> (folded: String)
    ensures
        folded@ == lowercase(s@),
{
    s.to_lowercase()
}

/// Calls `Arc::clone` of the standard library: the new pointer shares the
/// value of the old one, so the two are equal.
#[verifier::external_body]
pub(crate) fn share(name: &Arc<String>) -> (copy: Arc<String>)
    ensures
        copy == *name,
{
    Arc::clone(name)
}

/// The first index at or after `i` whose key equals `key`.
pub open spec fn first_equal_from(keys: Seq<Seq<char>>, i: int, key: Seq<char>) -> Option<int>
    decreases keys.len() - i,
{
    if i < 0 || i >= keys.len() {
        None
    } else if keys[i] == key {
        Some(i)
    } else {
        first_equal_from(keys, i + 1, key)
    }
}

/// The views of the strings of `keys`, in order.
pub open spec fn key_views(keys: Seq<String>) -> Seq<Seq<char>> {
    Seq::new(keys.len(), |i: int| keys[i]@)
}

/// Returns the index of the first of `keys` that equals `key`.
pub fn first_match(keys: &Vec<String>, key: &String) -> (at: Option<usize>)
    ensures
        match at {
            Some(i) => first_equal_from(key_views(keys@), 0, key@) == Some(i as int),
            None => first_equal_from(key_views(keys@), 0, key@) is None,
        },
{
    let n: usize = keys.len();
    let mut i: usize = 0;
    while i < n
        invariant
            n == keys.len(),
            i <= n,
            first_equal_from(key_views(keys@), 0, key@)
                == first_equal_from(key_views(keys@), i as int, key@),
        decreases n - i,
    {
        if keys[i] == *key {
            return Some(i);
        }
        i += 1;
    }
    None
}

} // verus!
