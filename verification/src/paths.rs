//! Plain-string paths and the operations the discovery engine needs on them.
//!
//! A path is an ordinary `String`; segments are joined with `/`. Identity of
//! a path is its character sequence, so membership tests and joins are stated
//! over `Seq<char>`.

use vstd::prelude::*;

verus! {

/// The character sequence of `a` joined with segment `b` by a separator.
pub open spec fn join_spec(a: Seq<char>, b: Seq<char>) -> Seq<char> {
    a + "/"@ + b
}

/// Joins one path segment onto a base path.
pub fn path_join(a: &str, b: &str) -> (r: String)
    ensures
        r@ == join_spec(a@, b@),
{
    let mut s = a.to_owned();
    s.append("/");
    s.append(b);
    s
}

/// Whether some string in `v` has exactly the characters `p`.
pub open spec fn has_path(v: Seq<String>, p: Seq<char>) -> bool {
    exists|i: int| 0 <= i < v.len() && v[i]@ == p
}

/// Membership of a path in a listing, by character sequence.
pub fn contains_path(v: &Vec<String>, key: &String) -> (r: bool)
    ensures
        r == has_path(v@, key@),
{
    let mut i: usize = 0;
    while i < v.len()
        invariant
            i <= v.len(),
            forall|j: int| 0 <= j < i ==> v@[j]@ != key@,
        decreases v.len() - i,
    {
        if v[i] == *key {
            return true;
        }
        i = i + 1;
    }
    false
}

} // verus!
