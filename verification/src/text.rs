//! Small verified helpers on string slices.

use vstd::prelude::*;

verus! {

/// Character-for-character equality of two string slices.
pub fn str_eq(a: &str, b: &str) -> (r: bool)
    ensures
        r == (a@ == b@),
{
    let la = a.unicode_len();
    let lb = b.unicode_len();
    if la != lb {
        return false;
    }
    let mut i: usize = 0;
    while i < la
        invariant
            a@.len() == la,
            b@.len() == la,
            i <= la,
            forall|j: int| 0 <= j < i ==> a@[j] == b@[j],
        decreases la - i,
    {
        if a.get_char(i) != b.get_char(i) {
            return false;
        }
        i = i + 1;
    }
    proof {
        assert(a@ =~= b@);
    }
    true
}

/// Does `a` start with the characters of `p`?
pub fn str_starts_with(a: &str, p: &str) -> (r: bool)
    ensures
        r == (a@.len() >= p@.len() && a@.subrange(0, p@.len() as int) == p@),
{
    let la = a.unicode_len();
    let lp = p.unicode_len();
    if la < lp {
        return false;
    }
    let head = a.substring_char(0, lp);
    str_eq(head, p)
}

} // verus!
