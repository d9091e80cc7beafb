//! Comparison of borrowed byte spans.

use vstd::prelude::*;

verus! {

/// Whether two spans hold the same bytes.
pub fn same_bytes(left: &[u8], right: &[u8]) -> (same: bool)
    ensures
        same == (left@ == right@),
{
    if left.len() != right.len() {
        return false;
    }
    let mut at: usize = 0;
    while at < left.len()
        invariant
            left.len() == right.len(),
            at <= left.len(),
            left@.take(at as int) == right@.take(at as int),
        decreases left.len() - at,
    {
        if left[at] != right[at] {
            return false;
        }
        assert(left@.take(at + 1) =~= left@.take(at as int).push(left@[at as int]));
        assert(right@.take(at + 1) =~= right@.take(at as int).push(right@[at as int]));
        at = at + 1;
    }
    assert(left@.take(at as int) =~= left@);
    assert(right@.take(at as int) =~= right@);
    true
}

} // verus!
