//! Comparing strings by their characters.

use vstd::prelude::*;
use vstd::std_specs::iter::IteratorSpec;

verus! {

/// Whether two strings hold the same characters in the same order.
pub fn same_text(a: &str, b: &str) -> (same: bool)
    ensures
        same == (a@ == b@),
{
    let left = a.chars();
    let mut right = b.chars();
    let ghost mut seen: int = 0;
    for c in it: left
        invariant
            it.seq() == a@,
            seen == it.index(),
            seen <= b@.len(),
            right.remaining() == b@.skip(seen),
            a@.take(seen) == b@.take(seen),
    {
        match right.next() {
            None => {
                return false;
            },
            Some(d) => {
                if c != d {
                    return false;
                }
            },
        }
        proof {
            seen = seen + 1;
        }
    }
    let rest = right.next();
    proof {
        assert(a@.take(seen) =~= a@);
        if rest is None {
            assert(b@.take(seen) =~= b@);
        }
    }
    rest.is_none()
}

} // verus!
