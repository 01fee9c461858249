//! The identity function.
use vstd::prelude::*;

verus! {

/// Returns its argument unchanged.
pub fn identity<T>(x: T) -> (r: T)
    ensures
        r == x,
{
    x
}

} // verus!
