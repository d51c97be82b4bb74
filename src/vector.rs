//! Fixed-length state vectors.
use vstd::prelude::*;

verus! {

/// The first three coordinates of a state, for drawing it in space.
pub fn trunc_3d<T: Copy, const D: usize>(a: [T; D]) -> (r: [T; 3])
    requires
        D >= 3,
    ensures
        r@ == a@.subrange(0, 3),
{
    let r: [T; 3] = [a[0], a[1], a[2]];
    assert(r@ =~= a@.subrange(0, 3));
    r
}

} // verus!
