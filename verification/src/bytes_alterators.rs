//! The stock in-place rewrites of channel values.
//!
//! Each function rewrites the bytes of a small buffer, typically the four
//! channel values of one pixel; [`crate::bgra_management::Alterator`]
//! names the same rewrites as values, so that buffer operations can take
//! one as an argument and still have an exact contract.

use vstd::prelude::*;

verus! {

/// Sets every byte of the buffer to zero, the invisible value.
pub fn all_to_zero(bgra: &mut Vec<u8>)
    ensures
        final (bgra)@ == Seq::new(old(bgra)@.len(), |i: int| 0u8),
{
    let n: usize = bgra.len();
    let mut i: usize = 0;
    while i < n
        invariant
            i <= n,
            bgra@.len() == n,
            forall|j: int| 0 <= j < i ==> bgra@[j] == 0u8,
        decreases n - i,
    {
        bgra[i] = 0;
        i = i + 1;
    }
    proof {
        assert(bgra@ =~= Seq::new(old(bgra)@.len(), |i: int| 0u8));
    }
}

/// Turns the first pixel of the buffer into fully transparent white.
pub fn transparent_white(bgra: &mut Vec<u8>)
    requires
        old(bgra)@.len() >= 4,
    ensures
        final (bgra)@ == old(bgra)@.update(0, 255u8).update(1, 255u8).update(2, 255u8).update(
            3,
            0u8,
        ),
{
    bgra[0] = 255;
    bgra[1] = 255;
    bgra[2] = 255;
    bgra[3] = 0;
}

} // verus!
