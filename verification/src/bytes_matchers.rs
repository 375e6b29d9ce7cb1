//! The stock predicates over one pixel's four channel values.
//!
//! Each function answers whether a B, G, R, A combination belongs to a
//! class of pixels; [`crate::bgra_management::Matcher`] names the same
//! predicates as values, so that buffer operations can take one as an
//! argument and still have an exact contract.

use vstd::prelude::*;

verus! {

/// Whether the pixel shows at all: its alpha is not zero.
pub fn visible(_b: u8, _g: u8, _r: u8, a: u8) -> (res: bool)
    ensures
        res == (a > 0),
{
    a > 0
}

/// Whether the pixel shows and is not pure white.
pub fn visible_not_white(b: u8, g: u8, r: u8, a: u8) -> (res: bool)
    ensures
        res == ((b < 255 || g < 255 || r < 255) && a > 0),
{
    (b < 255 || g < 255 || r < 255) && a > 0
}

/// Whether the pixel is fully opaque.
pub fn fully_opaque(_b: u8, _g: u8, _r: u8, a: u8) -> (res: bool)
    ensures
        res == (a == 255),
{
    a == 255
}

/// Whether the pixel has any transparency.
pub fn not_fully_opaque(_b: u8, _g: u8, _r: u8, a: u8) -> (res: bool)
    ensures
        res == (a < 255),
{
    a < 255
}

} // verus!
