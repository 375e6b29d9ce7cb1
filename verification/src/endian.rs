//! Placement of the four BGRA channels inside one packed 32-bit word.
//!
//! A packed pixel holds its four channel bytes at bit offsets that depend
//! on the machine's byte order: on a little-endian machine the first
//! planar byte (blue) occupies the least-significant byte of the word, on
//! a big-endian machine the most-significant one.  Every function here is
//! explicit about the assumed byte order, so all of them are verified for
//! both; only `native_endianness` asks the machine which one it uses.

use vstd::prelude::*;

verus! {

/// A machine byte order.
#[derive(Debug, Clone, Copy)]
pub enum Endianness {
    /// The least-significant byte of a word comes first in memory.
    Little,
    /// The most-significant byte of a word comes first in memory.
    Big,
}

/// The bit offset at which logical channel `k` (0 = blue, 1 = green,
/// 2 = red, 3 = alpha) sits inside a packed word.
pub open spec fn channel_shift(k: int, e: Endianness) -> u32 {
    match e {
        Endianness::Little => (8 * k) as u32,
        Endianness::Big => (24 - 8 * k) as u32,
    }
}

/// The packed word holding the four channel bytes `b`, `g`, `r`, `a`.
pub open spec fn pack_px(b: u8, g: u8, r: u8, a: u8, e: Endianness) -> u32 {
    ((b as u32) << channel_shift(0, e)) | ((g as u32) << channel_shift(1, e))
        | ((r as u32) << channel_shift(2, e)) | ((a as u32) << channel_shift(3, e))
}

/// The byte of logical channel `k` inside the packed word `w`.
pub open spec fn channel_of(w: u32, k: int, e: Endianness) -> u8 {
    ((w >> channel_shift(k, e)) & 0xFF) as u8
}

/// Extracting a channel from a freshly packed word gives back the byte
/// that was packed into it, on either byte order.
pub proof fn lemma_channel_of_pack(b: u8, g: u8, r: u8, a: u8, e: Endianness)
    ensures
        channel_of(pack_px(b, g, r, a, e), 0, e) == b,
        channel_of(pack_px(b, g, r, a, e), 1, e) == g,
        channel_of(pack_px(b, g, r, a, e), 2, e) == r,
        channel_of(pack_px(b, g, r, a, e), 3, e) == a,
{
    match e {
        Endianness::Little => {
            let w = ((b as u32) << 0u32) | ((g as u32) << 8u32) | ((r as u32) << 16u32) | (
            (a as u32) << 24u32);
            assert(((w >> 0u32) & 0xFF) == b) by (bit_vector)
                requires
                    w == ((b as u32) << 0u32) | ((g as u32) << 8u32) | ((r as u32) << 16u32) | (
                    (a as u32) << 24u32),
            ;
            assert(((w >> 8u32) & 0xFF) == g) by (bit_vector)
                requires
                    w == ((b as u32) << 0u32) | ((g as u32) << 8u32) | ((r as u32) << 16u32) | (
                    (a as u32) << 24u32),
            ;
            assert(((w >> 16u32) & 0xFF) == r) by (bit_vector)
                requires
                    w == ((b as u32) << 0u32) | ((g as u32) << 8u32) | ((r as u32) << 16u32) | (
                    (a as u32) << 24u32),
            ;
            assert(((w >> 24u32) & 0xFF) == a) by (bit_vector)
                requires
                    w == ((b as u32) << 0u32) | ((g as u32) << 8u32) | ((r as u32) << 16u32) | (
                    (a as u32) << 24u32),
            ;
        },
        Endianness::Big => {
            let w = ((b as u32) << 24u32) | ((g as u32) << 16u32) | ((r as u32) << 8u32) | (
            (a as u32) << 0u32);
            assert(((w >> 24u32) & 0xFF) == b) by (bit_vector)
                requires
                    w == ((b as u32) << 24u32) | ((g as u32) << 16u32) | ((r as u32) << 8u32) | (
                    (a as u32) << 0u32),
            ;
            assert(((w >> 16u32) & 0xFF) == g) by (bit_vector)
                requires
                    w == ((b as u32) << 24u32) | ((g as u32) << 16u32) | ((r as u32) << 8u32) | (
                    (a as u32) << 0u32),
            ;
            assert(((w >> 8u32) & 0xFF) == r) by (bit_vector)
                requires
                    w == ((b as u32) << 24u32) | ((g as u32) << 16u32) | ((r as u32) << 8u32) | (
                    (a as u32) << 0u32),
            ;
            assert(((w >> 0u32) & 0xFF) == a) by (bit_vector)
                requires
                    w == ((b as u32) << 24u32) | ((g as u32) << 16u32) | ((r as u32) << 8u32) | (
                    (a as u32) << 0u32),
            ;
        },
    }
}

/// Packing the four channels of a word back together gives the word
/// itself, on either byte order.
pub proof fn lemma_pack_channels_id(w: u32, e: Endianness)
    ensures
        pack_px(channel_of(w, 0, e), channel_of(w, 1, e), channel_of(w, 2, e), channel_of(w, 3, e), e)
            == w,
{
    match e {
        Endianness::Little => {
            assert(((((w >> 0u32) & 0xFF) as u8 as u32) << 0u32) | ((((w >> 8u32) & 0xFF) as u8
                as u32) << 8u32) | ((((w >> 16u32) & 0xFF) as u8 as u32) << 16u32) | ((((w >> 24u32)
                & 0xFF) as u8 as u32) << 24u32) == w) by (bit_vector);
        },
        Endianness::Big => {
            assert(((((w >> 24u32) & 0xFF) as u8 as u32) << 24u32) | ((((w >> 16u32) & 0xFF) as u8
                as u32) << 16u32) | ((((w >> 8u32) & 0xFF) as u8 as u32) << 8u32) | ((((w >> 0u32)
                & 0xFF) as u8 as u32) << 0u32) == w) by (bit_vector);
        },
    }
}

/// Packs the four channel bytes of one pixel into a word, assuming the
/// given byte order.
pub fn pack_pixel(b: u8, g: u8, r: u8, a: u8, e: Endianness) -> (w: u32)
    ensures
        w == pack_px(b, g, r, a, e),
{
    match e {
        Endianness::Little => {
            ((b as u32) << 0u32) | ((g as u32) << 8u32) | ((r as u32) << 16u32) | ((a as u32)
                << 24u32)
        },
        Endianness::Big => {
            ((b as u32) << 24u32) | ((g as u32) << 16u32) | ((r as u32) << 8u32) | ((a as u32)
                << 0u32)
        },
    }
}

/// Extracts the byte of logical channel `k` from the packed word `w`,
/// assuming the given byte order.
pub fn channel_byte(w: u32, k: usize, e: Endianness) -> (r: u8)
    requires
        k < 4,
    ensures
        r == channel_of(w, k as int, e),
{
    let shift: u32 = match e {
        Endianness::Little => 8 * (k as u32),
        Endianness::Big => 24 - 8 * (k as u32),
    };
    proof {
        assert((w >> shift) & 0xFF < 256) by (bit_vector);
    }
    ((w >> shift) & 0xFF) as u8
}

/// The byte order of the machine this process runs on.
///
/// Relies on `u32::from_ne_bytes`: its documentation states that it reads
/// the bytes in native byte order, so the word built from `[1, 0, 0, 0]`
/// is 1 exactly on a little-endian machine.  Nothing more is claimed of
/// the result: every caller is verified for both outcomes.
#[verifier::external_body]
pub fn native_endianness() -> Endianness {
    if u32::from_ne_bytes([1, 0, 0, 0]) == 1 {
        Endianness::Little
    } else {
        Endianness::Big
    }
}

} // verus!
