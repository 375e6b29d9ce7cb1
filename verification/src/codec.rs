//! Buffer-level views of the channel codec.
//!
//! A planar buffer is a sequence of bytes, four per pixel in B, G, R, A
//! order; a packed buffer is a sequence of 32-bit words, one per pixel.
//! The functions here say, pixel by pixel, what packing, unpacking,
//! channel swapping and alpha adjustment produce, and the lemmas state
//! the laws the executable code is held to: packing then unpacking is the
//! identity, and a channel swap is its own inverse.

use vstd::prelude::*;

use crate::endian::Endianness;
use crate::endian::channel_of;
use crate::endian::pack_px;
use crate::endian::lemma_channel_of_pack;
use crate::endian::lemma_pack_channels_id;

verus! {

/// The packed buffer built from a planar one: each complete run of four
/// bytes becomes one word.  Trailing bytes of an incomplete run are
/// dropped, as the byte-grouping loop never reaches them.
pub open spec fn packed_of(s: Seq<u8>, e: Endianness) -> Seq<u32> {
    Seq::new((s.len() / 4) as nat, |i: int| pack_px(s[4 * i], s[4 * i + 1], s[4 * i + 2], s[4 * i + 3], e))
}

/// The planar buffer built from a packed one: each word yields its four
/// channel bytes in logical order.
pub open spec fn planar_of(ws: Seq<u32>, e: Endianness) -> Seq<u8> {
    Seq::new((ws.len() * 4) as nat, |j: int| channel_of(ws[j / 4], j % 4, e))
}

/// Unpacking a packed buffer gives back the planar buffer it was built
/// from, whenever that buffer's length is a multiple of four, on either
/// assumed byte order.
pub proof fn lemma_planar_packed_roundtrip(s: Seq<u8>, e: Endianness)
    requires
        s.len() % 4 == 0,
    ensures
        planar_of(packed_of(s, e), e) == s,
{
    let p = packed_of(s, e);
    assert forall|j: int| 0 <= j < s.len() implies planar_of(p, e)[j] == s[j] by {
        let i = j / 4;
        lemma_channel_of_pack(s[4 * i], s[4 * i + 1], s[4 * i + 2], s[4 * i + 3], e);
    }
    assert(planar_of(p, e) =~= s);
}

/// Packing an unpacked buffer gives back the packed buffer it came from,
/// on either assumed byte order.
pub proof fn lemma_packed_planar_roundtrip(ws: Seq<u32>, e: Endianness)
    ensures
        packed_of(planar_of(ws, e), e) == ws,
{
    let s = planar_of(ws, e);
    assert forall|i: int| 0 <= i < ws.len() implies packed_of(s, e)[i] == ws[i] by {
        assert(s[4 * i] == channel_of(ws[i], 0, e));
        assert(s[4 * i + 1] == channel_of(ws[i], 1, e));
        assert(s[4 * i + 2] == channel_of(ws[i], 2, e));
        assert(s[4 * i + 3] == channel_of(ws[i], 3, e));
        lemma_pack_channels_id(ws[i], e);
    }
    assert(packed_of(s, e) =~= ws);
}

/// Where logical channel `k` of a pixel ends up when channels `i1` and
/// `i2` trade places: those two map to each other, the rest stay put.
pub open spec fn swap_idx(k: int, i1: int, i2: int) -> int {
    if k == i1 {
        i2
    } else if k == i2 {
        i1
    } else {
        k
    }
}

/// Whether a swap of channels `i1` and `i2` is a silent no-op: an
/// out-of-range index or an equal pair leaves the buffer untouched.
pub open spec fn swap_indices_degenerate(i1: int, i2: int) -> bool {
    !(0 <= i1 <= 3) || !(0 <= i2 <= 3) || i1 == i2
}

/// One packed pixel with channels `i1` and `i2` exchanged and the other
/// two channels untouched.
pub open spec fn swap_px(w: u32, i1: int, i2: int, e: Endianness) -> u32 {
    pack_px(
        channel_of(w, swap_idx(0, i1, i2), e),
        channel_of(w, swap_idx(1, i1, i2), e),
        channel_of(w, swap_idx(2, i1, i2), e),
        channel_of(w, swap_idx(3, i1, i2), e),
        e,
    )
}

/// A planar buffer with channels `i1` and `i2` of every complete
/// four-byte run exchanged; a degenerate index pair, or a length that is
/// not a multiple of four, leaves it untouched.
pub open spec fn switch_bytes_planar(s: Seq<u8>, i1: int, i2: int) -> Seq<u8> {
    if swap_indices_degenerate(i1, i2) || s.len() % 4 != 0 {
        s
    } else {
        Seq::new(s.len(), |j: int| s[4 * (j / 4) + swap_idx(j % 4, i1, i2)])
    }
}

/// A packed buffer with channels `i1` and `i2` of every pixel exchanged;
/// a degenerate index pair leaves it untouched.
pub open spec fn switch_bytes_packed(ws: Seq<u32>, i1: int, i2: int, e: Endianness) -> Seq<u32> {
    if swap_indices_degenerate(i1, i2) {
        ws
    } else {
        Seq::new(ws.len(), |i: int| swap_px(ws[i], i1, i2, e))
    }
}

/// Each channel of a swapped pixel is the corresponding swapped channel
/// of the original pixel.
pub proof fn lemma_channel_of_swap_px(w: u32, i1: int, i2: int, k: int, e: Endianness)
    requires
        0 <= k < 4,
    ensures
        channel_of(swap_px(w, i1, i2, e), k, e) == channel_of(w, swap_idx(k, i1, i2), e),
{
    lemma_channel_of_pack(
        channel_of(w, swap_idx(0, i1, i2), e),
        channel_of(w, swap_idx(1, i1, i2), e),
        channel_of(w, swap_idx(2, i1, i2), e),
        channel_of(w, swap_idx(3, i1, i2), e),
        e,
    );
}

/// Swapping the same pair of channels of a packed pixel twice gives back
/// the pixel.
pub proof fn lemma_swap_px_self_inverse(w: u32, i1: int, i2: int, e: Endianness)
    requires
        0 <= i1 <= 3,
        0 <= i2 <= 3,
    ensures
        swap_px(swap_px(w, i1, i2, e), i1, i2, e) == w,
{
    let w2 = swap_px(w, i1, i2, e);
    lemma_channel_of_swap_px(w, i1, i2, 0, e);
    lemma_channel_of_swap_px(w, i1, i2, 1, e);
    lemma_channel_of_swap_px(w, i1, i2, 2, e);
    lemma_channel_of_swap_px(w, i1, i2, 3, e);
    assert(channel_of(w2, swap_idx(0, i1, i2), e) == channel_of(w, 0, e));
    assert(channel_of(w2, swap_idx(1, i1, i2), e) == channel_of(w, 1, e));
    assert(channel_of(w2, swap_idx(2, i1, i2), e) == channel_of(w, 2, e));
    assert(channel_of(w2, swap_idx(3, i1, i2), e) == channel_of(w, 3, e));
    lemma_pack_channels_id(w, e);
}

/// Swapping the same pair of channels of a planar buffer twice gives
/// back the buffer, for every index pair including the degenerate ones.
pub proof fn lemma_switch_bytes_planar_self_inverse(s: Seq<u8>, i1: int, i2: int)
    ensures
        switch_bytes_planar(switch_bytes_planar(s, i1, i2), i1, i2) == s,
{
    if swap_indices_degenerate(i1, i2) || s.len() % 4 != 0 {
    } else {
        let s1 = switch_bytes_planar(s, i1, i2);
        assert forall|j: int| 0 <= j < s.len() implies switch_bytes_planar(s1, i1, i2)[j] == s[j] by {
            let m = 4 * (j / 4) + swap_idx(j % 4, i1, i2);
            assert(m / 4 == j / 4);
            assert(m % 4 == swap_idx(j % 4, i1, i2));
            assert(swap_idx(swap_idx(j % 4, i1, i2), i1, i2) == j % 4);
        }
        assert(switch_bytes_planar(s1, i1, i2) =~= s);
    }
}

/// Swapping the same pair of channels of a packed buffer twice gives
/// back the buffer, for every index pair including the degenerate ones,
/// on either assumed byte order.
pub proof fn lemma_switch_bytes_packed_self_inverse(ws: Seq<u32>, i1: int, i2: int, e: Endianness)
    ensures
        switch_bytes_packed(switch_bytes_packed(ws, i1, i2, e), i1, i2, e) == ws,
{
    if swap_indices_degenerate(i1, i2) {
    } else {
        let ws1 = switch_bytes_packed(ws, i1, i2, e);
        assert forall|i: int| 0 <= i < ws.len() implies switch_bytes_packed(ws1, i1, i2, e)[i]
            == ws[i] by {
            lemma_swap_px_self_inverse(ws[i], i1, i2, e);
        }
        assert(switch_bytes_packed(ws1, i1, i2, e) =~= ws);
    }
}

/// A color channel clamped down to the pixel's alpha value: what remains
/// of the channel once the display's premultiplied-alpha path is
/// approximated by a plain cut-off.
pub open spec fn clamp_to_alpha(c: u8, a: u8) -> u8 {
    if c > a {
        a
    } else {
        c
    }
}

/// A planar buffer with every complete pixel's three color channels
/// clamped down to that pixel's alpha value; trailing bytes of an
/// incomplete run are dropped, as the grouping loop never reaches them.
pub open spec fn adjust_planar(s: Seq<u8>) -> Seq<u8> {
    Seq::new(
        (4 * (s.len() / 4)) as nat,
        |j: int|
            if j % 4 == 3 {
                s[j]
            } else {
                clamp_to_alpha(s[j], s[4 * (j / 4) + 3])
            },
    )
}

/// One packed pixel with its three color channels clamped down to its
/// alpha channel.
pub open spec fn adjust_px(w: u32, e: Endianness) -> u32 {
    pack_px(
        clamp_to_alpha(channel_of(w, 0, e), channel_of(w, 3, e)),
        clamp_to_alpha(channel_of(w, 1, e), channel_of(w, 3, e)),
        clamp_to_alpha(channel_of(w, 2, e), channel_of(w, 3, e)),
        channel_of(w, 3, e),
        e,
    )
}

/// A packed buffer with every pixel's color channels clamped down to its
/// alpha channel.
pub open spec fn adjust_packed(ws: Seq<u32>, e: Endianness) -> Seq<u32> {
    Seq::new(ws.len(), |i: int| adjust_px(ws[i], e))
}

} // verus!
