//! Whole-buffer recoloring of planar BGRA buffers.
//!
//! A planar buffer is reinterpreted as a run of four-byte pixels; every
//! operation here visits each complete pixel once and rewrites it
//! according to a rule.  The rules a caller can choose from are closed:
//! a [`Matcher`] names a predicate over the four channel values and an
//! [`Alterator`] names a rewrite of them, which lets each operation say
//! exactly which buffer it produces.

use vstd::prelude::*;
use vstd::slice::slice_to_vec;

use crate::codec::packed_of;
use crate::codec::planar_of;
use crate::codec::swap_idx;
use crate::codec::swap_px;
use crate::codec::switch_bytes_packed;
use crate::codec::switch_bytes_planar;
use crate::endian::Endianness;
use crate::endian::channel_byte;
use crate::endian::channel_shift;
use crate::endian::pack_pixel;
use crate::endian::native_endianness;
use crate::pixels_string::BGRA;

verus! {

/// A predicate over one pixel's four channel values.  The variants name
/// the same classes as the functions of [`crate::bytes_matchers`],
/// together with the exact-match tests the recoloring helpers use.
#[derive(Debug, Clone, Copy)]
pub enum Matcher {
    /// The pixel shows at all: alpha is not zero.
    Visible,
    /// The pixel shows and is not pure white.
    VisibleNotWhite,
    /// The pixel is fully opaque.
    FullyOpaque,
    /// The pixel has any transparency.
    NotFullyOpaque,
    /// All four channels equal the given values.
    MatchBgra(u8, u8, u8, u8),
    /// The three color channels equal the given values.
    MatchBgr(u8, u8, u8),
    /// The alpha channel equals the given value.
    MatchAlpha(u8),
    /// Every pixel matches.
    Always,
}

impl Matcher {
    /// Whether the predicate holds of the four channel values.
    pub open spec fn holds(self, b: u8, g: u8, r: u8, a: u8) -> bool {
        match self {
            Matcher::Visible => a > 0,
            Matcher::VisibleNotWhite => (b < 255 || g < 255 || r < 255) && a > 0,
            Matcher::FullyOpaque => a == 255,
            Matcher::NotFullyOpaque => a < 255,
            Matcher::MatchBgra(mb, mg, mr, ma) => b == mb && g == mg && r == mr && a == ma,
            Matcher::MatchBgr(mb, mg, mr) => b == mb && g == mg && r == mr,
            Matcher::MatchAlpha(ma) => a == ma,
            Matcher::Always => true,
        }
    }

    /// Evaluates the predicate on the four channel values.
    pub fn matches(&self, b: u8, g: u8, r: u8, a: u8) -> (res: bool)
        ensures
            res == self.holds(b, g, r, a),
    {
        match self {
            Matcher::Visible => a > 0,
            Matcher::VisibleNotWhite => (b < 255 || g < 255 || r < 255) && a > 0,
            Matcher::FullyOpaque => a == 255,
            Matcher::NotFullyOpaque => a < 255,
            Matcher::MatchBgra(mb, mg, mr, ma) => b == *mb && g == *mg && r == *mr && a == *ma,
            Matcher::MatchBgr(mb, mg, mr) => b == *mb && g == *mg && r == *mr,
            Matcher::MatchAlpha(ma) => a == *ma,
            Matcher::Always => true,
        }
    }
}

/// A rewrite of one pixel's four channel values.  The variants name the
/// rewrites of [`crate::bytes_alterators`] and the constant rewrite the
/// recoloring helpers use.
#[derive(Debug, Clone, Copy)]
pub enum Alterator {
    /// Every channel becomes zero, the invisible value.
    AllToZero,
    /// The pixel becomes fully transparent white.
    TransparentWhite,
    /// The four channels become the given values.
    SetBgra(u8, u8, u8, u8),
    /// The three color channels become the given values; the pixel's
    /// alpha stays.
    SetBgr(u8, u8, u8),
}

impl Alterator {
    /// The channel values the rewrite leaves behind.
    pub open spec fn altered(self, b: u8, g: u8, r: u8, a: u8) -> (u8, u8, u8, u8) {
        match self {
            Alterator::AllToZero => (0u8, 0u8, 0u8, 0u8),
            Alterator::TransparentWhite => (255u8, 255u8, 255u8, 0u8),
            Alterator::SetBgra(nb, ng, nr, na) => (nb, ng, nr, na),
            Alterator::SetBgr(nb, ng, nr) => (nb, ng, nr, a),
        }
    }

    /// Applies the rewrite to the four channel values.
    pub fn alter(&self, b: u8, g: u8, r: u8, a: u8) -> (res: (u8, u8, u8, u8))
        ensures
            res == self.altered(b, g, r, a),
    {
        match self {
            Alterator::AllToZero => (0u8, 0u8, 0u8, 0u8),
            Alterator::TransparentWhite => (255u8, 255u8, 255u8, 0u8),
            Alterator::SetBgra(nb, ng, nr, na) => (*nb, *ng, *nr, *na),
            Alterator::SetBgr(nb, ng, nr) => (*nb, *ng, *nr, a),
        }
    }
}

/// The four channel values of pixel `i` of a planar buffer.
pub open spec fn chunk_at(s: Seq<u8>, i: int) -> (u8, u8, u8, u8) {
    (s[4 * i], s[4 * i + 1], s[4 * i + 2], s[4 * i + 3])
}

/// Component `k` of a four-channel tuple.
pub open spec fn tuple_nth(t: (u8, u8, u8, u8), k: int) -> u8 {
    if k == 0 {
        t.0
    } else if k == 1 {
        t.1
    } else if k == 2 {
        t.2
    } else {
        t.3
    }
}

/// The buffer in which every complete four-byte pixel is rewritten by
/// `f`; trailing bytes of an incomplete pixel stay as they are.
pub open spec fn map_chunks(s: Seq<u8>, f: spec_fn((u8, u8, u8, u8)) -> (u8, u8, u8, u8)) -> Seq<
    u8,
> {
    Seq::new(
        s.len(),
        |j: int|
            if 4 * (j / 4) + 3 < s.len() {
                tuple_nth(f(chunk_at(s, j / 4)), j % 4)
            } else {
                s[j]
            },
    )
}

/// The buffer in which every complete pixel matched by `m` is rewritten
/// by `alt`, and every other byte stays as it is.
pub open spec fn recolor_chunks(s: Seq<u8>, m: Matcher, alt: Alterator) -> Seq<u8> {
    map_chunks(
        s,
        (|c: (u8, u8, u8, u8)|
            if m.holds(c.0, c.1, c.2, c.3) {
                alt.altered(c.0, c.1, c.2, c.3)
            } else {
                c
            }),
    )
}

/// Rewrites, in place, every complete pixel matched by `m` with `alt`.
/// This one loop carries all the matcher-driven recoloring operations.
pub fn recolor(vec: &mut Vec<u8>, m: Matcher, alt: Alterator)
    ensures
        final (vec)@ == recolor_chunks(old(vec)@, m, alt),
{
    let ghost target = recolor_chunks(old(vec)@, m, alt);
    let len: usize = vec.len();
    let n: usize = len / 4;
    proof {
        assert(4 * ((len as int) / 4) <= len as int) by (nonlinear_arith);
    }
    let mut px: usize = 0;
    let mut i: usize = 0;
    while px < n
        invariant
            i == 4 * px,
            px <= n,
            n == old(vec)@.len() / 4,
            4 * n <= old(vec)@.len() <= usize::MAX,
            vec@.len() == old(vec)@.len(),
            target == recolor_chunks(old(vec)@, m, alt),
            forall|j: int| 0 <= j < i ==> vec@[j] == target[j],
            forall|j: int| i <= j < vec@.len() ==> vec@[j] == old(vec)@[j],
        decreases n - px,
    {
        let b: u8 = vec[i];
        let g: u8 = vec[i + 1];
        let r: u8 = vec[i + 2];
        let a: u8 = vec[i + 3];
        if m.matches(b, g, r, a) {
            let (nb, ng, nr, na): (u8, u8, u8, u8) = alt.alter(b, g, r, a);
            vec[i] = nb;
            vec[i + 1] = ng;
            vec[i + 2] = nr;
            vec[i + 3] = na;
        }
        proof {
            assert(chunk_at(old(vec)@, px as int) == (b, g, r, a));
            assert forall|j: int| i <= j < i + 4 implies vec@[j] == target[j] by {
                assert(j / 4 == px as int);
                assert(4 * (j / 4) + 3 < old(vec)@.len());
            }
        }
        i = i + 4;
        px = px + 1;
    }
    proof {
        assert forall|j: int| i <= j < vec@.len() implies vec@[j] == target[j] by {
            assert(4 * (j / 4) + 3 >= old(vec)@.len());
        }
        assert(vec@ =~= target);
    }
}

/// The buffer in which every complete pixel whose byte at position `pos`
/// is below 255 becomes invisible; a position beyond 3 leaves the buffer
/// untouched.
pub open spec fn alpha_not_max_clear_chunks(s: Seq<u8>, pos: int) -> Seq<u8> {
    if pos > 3 {
        s
    } else {
        map_chunks(
            s,
            (|c: (u8, u8, u8, u8)|
                if tuple_nth(c, pos) < 255 {
                    (0u8, 0u8, 0u8, 0u8)
                } else {
                    c
                }),
        )
    }
}

/// A planar buffer updated with the given channel values at the four
/// bytes starting at `idx`.
pub open spec fn write_bgra_at(s: Seq<u8>, idx: int, b: u8, g: u8, r: u8, a: u8) -> Seq<u8> {
    s.update(idx, b).update(idx + 1, g).update(idx + 2, r).update(idx + 3, a)
}

/// A planar buffer updated with the given channel values at each of the
/// byte addresses in turn.
pub open spec fn write_bgra_at_addresses(
    s: Seq<u8>,
    addrs: Seq<usize>,
    b: u8,
    g: u8,
    r: u8,
    a: u8,
) -> Seq<u8>
    decreases addrs.len(),
{
    if addrs.len() == 0 {
        s
    } else {
        write_bgra_at_addresses(
            write_bgra_at(s, addrs[0] as int, b, g, r, a),
            addrs.skip(1),
            b,
            g,
            r,
            a,
        )
    }
}

/// A planar buffer updated at each byte address in turn with those of
/// the given channel values that are present; an absent value leaves its
/// byte alone.
pub open spec fn write_optional_bgra_at_addresses(
    s: Seq<u8>,
    addrs: Seq<usize>,
    b: Option<u8>,
    g: Option<u8>,
    r: Option<u8>,
    a: Option<u8>,
) -> Seq<u8>
    decreases addrs.len(),
{
    if addrs.len() == 0 {
        s
    } else {
        let idx = addrs[0] as int;
        let s1 = if b is Some {
            s.update(idx, b->0)
        } else {
            s
        };
        let s2 = if g is Some {
            s1.update(idx + 1, g->0)
        } else {
            s1
        };
        let s3 = if r is Some {
            s2.update(idx + 2, r->0)
        } else {
            s2
        };
        let s4 = if a is Some {
            s3.update(idx + 3, a->0)
        } else {
            s3
        };
        write_optional_bgra_at_addresses(s4, addrs.skip(1), b, g, r, a)
    }
}

/// A planar buffer of row stride `stride` updated with the given channel
/// values at each `(x, y)` pixel position in turn.
pub open spec fn write_bgra_at_positions(
    s: Seq<u8>,
    stride: int,
    pos: Seq<(usize, usize)>,
    b: u8,
    g: u8,
    r: u8,
    a: u8,
) -> Seq<u8>
    decreases pos.len(),
{
    if pos.len() == 0 {
        s
    } else {
        write_bgra_at_positions(
            write_bgra_at(s, stride * pos[0].1 + 4 * pos[0].0, b, g, r, a),
            stride,
            pos.skip(1),
            b,
            g,
            r,
            a,
        )
    }
}

/// In-place recoloring of a buffer of `T`-typed samples, pixel by pixel.
/// Only planar byte buffers implement it; the view bound lets the
/// contracts below speak of the buffer's bytes.
pub trait ColorAlteration<T: crate::pixels::PixelValues<T>>: View<V = Seq<u8>> {
    /// Sets the three color channels of every pixel, keeping each
    /// pixel's alpha.
    fn set_bgr(&mut self, b: u8, g: u8, r: u8);

    /// Writes the given channel values at each of the byte addresses.
    fn set_addresses_bgra(&mut self, bytes_addresses: &[usize], b: u8, g: u8, r: u8, a: u8)
        requires
            forall|k: int|
                0 <= k < bytes_addresses@.len() ==> bytes_addresses@[k] + 3 < old(self)@.len(),
    ;

    /// Writes those of the given channel values that are present at each
    /// of the byte addresses; an absent value leaves its byte alone.
    fn set_addresses_optional_bgra(
        &mut self,
        bytes_addresses: &[usize],
        b: Option<u8>,
        g: Option<u8>,
        r: Option<u8>,
        a: Option<u8>,
    )
        requires
            forall|k: int|
                0 <= k < bytes_addresses@.len() ==> bytes_addresses@[k] + 3 < old(self)@.len(),
    ;

    /// Writes the given channel values at each `(x, y)` pixel position,
    /// on a buffer representing a rectangle `height` pixels high.
    fn set_positions_bgra(
        &mut self,
        height: usize,
        vec_pos: &[(usize, usize)],
        b: u8,
        g: u8,
        r: u8,
        a: u8,
    )
        requires
            height > 0,
            forall|k: int|
                0 <= k < vec_pos@.len() ==> ((old(self)@.len() as int) / (height as int)) * (
                vec_pos@[k].1 as int) + 4 * (vec_pos@[k].0 as int) + 3 < old(self)@.len(),
    ;

    /// Where a pixel's color channels equal the given B, G, R, sets its
    /// alpha to `a`.
    fn match_bgr_set_alpha(&mut self, b: u8, g: u8, r: u8, a: u8);

    /// Where a pixel's alpha equals `a`, sets its color channels to the
    /// given B, G, R.
    fn match_alpha_set_bgr(&mut self, a: u8, b: u8, g: u8, r: u8);

    /// Where a pixel's four channels equal the given values, replaces
    /// them with the four new ones.
    fn match_bgra_set_bgra(
        &mut self,
        b: u8,
        g: u8,
        r: u8,
        a: u8,
        new_b: u8,
        new_g: u8,
        new_r: u8,
        new_a: u8,
    );

    /// Where a pixel satisfies the matcher, sets its four channels to
    /// the given values.
    fn color_matcher_and_new_color(&mut self, bytes_matcher: Matcher, v0: u8, v1: u8, v2: u8, v3: u8);

    /// Where a pixel satisfies the matcher, rewrites it with the
    /// alterator.
    fn color_matcher_and_alterator(&mut self, bytes_matcher: Matcher, bytes_alterator: Alterator);

    /// Where the byte at position `alpha_pos_in_byte` of a pixel is not
    /// 255, makes the pixel invisible; a position beyond 3 is a no-op.
    fn alpha_not_max_clear_color(&mut self, alpha_pos_in_byte: usize);
}

impl ColorAlteration<u8> for Vec<u8> {
    fn set_bgr(&mut self, b: u8, g: u8, r: u8)
        ensures
            final (self)@ == recolor_chunks(old(self)@, Matcher::Always, Alterator::SetBgr(b, g, r)),
    {
        recolor(self, Matcher::Always, Alterator::SetBgr(b, g, r));
    }

    fn set_addresses_bgra(&mut self, bytes_addresses: &[usize], b: u8, g: u8, r: u8, a: u8)
        ensures
            final (self)@ == write_bgra_at_addresses(old(self)@, bytes_addresses@, b, g, r, a),
    {
        let ghost s0 = self@;
        let ghost addrs = bytes_addresses@;
        let len: usize = self.len();
        proof {
            assert(addrs.skip(0) =~= addrs);
        }
        let mut k: usize = 0;
        while k < bytes_addresses.len()
            invariant
                k <= addrs.len(),
                addrs == bytes_addresses@,
                self@.len() == s0.len(),
                s0.len() <= usize::MAX,
                forall|m: int| 0 <= m < addrs.len() ==> addrs[m] + 3 < s0.len(),
                write_bgra_at_addresses(s0, addrs, b, g, r, a) == write_bgra_at_addresses(
                    self@,
                    addrs.skip(k as int),
                    b,
                    g,
                    r,
                    a,
                ),
            decreases addrs.len() - k,
        {
            let idx: usize = bytes_addresses[k];
            proof {
                assert(addrs[k as int] + 3 < s0.len());
            }
            let ghost before = self@;
            self[idx] = b;
            self[idx + 1] = g;
            self[idx + 2] = r;
            self[idx + 3] = a;
            proof {
                assert(self@ =~= write_bgra_at(before, idx as int, b, g, r, a));
                assert(addrs.skip(k as int)[0] == addrs[k as int]);
                assert(addrs.skip(k as int).skip(1) =~= addrs.skip(k as int + 1));
            }
            k = k + 1;
        }
        proof {
            assert(write_bgra_at_addresses(self@, addrs.skip(addrs.len() as int), b, g, r, a)
                == self@);
        }
    }

    fn set_addresses_optional_bgra(
        &mut self,
        bytes_addresses: &[usize],
        b: Option<u8>,
        g: Option<u8>,
        r: Option<u8>,
        a: Option<u8>,
    )
        ensures
            final (self)@ == write_optional_bgra_at_addresses(
                old(self)@,
                bytes_addresses@,
                b,
                g,
                r,
                a,
            ),
    {
        let ghost s0 = self@;
        let ghost addrs = bytes_addresses@;
        let len: usize = self.len();
        proof {
            assert(addrs.skip(0) =~= addrs);
        }
        let mut k: usize = 0;
        while k < bytes_addresses.len()
            invariant
                k <= addrs.len(),
                addrs == bytes_addresses@,
                self@.len() == s0.len(),
                s0.len() <= usize::MAX,
                forall|m: int| 0 <= m < addrs.len() ==> addrs[m] + 3 < s0.len(),
                write_optional_bgra_at_addresses(s0, addrs, b, g, r, a)
                    == write_optional_bgra_at_addresses(self@, addrs.skip(k as int), b, g, r, a),
            decreases addrs.len() - k,
        {
            let idx: usize = bytes_addresses[k];
            proof {
                assert(addrs[k as int] + 3 < s0.len());
            }
            let ghost before = self@;
            if let Some(x) = b {
                self[idx] = x;
            }
            if let Some(x) = g {
                self[idx + 1] = x;
            }
            if let Some(x) = r {
                self[idx + 2] = x;
            }
            if let Some(x) = a {
                self[idx + 3] = x;
            }
            proof {
                let s1 = if b is Some {
                    before.update(idx as int, b->0)
                } else {
                    before
                };
                let s2 = if g is Some {
                    s1.update(idx as int + 1, g->0)
                } else {
                    s1
                };
                let s3 = if r is Some {
                    s2.update(idx as int + 2, r->0)
                } else {
                    s2
                };
                let s4 = if a is Some {
                    s3.update(idx as int + 3, a->0)
                } else {
                    s3
                };
                assert(self@ =~= s4);
                assert(addrs.skip(k as int)[0] == addrs[k as int]);
                assert(addrs.skip(k as int).skip(1) =~= addrs.skip(k as int + 1));
            }
            k = k + 1;
        }
        proof {
            assert(write_optional_bgra_at_addresses(
                self@,
                addrs.skip(addrs.len() as int),
                b,
                g,
                r,
                a,
            ) == self@);
        }
    }

    fn set_positions_bgra(
        &mut self,
        height: usize,
        vec_pos: &[(usize, usize)],
        b: u8,
        g: u8,
        r: u8,
        a: u8,
    )
        ensures
            final (self)@ == write_bgra_at_positions(
                old(self)@,
                (old(self)@.len() as int) / (height as int),
                vec_pos@,
                b,
                g,
                r,
                a,
            ),
    {
        let ghost s0 = self@;
        let ghost pos = vec_pos@;
        let stride: usize = self.len() / height;
        proof {
            assert(pos.skip(0) =~= pos);
        }
        let mut k: usize = 0;
        while k < vec_pos.len()
            invariant
                k <= pos.len(),
                pos == vec_pos@,
                self@.len() == s0.len(),
                s0.len() <= usize::MAX,
                stride == (s0.len() as int) / (height as int),
                forall|m: int|
                    0 <= m < pos.len() ==> ((s0.len() as int) / (height as int)) * (pos[m].1 as int) + 4 * (
                    pos[m].0 as int) + 3 < s0.len(),
                write_bgra_at_positions(s0, stride as int, pos, b, g, r, a)
                    == write_bgra_at_positions(self@, stride as int, pos.skip(k as int), b, g, r, a),
            decreases pos.len() - k,
        {
            let (x, y): (usize, usize) = vec_pos[k];
            proof {
                assert((stride as int) * (pos[k as int].1 as int) + 4 * (pos[k as int].0 as int) + 3
                    < s0.len());
                vstd::arithmetic::mul::lemma_mul_nonnegative(stride as int, pos[k as int].1 as int);
            }
            let idx: usize = stride * y + 4 * x;
            let ghost before = self@;
            self[idx] = b;
            self[idx + 1] = g;
            self[idx + 2] = r;
            self[idx + 3] = a;
            proof {
                assert(self@ =~= write_bgra_at(before, idx as int, b, g, r, a));
                assert(pos.skip(k as int)[0] == pos[k as int]);
                assert(pos.skip(k as int).skip(1) =~= pos.skip(k as int + 1));
            }
            k = k + 1;
        }
        proof {
            assert(write_bgra_at_positions(
                self@,
                stride as int,
                pos.skip(pos.len() as int),
                b,
                g,
                r,
                a,
            ) == self@);
        }
    }

    fn match_bgr_set_alpha(&mut self, b: u8, g: u8, r: u8, a: u8)
        ensures
            final (self)@ == recolor_chunks(
                old(self)@,
                Matcher::MatchBgr(b, g, r),
                Alterator::SetBgra(b, g, r, a),
            ),
    {
        recolor(self, Matcher::MatchBgr(b, g, r), Alterator::SetBgra(b, g, r, a));
    }

    fn match_alpha_set_bgr(&mut self, a: u8, b: u8, g: u8, r: u8)
        ensures
            final (self)@ == recolor_chunks(
                old(self)@,
                Matcher::MatchAlpha(a),
                Alterator::SetBgra(b, g, r, a),
            ),
    {
        recolor(self, Matcher::MatchAlpha(a), Alterator::SetBgra(b, g, r, a));
    }

    fn match_bgra_set_bgra(
        &mut self,
        b: u8,
        g: u8,
        r: u8,
        a: u8,
        new_b: u8,
        new_g: u8,
        new_r: u8,
        new_a: u8,
    )
        ensures
            final (self)@ == recolor_chunks(
                old(self)@,
                Matcher::MatchBgra(b, g, r, a),
                Alterator::SetBgra(new_b, new_g, new_r, new_a),
            ),
    {
        recolor(self, Matcher::MatchBgra(b, g, r, a), Alterator::SetBgra(new_b, new_g, new_r, new_a));
    }

    fn color_matcher_and_new_color(&mut self, bytes_matcher: Matcher, v0: u8, v1: u8, v2: u8, v3: u8)
        ensures
            final (self)@ == recolor_chunks(
                old(self)@,
                bytes_matcher,
                Alterator::SetBgra(v0, v1, v2, v3),
            ),
    {
        recolor(self, bytes_matcher, Alterator::SetBgra(v0, v1, v2, v3));
    }

    fn color_matcher_and_alterator(&mut self, bytes_matcher: Matcher, bytes_alterator: Alterator)
        ensures
            final (self)@ == recolor_chunks(old(self)@, bytes_matcher, bytes_alterator),
    {
        recolor(self, bytes_matcher, bytes_alterator);
    }

    fn alpha_not_max_clear_color(&mut self, alpha_pos_in_byte: usize)
        ensures
            final (self)@ == alpha_not_max_clear_chunks(old(self)@, alpha_pos_in_byte as int),
    {
        let ghost target = alpha_not_max_clear_chunks(self@, alpha_pos_in_byte as int);
        if alpha_pos_in_byte > 3 {
            return ;
        }
        let len: usize = self.len();
        let n: usize = len / 4;
        proof {
            assert(4 * ((len as int) / 4) <= len as int) by (nonlinear_arith);
        }
        let mut px: usize = 0;
        let mut i: usize = 0;
        while px < n
            invariant
                alpha_pos_in_byte <= 3,
                i == 4 * px,
                px <= n,
                n == old(self)@.len() / 4,
                4 * n <= old(self)@.len() <= usize::MAX,
                self@.len() == old(self)@.len(),
                target == alpha_not_max_clear_chunks(old(self)@, alpha_pos_in_byte as int),
                forall|j: int| 0 <= j < i ==> self@[j] == target[j],
                forall|j: int| i <= j < self@.len() ==> self@[j] == old(self)@[j],
            decreases n - px,
        {
            let probe: u8 = self[i + alpha_pos_in_byte];
            if probe < 255 {
                self[i] = 0;
                self[i + 1] = 0;
                self[i + 2] = 0;
                self[i + 3] = 0;
            }
            proof {
                assert(chunk_at(old(self)@, px as int) == (
                    old(self)@[4 * (px as int)],
                    old(self)@[4 * (px as int) + 1],
                    old(self)@[4 * (px as int) + 2],
                    old(self)@[4 * (px as int) + 3],
                ));
                assert(tuple_nth(chunk_at(old(self)@, px as int), alpha_pos_in_byte as int)
                    == old(self)@[4 * (px as int) + alpha_pos_in_byte]);
                assert forall|j: int| i <= j < i + 4 implies self@[j] == target[j] by {
                    assert(j / 4 == px as int);
                    assert(4 * (j / 4) + 3 < old(self)@.len());
                }
            }
            i = i + 4;
            px = px + 1;
        }
        proof {
            assert forall|j: int| i <= j < self@.len() implies self@[j] == target[j] by {
                assert(4 * (j / 4) + 3 >= old(self)@.len());
            }
            assert(self@ =~= target);
        }
    }
}

/// Groups each complete run of four planar bytes into one packed word,
/// under the given byte order.
pub fn pack_planar_bytes(vec: &[u8], e: Endianness) -> (r: Vec<u32>)
    ensures
        r@ == packed_of(vec@, e),
{
    let mut out: Vec<u32> = Vec::new();
    let n: usize = vec.len() / 4;
    let mut px: usize = 0;
    let mut i: usize = 0;
    proof {
        assert(4 * ((vec@.len() as int) / 4) <= vec@.len() as int) by (nonlinear_arith);
    }
    while px < n
        invariant
            i == 4 * px,
            px <= n,
            n == vec@.len() / 4,
            4 * n <= vec@.len() <= usize::MAX,
            out@ =~= packed_of(vec@, e).subrange(0, px as int),
        decreases n - px,
    {
        let w: u32 = pack_pixel(vec[i], vec[i + 1], vec[i + 2], vec[i + 3], e);
        out.push(w);
        proof {
            assert(out@ =~= packed_of(vec@, e).subrange(0, px as int + 1));
        }
        i = i + 4;
        px = px + 1;
    }
    proof {
        assert(out@ =~= packed_of(vec@, e));
    }
    out
}

/// Spreads each packed word into its four planar channel bytes, under
/// the given byte order.
pub fn unpack_packed_words(vec: &[u32], e: Endianness) -> (r: Vec<u8>)
    ensures
        r@ == planar_of(vec@, e),
{
    let mut out: Vec<u8> = Vec::new();
    let n: usize = vec.len();
    let mut px: usize = 0;
    while px < n
        invariant
            px <= n,
            n == vec@.len(),
            out@.len() == 4 * px,
            out@ =~= planar_of(vec@, e).subrange(0, 4 * px as int),
        decreases n - px,
    {
        let w: u32 = vec[px];
        out.push(channel_byte(w, 0, e));
        out.push(channel_byte(w, 1, e));
        out.push(channel_byte(w, 2, e));
        out.push(channel_byte(w, 3, e));
        proof {
            assert forall|j: int| 0 <= j < 4 * (px as int) + 4 implies out@[j] == planar_of(
                vec@,
                e,
            )[j] by {
                if j >= 4 * (px as int) {
                    assert(j / 4 == px as int);
                }
            }
            assert(out@ =~= planar_of(vec@, e).subrange(0, 4 * (px as int) + 4));
        }
        px = px + 1;
    }
    proof {
        assert(out@ =~= planar_of(vec@, e));
    }
    out
}

/// Exchanges logical channels `i1` and `i2` of every packed word in
/// place, under the given byte order; an out-of-range or equal index
/// pair is a silent no-op.
pub fn switch_packed_vec(vec: &mut Vec<u32>, i1: usize, i2: usize, e: Endianness)
    ensures
        final (vec)@ == switch_bytes_packed(old(vec)@, i1 as int, i2 as int, e),
{
    if i1 > 3 || i2 > 3 || i1 == i2 {
        return ;
    }
    let n: usize = vec.len();
    let mut k: usize = 0;
    while k < n
        invariant
            i1 <= 3,
            i2 <= 3,
            i1 != i2,
            k <= n,
            n == old(vec)@.len(),
            vec@.len() == n,
            forall|m: int|
                0 <= m < k ==> vec@[m] == swap_px(old(vec)@[m], i1 as int, i2 as int, e),
            forall|m: int| k <= m < n ==> vec@[m] == old(vec)@[m],
        decreases n - k,
    {
        let w: u32 = vec[k];
        let c0: u8 = channel_byte(w, if 0 == i1 { i2 } else if 0 == i2 { i1 } else { 0 }, e);
        let c1: u8 = channel_byte(w, if 1 == i1 { i2 } else if 1 == i2 { i1 } else { 1 }, e);
        let c2: u8 = channel_byte(w, if 2 == i1 { i2 } else if 2 == i2 { i1 } else { 2 }, e);
        let c3: u8 = channel_byte(w, if 3 == i1 { i2 } else if 3 == i2 { i1 } else { 3 }, e);
        vec[k] = pack_pixel(c0, c1, c2, c3, e);
        k = k + 1;
    }
    proof {
        assert(vec@ =~= switch_bytes_packed(old(vec)@, i1 as int, i2 as int, e));
    }
}

/// Switches pixels' channel byte positions and converts between the
/// planar and packed sample types.
pub trait SwitchBytes<T: crate::pixels::PixelValues<T>, U: crate::pixels::PixelValues<U>> {
    /// Exchanges channels `v1` and `v2` of every pixel in place; an
    /// out-of-range or equal index pair is a silent no-op, as is (for
    /// planar buffers) a length that is not a multiple of four.
    fn switch_bytes(vec: &mut Vec<T>, v1: usize, v2: usize);

    /// Returns a copy of the buffer with the blue and red channels of
    /// every pixel exchanged: a BGRA buffer becomes RGBA and the other
    /// way round.
    fn swap_blue_with_red(vec: &[T]) -> Vec<T>;

    /// Converts between the planar and packed layouts of the same
    /// pixels, using the machine's native byte order.
    fn u8_u32_casting(vec: &[T]) -> Vec<U>;
}

impl SwitchBytes<u8, u32> for u8 {
    fn switch_bytes(vec: &mut Vec<u8>, i1: usize, i2: usize)
        ensures
            final (vec)@ == switch_bytes_planar(old(vec)@, i1 as int, i2 as int),
    {
        if i1 > 3 || i2 > 3 || i1 == i2 || vec.len() % 4 != 0 {
            return ;
        }
        let ghost target = switch_bytes_planar(old(vec)@, i1 as int, i2 as int);
        let len: usize = vec.len();
        let n: usize = len / 4;
        proof {
            assert(4 * ((len as int) / 4) <= len as int) by (nonlinear_arith);
        }
        let mut px: usize = 0;
        let mut i: usize = 0;
        while px < n
            invariant
                i1 <= 3,
                i2 <= 3,
                i1 != i2,
                i == 4 * px,
                px <= n,
                n == old(vec)@.len() / 4,
                old(vec)@.len() % 4 == 0,
                4 * n <= old(vec)@.len() <= usize::MAX,
                vec@.len() == old(vec)@.len(),
                target == switch_bytes_planar(old(vec)@, i1 as int, i2 as int),
                forall|j: int| 0 <= j < i ==> vec@[j] == target[j],
                forall|j: int| i <= j < vec@.len() ==> vec@[j] == old(vec)@[j],
            decreases n - px,
        {
            let t1: u8 = vec[i + i1];
            let t2: u8 = vec[i + i2];
            vec[i + i1] = t2;
            vec[i + i2] = t1;
            proof {
                assert forall|j: int| i <= j < i + 4 implies vec@[j] == target[j] by {
                    assert(j / 4 == px as int);
                    assert(4 * (j / 4) + swap_idx(j % 4, i1 as int, i2 as int) == i + swap_idx(
                        j % 4,
                        i1 as int,
                        i2 as int,
                    ));
                }
            }
            i = i + 4;
            px = px + 1;
        }
        proof {
            assert(vec@ =~= target);
        }
    }

    fn swap_blue_with_red(vec_bgra: &[u8]) -> (r: Vec<u8>)
        ensures
            r@ == switch_bytes_planar(vec_bgra@, 0, 2),
    {
        let mut vec_rgba: Vec<u8> = slice_to_vec(vec_bgra);
        <u8 as SwitchBytes<u8, u32>>::switch_bytes(&mut vec_rgba, 0, 2);
        vec_rgba
    }

    fn u8_u32_casting(vec: &[u8]) -> (r: Vec<u32>)
        ensures
            r@ == packed_of(vec@, Endianness::Little) || r@ == packed_of(vec@, Endianness::Big),
    {
        let e = native_endianness();
        pack_planar_bytes(vec, e)
    }
}

impl SwitchBytes<u32, u8> for u32 {
    fn switch_bytes(vec: &mut Vec<u32>, i1: usize, i2: usize)
        ensures
            final (vec)@ == switch_bytes_packed(old(vec)@, i1 as int, i2 as int, Endianness::Little)
                || final (vec)@ == switch_bytes_packed(
                old(vec)@,
                i1 as int,
                i2 as int,
                Endianness::Big,
            ),
    {
        let e = native_endianness();
        switch_packed_vec(vec, i1, i2, e);
    }

    fn swap_blue_with_red(vec_bgra: &[u32]) -> (r: Vec<u32>)
        ensures
            r@ == switch_bytes_packed(vec_bgra@, 0, 2, Endianness::Little) || r@
                == switch_bytes_packed(vec_bgra@, 0, 2, Endianness::Big),
    {
        let e = native_endianness();
        let mut vec_rgba: Vec<u32> = slice_to_vec(vec_bgra);
        switch_packed_vec(&mut vec_rgba, 0, 2, e);
        vec_rgba
    }

    fn u8_u32_casting(vec: &[u32]) -> (r: Vec<u8>)
        ensures
            r@ == planar_of(vec@, Endianness::Little) || r@ == planar_of(vec@, Endianness::Big),
    {
        let e = native_endianness();
        unpack_packed_words(vec, e)
    }
}

/// The bit offsets of the four logical channels inside a packed word,
/// and the mask words that isolate each channel, for the byte order of
/// the machine this process runs on.  Either the little-endian or the
/// big-endian table comes back; callers must be correct for both.
pub fn u32_bytes_oredered_indexes_and_fullvalues() -> (r: ([usize; 4], [u32; 4]))
    ensures
        ({
            ||| (forall|k: int|
                0 <= k < 4 ==> r.0@[k] == channel_shift(k, Endianness::Little) && r.1@[k] == (
                0xFFu32 << channel_shift(k, Endianness::Little)))
            ||| (forall|k: int|
                0 <= k < 4 ==> r.0@[k] == channel_shift(k, Endianness::Big) && r.1@[k] == (0xFFu32
                << channel_shift(k, Endianness::Big)))
        }),
{
    proof {
        assert(0xFFu32 << 0u32 == 0xFFu32) by (bit_vector);
        assert(0xFFu32 << 8u32 == 0xFF00u32) by (bit_vector);
        assert(0xFFu32 << 16u32 == 0xFF0000u32) by (bit_vector);
        assert(0xFFu32 << 24u32 == 0xFF000000u32) by (bit_vector);
    }
    match native_endianness() {
        Endianness::Little => (
            [0usize, 8, 16, 24],
            [0xFFu32, 0xFF00, 0xFF0000, 0xFF000000],
        ),
        Endianness::Big => ([24usize, 16, 8, 0], [0xFF000000u32, 0xFF0000, 0xFF00, 0xFF]),
    }
}

/// The running state of the lowest-visible-color sweep after the first
/// `n` pixels: the lowest blue, green and red seen in pixels whose alpha
/// reached the running maximum, and that maximum alpha, starting from
/// (255, 255, 255, 1).
pub open spec fn lowest_visible_fold(s: Seq<u8>, n: int) -> (u8, u8, u8, u8)
    decreases n,
{
    if n <= 0 {
        (255u8, 255u8, 255u8, 1u8)
    } else {
        let st = lowest_visible_fold(s, n - 1);
        let c = chunk_at(s, n - 1);
        if c.3 >= st.3 {
            (
                if c.0 < st.0 {
                    c.0
                } else {
                    st.0
                },
                if c.1 < st.1 {
                    c.1
                } else {
                    st.1
                },
                if c.2 < st.2 {
                    c.2
                } else {
                    st.2
                },
                c.3,
            )
        } else {
            st
        }
    }
}

/// Returns the lowest B, G and R values found among pixels whose alpha
/// reached the running maximum, together with that maximum, sweeping the
/// buffer once in order.
pub fn image_lowest_visible_bgr(vec: &[u8]) -> (r: BGRA<u8>)
    ensures
        ({
            let st = lowest_visible_fold(vec@, (vec@.len() as int) / 4);
            r.0 == st.0 && r.1 == st.1 && r.2 == st.2 && r.3 == st.3
        }),
{
    let mut lowest_blue: u8 = 255;
    let mut lowest_green: u8 = 255;
    let mut lowest_red: u8 = 255;
    let mut highest_alpha: u8 = 1;
    let len: usize = vec.len();
    let n: usize = len / 4;
    proof {
        assert(4 * ((len as int) / 4) <= len as int) by (nonlinear_arith);
    }
    let mut px: usize = 0;
    let mut j: usize = 0;
    while px < n
        invariant
            j == 4 * px,
            px <= n,
            n == vec@.len() / 4,
            4 * n <= vec@.len() <= usize::MAX,
            (lowest_blue, lowest_green, lowest_red, highest_alpha) == lowest_visible_fold(
                vec@,
                px as int,
            ),
        decreases n - px,
    {
        if vec[j + 3] >= highest_alpha {
            highest_alpha = vec[j + 3];
            if vec[j] < lowest_blue {
                lowest_blue = vec[j];
            }
            if vec[j + 1] < lowest_green {
                lowest_green = vec[j + 1];
            }
            if vec[j + 2] < lowest_red {
                lowest_red = vec[j + 2];
            }
        }
        proof {
            assert((lowest_blue, lowest_green, lowest_red, highest_alpha) == lowest_visible_fold(
                vec@,
                px as int + 1,
            ));
        }
        j = j + 4;
        px = px + 1;
    }
    BGRA(lowest_blue, lowest_green, lowest_red, highest_alpha)
}

/// The running state of the opaquest-color sweep after the first `n`
/// pixels: the B, G, R of the last pixel whose alpha reached the running
/// maximum, and that maximum, starting from (255, 255, 255, 0).
pub open spec fn opaquest_fold(s: Seq<u8>, n: int) -> (u8, u8, u8, u8)
    decreases n,
{
    if n <= 0 {
        (255u8, 255u8, 255u8, 0u8)
    } else {
        let st = opaquest_fold(s, n - 1);
        let c = chunk_at(s, n - 1);
        if c.3 >= st.3 {
            c
        } else {
            st
        }
    }
}

/// Returns the B, G, R of the last pixel found with the highest alpha,
/// followed by that alpha, sweeping the buffer once in order.
pub fn image_opaquest_bgr(vec: &[u8]) -> (r: Vec<u8>)
    ensures
        ({
            let st = opaquest_fold(vec@, (vec@.len() as int) / 4);
            r@ == seq![st.0, st.1, st.2, st.3]
        }),
{
    let mut blue: u8 = 255;
    let mut green: u8 = 255;
    let mut red: u8 = 255;
    let mut highest_alpha: u8 = 0;
    let len: usize = vec.len();
    let n: usize = len / 4;
    proof {
        assert(4 * ((len as int) / 4) <= len as int) by (nonlinear_arith);
    }
    let mut px: usize = 0;
    let mut j: usize = 0;
    while px < n
        invariant
            j == 4 * px,
            px <= n,
            n == vec@.len() / 4,
            4 * n <= vec@.len() <= usize::MAX,
            (blue, green, red, highest_alpha) == opaquest_fold(vec@, px as int),
        decreases n - px,
    {
        if vec[j + 3] >= highest_alpha {
            highest_alpha = vec[j + 3];
            blue = vec[j];
            green = vec[j + 1];
            red = vec[j + 2];
        }
        proof {
            assert((blue, green, red, highest_alpha) == opaquest_fold(vec@, px as int + 1));
        }
        j = j + 4;
        px = px + 1;
    }
    let out: Vec<u8> = vec![blue, green, red, highest_alpha];
    proof {
        let st = opaquest_fold(vec@, (vec@.len() as int) / 4);
        assert(out@ =~= seq![st.0, st.1, st.2, st.3]);
    }
    out
}

} // verus!
