//! Pixel buffers and the unit types that carry their samples.
//!
//! A buffer holds the colors of a `width x height` rectangle of pixels as
//! a flat vector of samples in row-major order.  The sample type decides
//! the layout: `u8` samples hold one channel byte each, four per pixel in
//! B, G, R, A order; `u32` samples hold one whole pixel per machine word.

use vstd::prelude::*;

use crate::PixelError;
use crate::bgra_management::Alterator;
use crate::bgra_management::ColorAlteration;
use crate::bgra_management::Matcher;
use crate::bgra_management::SwitchBytes;
use crate::bgra_management::chunk_at;
use crate::bgra_management::map_chunks;
use crate::bgra_management::recolor_chunks;
use crate::bgra_management::tuple_nth;
use crate::codec::adjust_planar;
use crate::codec::adjust_packed;
use crate::codec::switch_bytes_packed;
use crate::codec::switch_bytes_planar;
use crate::endian::Endianness;
use crate::endian::channel_byte;
use crate::endian::pack_pixel;
use crate::endian::native_endianness;

verus! {

/// A type whose values can serve as the samples of a pixel buffer:
/// exactly `u8` (planar layout) and `u32` (packed layout).
pub trait PixelValues<T>: Sized {
    /// How many samples of this type one pixel takes.
    spec fn spec_units_per_pixel() -> nat;

    /// The sample value that renders as nothing at all.
    spec fn invisible_unit() -> T;

    /// Returns a copy of the buffer in which every pixel's three color
    /// channels are clamped down to that pixel's alpha value, which is
    /// what a premultiplied-alpha display path expects of transparent
    /// pixels.  The exact per-pixel statement is made by
    /// [`adjust_alpha_planar`] and [`adjust_alpha_packed`], which the two
    /// implementations defer to.
    fn create_adjusted_vec(vec: &[T]) -> (r: Vec<T>)
        ensures
            r@.len() == (Self::spec_units_per_pixel() as int) * (vec@.len() as int / (
            Self::spec_units_per_pixel() as int)),
    ;

    /// Returns a zeroed buffer with exactly the samples needed for an
    /// `area_width x area_height` rectangle.
    fn initialize_vec(area_width: usize, area_height: usize) -> (r: Vec<T>)
        requires
            area_width * area_height * Self::spec_units_per_pixel() <= usize::MAX,
        ensures
            r@ == Seq::new(
                (area_width * area_height * Self::spec_units_per_pixel()) as nat,
                |i: int| Self::invisible_unit(),
            ),
    ;

    /// How many samples of this type one pixel takes.
    fn units_per_pixel() -> (r: u8)
        ensures
            r as nat == Self::spec_units_per_pixel(),
            1 <= r,
    ;

    /// The same count, read off a sample instead of the type.
    fn get_units_per_pixel(&self) -> (r: u8)
        ensures
            r as nat == Self::spec_units_per_pixel(),
            1 <= r,
    ;
}

/// Returns a copy of a planar buffer in which every complete pixel's
/// color channels are clamped down to its alpha value; trailing bytes of
/// an incomplete four-byte run are dropped.
pub fn adjust_alpha_planar(vec: &[u8]) -> (r: Vec<u8>)
    ensures
        r@ == adjust_planar(vec@),
{
    let mut out: Vec<u8> = Vec::new();
    let mut i: usize = 0;
    let n: usize = vec.len() / 4;
    let mut px: usize = 0;
    while px < n
        invariant
            i == 4 * px,
            px <= n,
            n == vec@.len() / 4,
            out@ =~= adjust_planar(vec@).subrange(0, i as int),
        decreases n - px,
    {
        let alpha: u8 = vec[i + 3];
        let blue: u8 = vec[i];
        let green: u8 = vec[i + 1];
        let red: u8 = vec[i + 2];
        out.push(if blue > alpha { alpha } else { blue });
        out.push(if green > alpha { alpha } else { green });
        out.push(if red > alpha { alpha } else { red });
        out.push(alpha);
        proof {
            assert(out@ =~= adjust_planar(vec@).subrange(0, (i + 4) as int));
        }
        i = i + 4;
        px = px + 1;
    }
    proof {
        assert(out@ =~= adjust_planar(vec@));
    }
    out
}

/// Returns a copy of a packed buffer in which every pixel's color
/// channels are clamped down to its alpha channel, under the given byte
/// order.
pub fn adjust_alpha_packed(vec: &[u32], e: Endianness) -> (r: Vec<u32>)
    ensures
        r@ == adjust_packed(vec@, e),
{
    let mut out: Vec<u32> = Vec::new();
    let mut i: usize = 0;
    while i < vec.len()
        invariant
            i <= vec@.len(),
            out@ =~= adjust_packed(vec@, e).subrange(0, i as int),
        decreases vec@.len() - i,
    {
        let w: u32 = vec[i];
        let blue: u8 = channel_byte(w, 0, e);
        let green: u8 = channel_byte(w, 1, e);
        let red: u8 = channel_byte(w, 2, e);
        let alpha: u8 = channel_byte(w, 3, e);
        let w2: u32 = pack_pixel(
            if blue > alpha { alpha } else { blue },
            if green > alpha { alpha } else { green },
            if red > alpha { alpha } else { red },
            alpha,
            e,
        );
        out.push(w2);
        proof {
            assert(out@ =~= adjust_packed(vec@, e).subrange(0, (i + 1) as int));
        }
        i = i + 1;
    }
    proof {
        assert(out@ =~= adjust_packed(vec@, e));
    }
    out
}

impl PixelValues<u8> for u8 {
    open spec fn spec_units_per_pixel() -> nat {
        4
    }

    open spec fn invisible_unit() -> u8 {
        0
    }

    fn create_adjusted_vec(vec: &[u8]) -> (r: Vec<u8>)
        ensures
            r@ == adjust_planar(vec@),
    {
        adjust_alpha_planar(vec)
    }

    fn initialize_vec(area_width: usize, area_height: usize) -> (r: Vec<u8>) {
        let n: usize = area_width * area_height * 4;
        let v: Vec<u8> = vec![0u8; n];
        proof {
            assert(v@ =~= Seq::new(
                (area_width * area_height * <u8 as PixelValues<u8>>::spec_units_per_pixel()) as nat,
                |i: int| <u8 as PixelValues<u8>>::invisible_unit(),
            ));
        }
        v
    }

    fn units_per_pixel() -> (r: u8) {
        4
    }

    fn get_units_per_pixel(&self) -> (r: u8) {
        4
    }
}

impl PixelValues<u32> for u32 {
    open spec fn spec_units_per_pixel() -> nat {
        1
    }

    open spec fn invisible_unit() -> u32 {
        0
    }

    fn create_adjusted_vec(vec: &[u32]) -> (r: Vec<u32>)
        ensures
            r@ == adjust_packed(vec@, Endianness::Little) || r@ == adjust_packed(
                vec@,
                Endianness::Big,
            ),
    {
        let e = native_endianness();
        adjust_alpha_packed(vec, e)
    }

    fn initialize_vec(area_width: usize, area_height: usize) -> (r: Vec<u32>) {
        let n: usize = area_width * area_height * 1;
        let v: Vec<u32> = vec![0u32; n];
        proof {
            assert(v@ =~= Seq::new(
                (area_width * area_height
                    * <u32 as PixelValues<u32>>::spec_units_per_pixel()) as nat,
                |i: int| <u32 as PixelValues<u32>>::invisible_unit(),
            ));
        }
        v
    }

    fn units_per_pixel() -> (r: u8) {
        1
    }

    fn get_units_per_pixel(&self) -> (r: u8) {
        1
    }
}

/// A rectangle of pixels: its dimensions and its flat sample vector, in
/// BGRA channel order, row-major.
#[derive(Debug, Clone)]
pub struct PixelsCollection<T: PixelValues<T>> {
    /// Width in pixels of the rectangle the samples represent.
    pub width: usize,
    /// Height in pixels of the rectangle the samples represent.
    pub height: usize,
    /// How many samples one row of pixels takes.
    pub row_length: usize,
    /// The samples themselves.
    pub bytes: Vec<T>,
    /// How many samples one pixel takes.
    pub units_per_pixel: u8,
}

impl<T: PixelValues<T>> PixelsCollection<T> {
    /// The shape invariant: the sample count agrees with the dimensions,
    /// the row length is one row's worth of samples, and the recorded
    /// units-per-pixel is the sample type's own.
    pub open spec fn well_formed(self) -> bool {
        &&& self.height > 0
        &&& self.bytes@.len() == self.width * self.height * T::spec_units_per_pixel()
        &&& self.row_length == self.width * T::spec_units_per_pixel()
        &&& self.units_per_pixel == T::spec_units_per_pixel()
    }

    /// Creates a buffer from its dimensions and samples.  This is the
    /// only constructor, so every buffer satisfies [`Self::well_formed`];
    /// a sample count that disagrees with the dimensions, or a zero
    /// height, is refused as a shape mismatch.
    pub fn create(width: usize, height: usize, bytes: Vec<T>) -> (r: Result<
        PixelsCollection<T>,
        PixelError,
    >)
        ensures
            r is Ok <==> (height > 0 && bytes@.len() == width * height
                * T::spec_units_per_pixel()),
            r matches Ok(pc) ==> {
                &&& pc.well_formed()
                &&& pc.width == width
                &&& pc.height == height
                &&& pc.bytes@ == bytes@
            },
            r matches Err(e) ==> e == PixelError::ShapeMismatch,
    {
        let upp: u8 = T::units_per_pixel();
        if height == 0 {
            return Err(PixelError::ShapeMismatch);
        }
        if bytes.len() % (upp as usize) != 0 {
            proof {
                let w = width as int;
                let h = height as int;
                let u = upp as int;
                assert((w * h * u) % u == 0) by (nonlinear_arith)
                    requires
                        u > 0,
                ;
            }
            return Err(PixelError::ShapeMismatch);
        }
        let expected: Option<usize> = match width.checked_mul(height) {
            Some(wh) => wh.checked_mul(upp as usize),
            None => None,
        };
        proof {
            let w = width as int;
            let h = height as int;
            let u = upp as int;
            assert(w * h <= w * h * u && w * h * u == (w * h) * u) by (nonlinear_arith)
                requires
                    u >= 1 && w >= 0 && h >= 0,
            ;
        }
        match expected {
            Some(n) if n == bytes.len() => {
                let row_length: usize = n / height;
                proof {
                    let w = width as int;
                    let h = height as int;
                    let u = upp as int;
                    assert((w * h) * u == h * (w * u)) by (nonlinear_arith);
                    vstd::arithmetic::div_mod::lemma_div_multiples_vanish(w * u, h);
                    assert(row_length == width * T::spec_units_per_pixel());
                }
                Ok(
                    PixelsCollection {
                        width,
                        height,
                        row_length,
                        bytes,
                        units_per_pixel: upp,
                    },
                )
            },
            _ => Err(PixelError::ShapeMismatch),
        }
    }

    /// The flat sample index of the pixel at `(x, y)`.
    pub fn coord_to_index(&self, x: usize, y: usize) -> (r: usize)
        requires
            self.width * y + x <= usize::MAX,
            (self.width * y + x) * self.units_per_pixel <= usize::MAX,
        ensures
            r == (self.width * y + x) * self.units_per_pixel,
    {
        proof {
            vstd::arithmetic::mul::lemma_mul_nonnegative(self.width as int, y as int);
        }
        (self.width * y + x) * (self.units_per_pixel as usize)
    }

    /// The flat sample index of the pixel reached from `(x, y)` by the
    /// signed offsets `(offset_x, offset_y)`.
    pub fn coord_to_index_with_offset_coord(
        &self,
        x: usize,
        y: usize,
        offset_x: isize,
        offset_y: isize,
    ) -> (r: usize)
        requires
            isize::MIN < offset_x,
            isize::MIN < offset_y,
            0 <= y + offset_y <= usize::MAX,
            0 <= x + offset_x <= usize::MAX,
            self.width * (y + offset_y) + (x + offset_x) <= usize::MAX,
            (self.width * (y + offset_y) + (x + offset_x)) * self.units_per_pixel <= usize::MAX,
        ensures
            r == (self.width * (y + offset_y) + (x + offset_x)) * self.units_per_pixel,
    {
        let yy: usize = if offset_y >= 0 {
            y + (offset_y as usize)
        } else {
            y - ((-offset_y) as usize)
        };
        let xx: usize = if offset_x >= 0 {
            x + (offset_x as usize)
        } else {
            x - ((-offset_x) as usize)
        };
        proof {
            vstd::arithmetic::mul::lemma_mul_nonnegative(self.width as int, yy as int);
        }
        (self.width * yy + xx) * (self.units_per_pixel as usize)
    }
}

/// The buffer in which every complete grey pixel (equal B, G, R) either
/// becomes invisible, when its grey value exceeds the threshold, or
/// becomes fully opaque black; non-grey pixels stay as they are.
pub open spec fn grey_scale_chunks(s: Seq<u8>, grey_threshold: u8) -> Seq<u8> {
    map_chunks(
        s,
        (|c: (u8, u8, u8, u8)|
            if c.0 == c.1 && c.0 == c.2 {
                if c.0 > grey_threshold {
                    (0u8, 0u8, 0u8, 0u8)
                } else {
                    (0u8, 0u8, 0u8, 255u8)
                }
            } else {
                c
            }),
    )
}

/// The lowest value channel `ch` takes over the first `n` complete
/// pixels, starting from 255.
pub open spec fn channel_min_fold(s: Seq<u8>, ch: int, n: int) -> u8
    decreases n,
{
    if n <= 0 {
        255u8
    } else {
        let m = channel_min_fold(s, ch, n - 1);
        let v = tuple_nth(chunk_at(s, n - 1), ch);
        if v < m {
            v
        } else {
            m
        }
    }
}

/// The highest value channel `ch` takes over the first `n` complete
/// pixels, starting from 0.
pub open spec fn channel_max_fold(s: Seq<u8>, ch: int, n: int) -> u8
    decreases n,
{
    if n <= 0 {
        0u8
    } else {
        let m = channel_max_fold(s, ch, n - 1);
        let v = tuple_nth(chunk_at(s, n - 1), ch);
        if v > m {
            v
        } else {
            m
        }
    }
}

/// The channel minimum bounds every channel value it was folded over.
proof fn lemma_channel_min_fold_le(s: Seq<u8>, ch: int, n: int, i: int)
    requires
        0 <= i < n,
    ensures
        channel_min_fold(s, ch, n) <= tuple_nth(chunk_at(s, i), ch),
    decreases n,
{
    if i < n - 1 {
        lemma_channel_min_fold_le(s, ch, n - 1, i);
    }
}

/// The channel maximum bounds every channel value it was folded over.
proof fn lemma_channel_max_fold_ge(s: Seq<u8>, ch: int, n: int, i: int)
    requires
        0 <= i < n,
    ensures
        channel_max_fold(s, ch, n) >= tuple_nth(chunk_at(s, i), ch),
    decreases n,
{
    if i < n - 1 {
        lemma_channel_max_fold_ge(s, ch, n - 1, i);
    }
}

/// The lowest of the three channel minima together with the channel it
/// belongs to, ties resolved toward blue, then green.
pub open spec fn pick_lowest(lb: u8, lg: u8, lr: u8) -> (u8, int) {
    let first = if lb < 255 {
        (lb, 0int)
    } else {
        (255u8, 0int)
    };
    let second = if lg < first.0 {
        (lg, 1int)
    } else {
        first
    };
    if lr < second.0 {
        (lr, 2int)
    } else {
        second
    }
}

/// The highest of the three channel maxima together with the channel it
/// belongs to, ties resolved toward blue, then green.
pub open spec fn pick_highest(hb: u8, hg: u8, hr: u8) -> (u8, int) {
    let first = if hb > 0 {
        (hb, 0int)
    } else {
        (0u8, 0int)
    };
    let second = if hg > first.0 {
        (hg, 1int)
    } else {
        first
    };
    if hr > second.0 {
        (hr, 2int)
    } else {
        second
    }
}

/// The white-to-transparency rewrite of a planar buffer: every fully
/// opaque pixel keeps its color and gets the alpha `255 - v + lowest`,
/// where `v` is the pixel's value of the channel that reaches the
/// lowest minimum in the whole image and `lowest` is that minimum;
/// fully opaque white becomes fully transparent, and a pixel with any
/// transparency stays as it is.  Trailing bytes of an incomplete pixel
/// are dropped.
pub open spec fn white_background_gradient(s: Seq<u8>) -> Seq<u8> {
    let n = (s.len() as int) / 4;
    let p = pick_lowest(
        channel_min_fold(s, 0, n),
        channel_min_fold(s, 1, n),
        channel_min_fold(s, 2, n),
    );
    Seq::new(
        (4 * n) as nat,
        |j: int|
            {
                let c = chunk_at(s, j / 4);
                if j % 4 < 3 {
                    tuple_nth(c, j % 4)
                } else if c.3 == 255 {
                    if c.0 < 255 || c.1 < 255 || c.2 < 255 {
                        (255 - tuple_nth(c, p.1) + p.0) as u8
                    } else {
                        0u8
                    }
                } else {
                    c.3
                }
            },
    )
}

/// The black-to-transparency rewrite of a planar buffer: every fully
/// opaque pixel keeps its color and gets, as alpha, its own value of
/// the channel that reaches the highest maximum in the whole image;
/// fully opaque black becomes fully transparent, and a pixel with any
/// transparency stays as it is.  Trailing bytes of an incomplete pixel
/// are dropped.
pub open spec fn black_background_gradient(s: Seq<u8>) -> Seq<u8> {
    let n = (s.len() as int) / 4;
    let p = pick_highest(
        channel_max_fold(s, 0, n),
        channel_max_fold(s, 1, n),
        channel_max_fold(s, 2, n),
    );
    Seq::new(
        (4 * n) as nat,
        |j: int|
            {
                let c = chunk_at(s, j / 4);
                if j % 4 < 3 {
                    tuple_nth(c, j % 4)
                } else if c.3 == 255 {
                    if c.0 > 0 || c.1 > 0 || c.2 > 0 {
                        tuple_nth(c, p.1)
                    } else {
                        0u8
                    }
                } else {
                    c.3
                }
            },
    )
}

impl PixelsCollection<u8> {
    /// Exchanges channels `i1` and `i2` of every pixel in place; an
    /// out-of-range or equal index pair, or a sample count that is not
    /// a multiple of four, is a silent no-op.
    pub fn switch_bytes(&mut self, i1: usize, i2: usize)
        ensures
            final (self).bytes@ == switch_bytes_planar(old(self).bytes@, i1 as int, i2 as int),
            final (self).width == old(self).width,
            final (self).height == old(self).height,
            final (self).row_length == old(self).row_length,
            final (self).units_per_pixel == old(self).units_per_pixel,
    {
        <u8 as SwitchBytes<u8, u32>>::switch_bytes(&mut self.bytes, i1, i2);
    }

    /// Exchanges channels `i1` and `i2` of every pixel in place, as
    /// [`Self::switch_bytes`] does, but reports an out-of-range or
    /// equal index pair instead of silently ignoring it.
    pub fn try_switch_bytes(&mut self, i1: usize, i2: usize) -> (r: Result<(), PixelError>)
        ensures
            r is Ok <==> (i1 <= 3 && i2 <= 3 && i1 != i2),
            r matches Err(e) ==> e == PixelError::InvalidChannelIndex && *final (self) == *old(
                self,
            ),
            final (self).bytes@ == switch_bytes_planar(old(self).bytes@, i1 as int, i2 as int),
            final (self).width == old(self).width,
            final (self).height == old(self).height,
            final (self).row_length == old(self).row_length,
            final (self).units_per_pixel == old(self).units_per_pixel,
    {
        if i1 > 3 || i2 > 3 || i1 == i2 {
            return Err(PixelError::InvalidChannelIndex);
        }
        <u8 as SwitchBytes<u8, u32>>::switch_bytes(&mut self.bytes, i1, i2);
        Ok(())
    }

    /// Where a pixel's four channels equal the given values, replaces
    /// them with the four new ones.
    pub fn matching_color_change(
        &mut self,
        b: u8,
        g: u8,
        r: u8,
        a: u8,
        new_b: u8,
        new_g: u8,
        new_r: u8,
        new_a: u8,
    )
        ensures
            final (self).bytes@ == recolor_chunks(
                old(self).bytes@,
                Matcher::MatchBgra(b, g, r, a),
                Alterator::SetBgra(new_b, new_g, new_r, new_a),
            ),
            final (self).width == old(self).width,
            final (self).height == old(self).height,
            final (self).row_length == old(self).row_length,
            final (self).units_per_pixel == old(self).units_per_pixel,
    {
        self.bytes.color_matcher_and_new_color(
            Matcher::MatchBgra(b, g, r, a),
            new_b,
            new_g,
            new_r,
            new_a,
        );
    }

    /// Recolors the invisible pixels, those whose four channels are all
    /// zero, with the given channel values.
    pub fn set_bgra_for_invisible(&mut self, b: u8, g: u8, r: u8, a: u8)
        ensures
            final (self).bytes@ == recolor_chunks(
                old(self).bytes@,
                Matcher::MatchBgra(0, 0, 0, 0),
                Alterator::SetBgra(b, g, r, a),
            ),
            final (self).width == old(self).width,
            final (self).height == old(self).height,
            final (self).row_length == old(self).row_length,
            final (self).units_per_pixel == old(self).units_per_pixel,
    {
        self.bytes.color_matcher_and_new_color(Matcher::MatchBgra(0, 0, 0, 0), b, g, r, a);
    }

    /// Sets the three color channels of every pixel, keeping each
    /// pixel's alpha.
    pub fn set_bgr(&mut self, b: u8, g: u8, r: u8)
        ensures
            final (self).bytes@ == recolor_chunks(
                old(self).bytes@,
                Matcher::Always,
                Alterator::SetBgr(b, g, r),
            ),
            final (self).width == old(self).width,
            final (self).height == old(self).height,
            final (self).row_length == old(self).row_length,
            final (self).units_per_pixel == old(self).units_per_pixel,
    {
        self.bytes.set_bgr(b, g, r);
    }

    /// Rewrites, in place, every grey pixel: a grey above the threshold
    /// becomes invisible, any other grey becomes fully opaque black.
    pub fn grey_scale_into_black(vec: &mut Vec<u8>, grey_threshold: u8)
        ensures
            final (vec)@ == grey_scale_chunks(old(vec)@, grey_threshold),
    {
        let ghost target = grey_scale_chunks(old(vec)@, grey_threshold);
        let len: usize = vec.len();
        let n: usize = len / 4;
        proof {
            assert(4 * ((len as int) / 4) <= len as int) by (nonlinear_arith);
        }
        let mut px: usize = 0;
        let mut i: usize = 0;
        while px < n
            invariant
                i == 4 * px,
                px <= n,
                n == old(vec)@.len() / 4,
                4 * n <= old(vec)@.len() <= usize::MAX,
                vec@.len() == old(vec)@.len(),
                target == grey_scale_chunks(old(vec)@, grey_threshold),
                forall|j: int| 0 <= j < i ==> vec@[j] == target[j],
                forall|j: int| i <= j < vec@.len() ==> vec@[j] == old(vec)@[j],
            decreases n - px,
        {
            let b: u8 = vec[i];
            let g: u8 = vec[i + 1];
            let r: u8 = vec[i + 2];
            if b == g && b == r {
                if b > grey_threshold {
                    vec[i] = 0;
                    vec[i + 1] = 0;
                    vec[i + 2] = 0;
                    vec[i + 3] = 0;
                } else {
                    vec[i] = 0;
                    vec[i + 1] = 0;
                    vec[i + 2] = 0;
                    vec[i + 3] = 255;
                }
            }
            proof {
                assert(chunk_at(old(vec)@, px as int) == (
                    b,
                    g,
                    r,
                    old(vec)@[4 * (px as int) + 3],
                ));
                assert forall|j: int| i <= j < i + 4 implies vec@[j] == target[j] by {
                    assert(j / 4 == px as int);
                    assert(4 * (j / 4) + 3 < old(vec)@.len());
                }
            }
            i = i + 4;
            px = px + 1;
        }
        proof {
            assert forall|j: int| i <= j < vec@.len() implies vec@[j] == target[j] by {
                assert(4 * (j / 4) + 3 >= old(vec)@.len());
            }
            assert(vec@ =~= target);
        }
    }

    /// Returns a copy of the buffer in which whites fade into
    /// transparency: the alpha of each fully opaque pixel becomes
    /// `255 - v + lowest` for its value `v` of the image-wide lowest
    /// channel, so pure white vanishes and the darkest color stays
    /// nearly opaque.  Pixels already transparent are left as they are.
    pub fn white_background_to_transparency_gradient(vec: &[u8]) -> (r: Vec<u8>)
        ensures
            r@ == white_background_gradient(vec@),
    {
        let len: usize = vec.len();
        let n: usize = len / 4;
        proof {
            assert(4 * ((len as int) / 4) <= len as int) by (nonlinear_arith);
        }
        let mut lowest_blue: u8 = 255;
        let mut lowest_green: u8 = 255;
        let mut lowest_red: u8 = 255;
        let mut px: usize = 0;
        let mut j: usize = 0;
        while px < n
            invariant
                j == 4 * px,
                px <= n,
                n == vec@.len() / 4,
                4 * n <= vec@.len() <= usize::MAX,
                lowest_blue == channel_min_fold(vec@, 0, px as int),
                lowest_green == channel_min_fold(vec@, 1, px as int),
                lowest_red == channel_min_fold(vec@, 2, px as int),
            decreases n - px,
        {
            if vec[j] < lowest_blue {
                lowest_blue = vec[j];
            }
            if vec[j + 1] < lowest_green {
                lowest_green = vec[j + 1];
            }
            if vec[j + 2] < lowest_red {
                lowest_red = vec[j + 2];
            }
            proof {
                assert(lowest_blue == channel_min_fold(vec@, 0, px as int + 1));
                assert(lowest_green == channel_min_fold(vec@, 1, px as int + 1));
                assert(lowest_red == channel_min_fold(vec@, 2, px as int + 1));
            }
            j = j + 4;
            px = px + 1;
        }
        let mut lowest_val: u8 = 255;
        let mut lowest_val_index: usize = 0;
        if lowest_blue < lowest_val {
            lowest_val = lowest_blue;
            lowest_val_index = 0;
        }
        if lowest_green < lowest_val {
            lowest_val = lowest_green;
            lowest_val_index = 1;
        }
        if lowest_red < lowest_val {
            lowest_val = lowest_red;
            lowest_val_index = 2;
        }
        let ghost p = pick_lowest(
            channel_min_fold(vec@, 0, n as int),
            channel_min_fold(vec@, 1, n as int),
            channel_min_fold(vec@, 2, n as int),
        );
        proof {
            assert(lowest_val == p.0 && lowest_val_index as int == p.1);
        }
        let mut out: Vec<u8> = Vec::new();
        let mut px2: usize = 0;
        let mut i: usize = 0;
        while px2 < n
            invariant
                i == 4 * px2,
                px2 <= n,
                n == vec@.len() / 4,
                4 * n <= vec@.len() <= usize::MAX,
                lowest_val == p.0,
                lowest_val_index as int == p.1,
                lowest_val_index <= 2,
                p == pick_lowest(
                    channel_min_fold(vec@, 0, n as int),
                    channel_min_fold(vec@, 1, n as int),
                    channel_min_fold(vec@, 2, n as int),
                ),
                out@ =~= white_background_gradient(vec@).subrange(0, i as int),
            decreases n - px2,
        {
            let blue: u8 = vec[i];
            let green: u8 = vec[i + 1];
            let red: u8 = vec[i + 2];
            let alpha: u8 = vec[i + 3];
            proof {
                assert(chunk_at(vec@, px2 as int) == (blue, green, red, alpha));
                lemma_channel_min_fold_le(vec@, p.1, n as int, px2 as int);
            }
            if alpha == 255 {
                if blue < 255 || green < 255 || red < 255 {
                    let this_val: u8 = vec[i + lowest_val_index];
                    let alpha_adjusted: u8 = 255 - this_val + lowest_val;
                    out.push(blue);
                    out.push(green);
                    out.push(red);
                    out.push(alpha_adjusted);
                } else {
                    out.push(blue);
                    out.push(green);
                    out.push(red);
                    out.push(0);
                }
            } else {
                out.push(blue);
                out.push(green);
                out.push(red);
                out.push(alpha);
            }
            proof {
                assert forall|m: int| 0 <= m < i + 4 implies out@[m] == white_background_gradient(
                    vec@,
                )[m] by {
                    if m >= i {
                        assert(m / 4 == px2 as int);
                    }
                }
                assert(out@ =~= white_background_gradient(vec@).subrange(0, i as int + 4));
            }
            i = i + 4;
            px2 = px2 + 1;
        }
        proof {
            assert(out@ =~= white_background_gradient(vec@));
        }
        out
    }

    /// Returns a copy of the buffer in which blacks fade into
    /// transparency: the alpha of each fully opaque pixel becomes its
    /// own value of the image-wide highest channel, so pure black
    /// vanishes and the brightest color stays nearly opaque.  Pixels
    /// already transparent are left as they are.
    pub fn black_background_to_transparency_gradient(vec: &[u8]) -> (r: Vec<u8>)
        ensures
            r@ == black_background_gradient(vec@),
    {
        let len: usize = vec.len();
        let n: usize = len / 4;
        proof {
            assert(4 * ((len as int) / 4) <= len as int) by (nonlinear_arith);
        }
        let mut highest_blue: u8 = 0;
        let mut highest_green: u8 = 0;
        let mut highest_red: u8 = 0;
        let mut px: usize = 0;
        let mut j: usize = 0;
        while px < n
            invariant
                j == 4 * px,
                px <= n,
                n == vec@.len() / 4,
                4 * n <= vec@.len() <= usize::MAX,
                highest_blue == channel_max_fold(vec@, 0, px as int),
                highest_green == channel_max_fold(vec@, 1, px as int),
                highest_red == channel_max_fold(vec@, 2, px as int),
            decreases n - px,
        {
            if vec[j] > highest_blue {
                highest_blue = vec[j];
            }
            if vec[j + 1] > highest_green {
                highest_green = vec[j + 1];
            }
            if vec[j + 2] > highest_red {
                highest_red = vec[j + 2];
            }
            proof {
                assert(highest_blue == channel_max_fold(vec@, 0, px as int + 1));
                assert(highest_green == channel_max_fold(vec@, 1, px as int + 1));
                assert(highest_red == channel_max_fold(vec@, 2, px as int + 1));
            }
            j = j + 4;
            px = px + 1;
        }
        let mut highest_val: u8 = 0;
        let mut highest_val_index: usize = 0;
        if highest_blue > highest_val {
            highest_val = highest_blue;
            highest_val_index = 0;
        }
        if highest_green > highest_val {
            highest_val = highest_green;
            highest_val_index = 1;
        }
        if highest_red > highest_val {
            highest_val = highest_red;
            highest_val_index = 2;
        }
        let ghost p = pick_highest(
            channel_max_fold(vec@, 0, n as int),
            channel_max_fold(vec@, 1, n as int),
            channel_max_fold(vec@, 2, n as int),
        );
        proof {
            assert(highest_val == p.0 && highest_val_index as int == p.1);
        }
        let mut out: Vec<u8> = Vec::new();
        let mut px2: usize = 0;
        let mut i: usize = 0;
        while px2 < n
            invariant
                i == 4 * px2,
                px2 <= n,
                n == vec@.len() / 4,
                4 * n <= vec@.len() <= usize::MAX,
                highest_val == p.0,
                highest_val_index as int == p.1,
                highest_val_index <= 2,
                p == pick_highest(
                    channel_max_fold(vec@, 0, n as int),
                    channel_max_fold(vec@, 1, n as int),
                    channel_max_fold(vec@, 2, n as int),
                ),
                out@ =~= black_background_gradient(vec@).subrange(0, i as int),
            decreases n - px2,
        {
            let blue: u8 = vec[i];
            let green: u8 = vec[i + 1];
            let red: u8 = vec[i + 2];
            let alpha: u8 = vec[i + 3];
            proof {
                assert(chunk_at(vec@, px2 as int) == (blue, green, red, alpha));
                lemma_channel_max_fold_ge(vec@, p.1, n as int, px2 as int);
            }
            if alpha == 255 {
                if blue > 0 || green > 0 || red > 0 {
                    let this_val: u8 = vec[i + highest_val_index];
                    let alpha_adjusted: u8 = highest_val - (highest_val - this_val);
                    out.push(blue);
                    out.push(green);
                    out.push(red);
                    out.push(alpha_adjusted);
                } else {
                    out.push(blue);
                    out.push(green);
                    out.push(red);
                    out.push(0);
                }
            } else {
                out.push(blue);
                out.push(green);
                out.push(red);
                out.push(alpha);
            }
            proof {
                assert forall|m: int| 0 <= m < i + 4 implies out@[m] == black_background_gradient(
                    vec@,
                )[m] by {
                    if m >= i {
                        assert(m / 4 == px2 as int);
                    }
                }
                assert(out@ =~= black_background_gradient(vec@).subrange(0, i as int + 4));
            }
            i = i + 4;
            px2 = px2 + 1;
        }
        proof {
            assert(out@ =~= black_background_gradient(vec@));
        }
        out
    }
}

impl PixelsCollection<u32> {
    /// Exchanges channels `i1` and `i2` of every packed pixel in place,
    /// using the machine's native byte order; an out-of-range or equal
    /// index pair is a silent no-op.
    pub fn switch_bytes(&mut self, i1: usize, i2: usize)
        ensures
            final (self).bytes@ == switch_bytes_packed(
                old(self).bytes@,
                i1 as int,
                i2 as int,
                Endianness::Little,
            ) || final (self).bytes@ == switch_bytes_packed(
                old(self).bytes@,
                i1 as int,
                i2 as int,
                Endianness::Big,
            ),
            final (self).width == old(self).width,
            final (self).height == old(self).height,
            final (self).row_length == old(self).row_length,
            final (self).units_per_pixel == old(self).units_per_pixel,
    {
        <u32 as SwitchBytes<u32, u8>>::switch_bytes(&mut self.bytes, i1, i2);
    }
}

/// A target size given as either a width or a height; the other
/// dimension follows from the source's aspect ratio.
#[derive(Debug, Clone, Copy)]
pub enum ResizeSize {
    /// The requested width in pixels.
    Width(usize),
    /// The requested height in pixels.
    Height(usize),
}

} // verus!
