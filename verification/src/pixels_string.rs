//! Glyphs cut out of a sprite-sheet raster, and text composed of them.
//!
//! A sprite sheet holds one row of character images, packed with at
//! least a known amount of whitespace between them.  Segmentation scans
//! the sheet once for a shared vertical extent, then walks it character
//! by character, cutting each glyph out at its own horizontal extent and
//! the shared vertical one; composition lays chosen glyphs side by side
//! into one output raster, with a configurable (possibly negative)
//! spacing between them.

use vstd::prelude::*;
use vstd::string::StrSliceExecFns;

use crate::PixelError;
use crate::bgra_management::Alterator;
use crate::chars::default_chars;
use crate::chars::lemma_char_index_matches_default;
use crate::chars::sheet_glyph_name;
use crate::chars::table_is_default;
use crate::bgra_management::Matcher;
use crate::bgra_management::lowest_visible_fold;
use crate::bgra_management::image_lowest_visible_bgr;
use crate::bgra_management::recolor_chunks;
use crate::pixels::grey_scale_chunks;
use crate::pixels::PixelValues;
use crate::pixels::PixelsCollection;
use crate::scan::get_cardinal_points_until_nonestreak_x;
use crate::scan::grab_spec;
use crate::scan::lemma_spec_scan_in_region;
use crate::scan::pixel_grabber;
use crate::scan::spec_scan;

verus! {

/// One color as its four channel values, in B, G, R, A order.
#[derive(Debug, Clone, Copy)]
pub struct BGRA<T: Copy + Clone>(pub T, pub T, pub T, pub T);

impl<T: Copy + Clone> BGRA<T> {
    /// The four channel values as a vector, in B, G, R, A order.
    pub fn to_vec(&self) -> (r: Vec<T>)
        ensures
            r@ == seq![self.0, self.1, self.2, self.3],
    {
        let v: Vec<T> = vec![self.0, self.1, self.2, self.3];
        proof {
            assert(v@ =~= seq![self.0, self.1, self.2, self.3]);
        }
        v
    }
}

/// A character image: the character it stands for, a display name, and
/// the tight pixel crop holding only this glyph's pixels.
#[derive(Debug, Clone)]
pub struct PixelsChar<T: PixelValues<T>> {
    /// The character this glyph renders.
    pub character: char,
    /// The name the glyph goes by, e.g. in an exported file name.
    pub char_name: String,
    /// The glyph's pixels; everything outside its silhouette is the
    /// invisible value.
    pub pixels: PixelsCollection<T>,
}

/// The string holding exactly the one character.
///
/// Relies on `String::from` for `char`: its documentation states that
/// it allocates an owned string from a single character.
#[verifier::external_body]
fn char_to_string(c: char) -> (s: String)
    ensures
        s@ == seq![c],
{
    String::from(c)
}

impl PixelsChar<u8> {
    /// Creates a glyph from its character, name and pixel data; the
    /// sample count must agree with the dimensions.
    pub fn create(character: char, char_name: &str, width: usize, height: usize, bytes: Vec<u8>) -> (r:
        Result<PixelsChar<u8>, PixelError>)
        ensures
            r is Ok <==> (height > 0 && bytes@.len() == width * height * 4),
            r matches Ok(pc) ==> {
                &&& pc.character == character
                &&& pc.char_name@ == char_name@
                &&& pc.pixels.well_formed()
                &&& pc.pixels.width == width
                &&& pc.pixels.height == height
                &&& pc.pixels.bytes@ == bytes@
            },
            r matches Err(e) ==> e == PixelError::ShapeMismatch,
    {
        match PixelsCollection::<u8>::create(width, height, bytes) {
            Ok(pixels) => Ok(
                PixelsChar { character, char_name: char_name.to_owned(), pixels },
            ),
            Err(e) => Err(e),
        }
    }

    /// Exchanges channels `i1` and `i2` of every pixel of the glyph in
    /// place; an out-of-range or equal index pair is a silent no-op.
    pub fn switch_bytes(&mut self, i1: usize, i2: usize)
        ensures
            final (self).pixels.bytes@ == crate::codec::switch_bytes_planar(
                old(self).pixels.bytes@,
                i1 as int,
                i2 as int,
            ),
            final (self).character == old(self).character,
            final (self).char_name == old(self).char_name,
            final (self).pixels.width == old(self).pixels.width,
            final (self).pixels.height == old(self).pixels.height,
            final (self).pixels.row_length == old(self).pixels.row_length,
            final (self).pixels.units_per_pixel == old(self).pixels.units_per_pixel,
    {
        self.pixels.switch_bytes(i1, i2);
    }
}

/// An ordered set of glyphs cut from one sheet or imported together,
/// with the fallback color used for characters the set does not hold.
#[derive(Debug, Clone)]
pub struct CharsCollection<T: PixelValues<T> + Copy + Clone> {
    /// The glyphs, in the order they were segmented or imported.
    pub chars: Vec<PixelsChar<T>>,
    /// Where the collection was imported from, if anywhere.
    pub path: String,
    /// The color a composed text shows for characters with no glyph.
    pub bgra: BGRA<T>,
}

/// What segmentation finds while placing the requested characters one
/// after the other: the horizontal bounds of each glyph, or the error
/// that stopped the walk.
pub enum SegOutcome {
    /// Every requested character got its `(left, right)` column bounds.
    Done(Seq<(int, int)>),
    /// A character's scan region held no accepted pixel at all.
    NoMatch,
    /// The cursor ran past the sheet width before all characters were
    /// placed.
    Incomplete,
}

/// The per-character walk of segmentation: scan the next character's
/// region with the true gap tolerance, record its horizontal bounds,
/// and advance the cursor one gap past its right edge; a scan with no
/// accepted pixel stops the walk, as does a cursor that runs past the
/// sheet width while characters remain.
pub open spec fn seg_bounds(
    buf: Seq<u8>,
    stride: int,
    m: Matcher,
    gap: int,
    orig: int,
    start_y: int,
    range_y: nat,
    cursor: int,
    range: nat,
    k: nat,
    acc: Seq<(int, int)>,
) -> SegOutcome
    decreases k,
{
    if k == 0 {
        SegOutcome::Done(acc)
    } else {
        let cp = spec_scan(buf, stride, m, cursor, start_y, range, range_y, gap);
        if cp.right_x < cp.left_x {
            SegOutcome::NoMatch
        } else {
            let acc2 = acc.push((cp.left_x as int, cp.right_x as int));
            if k == 1 {
                SegOutcome::Done(acc2)
            } else {
                let cur2 = cp.right_x + gap;
                if cur2 > orig {
                    SegOutcome::Incomplete
                } else {
                    seg_bounds(
                        buf,
                        stride,
                        m,
                        gap,
                        orig,
                        start_y,
                        range_y,
                        cur2,
                        (orig - cur2) as nat,
                        (k - 1) as nat,
                        acc2,
                    )
                }
            }
        }
    }
}

/// What segmentation promises of its result: the error matching the
/// outcome of the per-character walk, or a collection holding, for each
/// requested character in order, the glyph cut at that character's
/// horizontal bounds and the sheet's shared vertical extent, followed by
/// a synthetic space glyph when the text itself had no space.
pub open spec fn char_collection_post(
    r: Result<CharsCollection<u8>, PixelError>,
    buf: Seq<u8>,
    stride: int,
    m: Matcher,
    start_x: int,
    start_y: int,
    range_x: int,
    range_y: int,
    gap: int,
    space_w: int,
    text: Seq<char>,
    expected_bgra: BGRA<u8>,
) -> bool {
    let full = spec_scan(buf, stride, m, start_x, start_y, range_x as nat, range_y as nat, range_x);
    if full.right_x < full.left_x || full.bottom_y < full.top_y {
        r == Err::<CharsCollection<u8>, PixelError>(PixelError::NoMatchFound)
    } else {
        match seg_bounds(
            buf,
            stride,
            m,
            gap,
            range_x,
            start_y,
            range_y as nat,
            start_x,
            range_x as nat,
            text.len(),
            Seq::empty(),
        ) {
            SegOutcome::NoMatch => r == Err::<CharsCollection<u8>, PixelError>(
                PixelError::NoMatchFound,
            ),
            SegOutcome::Incomplete => r == Err::<CharsCollection<u8>, PixelError>(
                PixelError::IncompleteGlyphSet,
            ),
            SegOutcome::Done(bounds) => {
                &&& r is Ok
                &&& bounds.len() == text.len()
                &&& ({
                    let cc = r->Ok_0;
                    let h = full.bottom_y - full.top_y + 1;
                    &&& cc.chars@.len() == text.len() + (if (exists|q: int|
                        0 <= q < text.len() && text[q] == ' ') {
                        0int
                    } else {
                        1int
                    })
                    &&& (forall|q: int|
                        0 <= q < text.len() ==> {
                            let g = #[trigger] cc.chars@[q];
                            let w = bounds[q].1 - bounds[q].0 + 1;
                            &&& g.character == text[q]
                            &&& g.char_name@ == sheet_glyph_name(text[q])
                            &&& g.pixels.well_formed()
                            &&& g.pixels.width as int == w
                            &&& g.pixels.height as int == h
                            &&& g.pixels.bytes@ == grab_spec(
                                buf,
                                stride,
                                m,
                                bounds[q].0,
                                full.top_y as int,
                                w as nat,
                                h as nat,
                            )
                        })
                    &&& (!(exists|q: int| 0 <= q < text.len() && text[q] == ' ') ==> {
                        let sp = cc.chars@[text.len() as int];
                        &&& sp.character == ' '
                        &&& sp.char_name@ == sheet_glyph_name(' ')
                        &&& sp.pixels.well_formed()
                        &&& sp.pixels.width == space_w
                        &&& sp.pixels.height as int == h
                        &&& sp.pixels.bytes@ == Seq::new((space_w * h * 4) as nat, |z: int| 0u8)
                    })
                    &&& cc.path@ == Seq::<char>::empty()
                    &&& cc.bgra == expected_bgra
                })
            },
        }
    }
}

/// A glyph rectangle's sample count fits the buffer it is cut from.
proof fn lemma_glyph_area_bound(len: int, height: int, stride: int, w: int, h: int)
    requires
        height > 0,
        stride == len / height,
        0 <= w,
        4 * w <= stride,
        0 < h <= height,
    ensures
        w * h * 4 <= len,
{
    assert(w * h * 4 <= stride * height) by (nonlinear_arith)
        requires
            4 * w <= stride && 0 <= w && 0 < h <= height,
    ;
    vstd::arithmetic::div_mod::lemma_fundamental_div_mod(len, height);
    assert(height * (len / height) == stride * height) by (nonlinear_arith)
        requires
            stride == len / height,
    ;
}

/// Cuts one glyph per requested character out of a sprite sheet.
///
/// The whole region is scanned once, with the gap tolerance disabled,
/// for the shared vertical extent every glyph will use; a sheet with no
/// accepted pixel at all is refused.  Then, character by character, the
/// sheet is scanned from the cursor with the true gap tolerance
/// `min_px_space_btwn_chars` for the glyph's horizontal extent, the
/// glyph is cut out at that extent and the shared vertical one (every
/// pixel failing the matcher forced invisible), and the cursor advances
/// one gap past the glyph's right edge.  A character region with no
/// accepted pixel fails the build; so does a cursor that runs past the
/// width bound while characters remain.  If the requested characters
/// did not include a space, a fully invisible glyph of width
/// `space_char_width` and the shared height is appended for it.
pub fn char_collection_from_image(
    buffer: &Vec<u8>,
    height: usize,
    start_x: usize,
    start_y: usize,
    range_x: usize,
    range_y: usize,
    min_px_space_btwn_chars: usize,
    chars_string: &str,
    space_char_width: u32,
    bgra_matcher: Matcher,
) -> (r: Result<CharsCollection<u8>, PixelError>)
    requires
        height > 0,
        range_x >= 1,
        range_y >= 1,
        chars_string@.len() >= 1,
        start_y + range_y <= height,
        4 * (start_x + range_x) <= (buffer@.len() as int) / (height as int),
        start_x + range_x + range_x <= usize::MAX,
        start_x + range_x + min_px_space_btwn_chars <= usize::MAX,
        (space_char_width as int) * (start_y + range_y) * 4 <= usize::MAX,
    ensures
        char_collection_post(
            r,
            buffer@,
            (buffer@.len() as int) / (height as int),
            bgra_matcher,
            start_x as int,
            start_y as int,
            range_x as int,
            range_y as int,
            min_px_space_btwn_chars as int,
            space_char_width as int,
            chars_string@,
            BGRA::<u8>(0, 0, 0, 255),
        ),
{
    let ghost buf = buffer@;
    let ghost m = bgra_matcher;
    let stride: usize = buffer.len() / height;
    let text_len: usize = chars_string.unicode_len();
    let img_visible_range = get_cardinal_points_until_nonestreak_x(
        buffer,
        height,
        start_x,
        start_y,
        range_x,
        range_y,
        range_x,
        bgra_matcher,
    );
    let ghost full = spec_scan(
        buf,
        stride as int,
        m,
        start_x as int,
        start_y as int,
        range_x as nat,
        range_y as nat,
        range_x as int,
    );
    if img_visible_range.right_x < img_visible_range.left_x || img_visible_range.bottom_y
        < img_visible_range.top_y {
        return Err(PixelError::NoMatchFound);
    }
    proof {
        lemma_spec_scan_in_region(
            buf,
            stride as int,
            m,
            start_x as int,
            start_y as int,
            range_x as nat,
            range_y as nat,
            range_x as int,
        );
    }
    let shared_top: usize = img_visible_range.top_y;
    let shared_bottom: usize = img_visible_range.bottom_y;
    let glyph_h: usize = shared_bottom - shared_top + 1;
    let orig: usize = range_x;
    let table = default_chars();
    let mut cursor: usize = start_x;
    let mut range_cur: usize = range_x;
    let mut chars: Vec<PixelsChar<u8>> = Vec::new();
    let ghost mut acc: Seq<(int, int)> = Seq::empty();
    let ghost seg_top = seg_bounds(
        buf,
        stride as int,
        m,
        min_px_space_btwn_chars as int,
        range_x as int,
        start_y as int,
        range_y as nat,
        start_x as int,
        range_x as nat,
        chars_string@.len(),
        Seq::empty(),
    );
    let mut i: usize = 0;
    while i < text_len
        invariant
            i <= text_len,
            text_len == chars_string@.len(),
            buf == buffer@,
            buf.len() <= usize::MAX,
            m == bgra_matcher,
            height > 0,
            range_x >= 1,
            range_y >= 1,
            orig == range_x,
            stride == (buf.len() as int) / (height as int),
            start_y + range_y <= height,
            4 * (start_x + range_x) <= stride,
            start_x + range_x + min_px_space_btwn_chars <= usize::MAX,
            cursor + range_cur <= start_x + range_x,
            cursor + range_cur >= 1,
            full == spec_scan(
                buf,
                stride as int,
                m,
                start_x as int,
                start_y as int,
                range_x as nat,
                range_y as nat,
                range_x as int,
            ),
            shared_top == full.top_y,
            shared_bottom == full.bottom_y,
            full.left_x <= full.right_x,
            start_y <= shared_top <= shared_bottom,
            shared_bottom < start_y + range_y,
            glyph_h == shared_bottom - shared_top + 1,
            seg_top == seg_bounds(
                buf,
                stride as int,
                m,
                min_px_space_btwn_chars as int,
                range_x as int,
                start_y as int,
                range_y as nat,
                cursor as int,
                range_cur as nat,
                (text_len - i) as nat,
                acc,
            ),
            seg_top == seg_bounds(
                buf,
                stride as int,
                m,
                min_px_space_btwn_chars as int,
                range_x as int,
                start_y as int,
                range_y as nat,
                start_x as int,
                range_x as nat,
                chars_string@.len(),
                Seq::empty(),
            ),
            table_is_default(table.entries@),
            acc.len() == i,
            chars@.len() == i,
            forall|q: int|
                0 <= q < i ==> {
                    let g = #[trigger] chars@[q];
                    let w = acc[q].1 - acc[q].0 + 1;
                    &&& g.character == chars_string@[q]
                    &&& g.char_name@ == sheet_glyph_name(chars_string@[q])
                    &&& g.pixels.well_formed()
                    &&& g.pixels.width as int == w
                    &&& g.pixels.height as int == glyph_h
                    &&& g.pixels.bytes@ == grab_spec(
                        buf,
                        stride as int,
                        m,
                        acc[q].0,
                        shared_top as int,
                        w as nat,
                        glyph_h as nat,
                    )
                },
        decreases text_len - i,
    {
        let values = get_cardinal_points_until_nonestreak_x(
            buffer,
            height,
            cursor,
            start_y,
            range_cur,
            range_y,
            min_px_space_btwn_chars,
            bgra_matcher,
        );
        if values.right_x < values.left_x {
            return Err(PixelError::NoMatchFound);
        }
        proof {
            lemma_spec_scan_in_region(
                buf,
                stride as int,
                m,
                cursor as int,
                start_y as int,
                range_cur as nat,
                range_y as nat,
                min_px_space_btwn_chars as int,
            );
            assert(cursor <= values.left_x && values.right_x < cursor + range_cur);
        }
        let gw: usize = values.right_x - values.left_x + 1;
        proof {
            lemma_glyph_area_bound(
                buf.len() as int,
                height as int,
                stride as int,
                gw as int,
                glyph_h as int,
            );
            assert((gw as int) * (glyph_h as int) * 4 == 4 * (gw as int) * (glyph_h as int))
                by (nonlinear_arith);
        }
        let (grabbed, _) = pixel_grabber(
            buffer,
            height,
            values.left_x,
            shared_top,
            gw,
            glyph_h,
            bgra_matcher,
        );
        let pc: PixelsCollection<u8> = match PixelsCollection::<u8>::create(gw, glyph_h, grabbed) {
            Ok(pc) => pc,
            Err(_) => {
                proof {
                    assert(false);
                }
                vstd::pervasive::unreached()
            },
        };
        let ch: char = chars_string.get_char(i);
        let name: String = match table.get_char_name_by_char(ch) {
            Some(n) => n,
            None => char_to_string(ch),
        };
        proof {
            lemma_char_index_matches_default(table.entries@, ch, 0);
            assert(name@ == sheet_glyph_name(ch));
        }
        chars.push(PixelsChar { character: ch, char_name: name, pixels: pc });
        proof {
            acc = acc.push((values.left_x as int, values.right_x as int));
        }
        if i + 1 < text_len {
            let cur2: usize = values.right_x + min_px_space_btwn_chars;
            if cur2 > orig {
                return Err(PixelError::IncompleteGlyphSet);
            }
            cursor = cur2;
            range_cur = orig - cur2;
        }
        i = i + 1;
    }
    proof {
        assert(seg_bounds(
            buf,
            stride as int,
            m,
            min_px_space_btwn_chars as int,
            range_x as int,
            start_y as int,
            range_y as nat,
            cursor as int,
            range_cur as nat,
            0,
            acc,
        ) == SegOutcome::Done(acc));
    }
    let mut has_space: bool = false;
    let mut q: usize = 0;
    while q < chars.len()
        invariant
            q <= chars@.len(),
            has_space == (exists|z: int| 0 <= z < q && chars@[z].character == ' '),
        decreases chars@.len() - q,
    {
        if chars[q].character == ' ' {
            has_space = true;
        }
        q = q + 1;
    }
    proof {
        if has_space {
            let z = choose|z: int| 0 <= z < chars@.len() && chars@[z].character == ' ';
            assert(chars_string@[z] == ' ');
        } else {
            assert forall|q2: int|
                0 <= q2 < chars_string@.len() implies chars_string@[q2] != ' ' by {
                assert(chars@[q2].character == chars_string@[q2]);
            }
        }
        assert(has_space == (exists|q2: int|
            0 <= q2 < chars_string@.len() && chars_string@[q2] == ' '));
    }
    if !has_space {
        let sw: usize = space_char_width as usize;
        proof {
            assert((sw as int) * (glyph_h as int) * 4 <= (sw as int) * ((start_y as int)
                + (range_y as int)) * 4) by (nonlinear_arith)
                requires
                    0 < glyph_h as int <= (start_y as int) + (range_y as int),
                    sw >= 0,
            ;
        }
        let n: usize = sw * glyph_h * 4;
        let zeros: Vec<u8> = vec![0u8; n];
        let pc: PixelsCollection<u8> = match PixelsCollection::<u8>::create(sw, glyph_h, zeros) {
            Ok(pc) => pc,
            Err(_) => {
                proof {
                    assert(false);
                }
                vstd::pervasive::unreached()
            },
        };
        let name: String = match table.get_char_name_by_char(' ') {
            Some(n) => n,
            None => char_to_string(' '),
        };
        proof {
            lemma_char_index_matches_default(table.entries@, ' ', 0);
            assert(name@ == sheet_glyph_name(' '));
        }
        chars.push(PixelsChar { character: ' ', char_name: name, pixels: pc });
        proof {
            assert(pc.bytes@ =~= Seq::new(
                ((space_char_width as int) * ((full.bottom_y - full.top_y + 1) as int)
                    * 4) as nat,
                |z: int| 0u8,
            ));
        }
    }
    Ok(CharsCollection { chars, path: String::new(), bgra: BGRA(0, 0, 0, 255) })
}

impl PixelsCollection<u8> {
    /// Segments this buffer into one glyph per character of
    /// `chars_string`, as [`char_collection_from_image`] does over the
    /// whole rectangle, and colors the resulting collection's fallback
    /// with the lowest visible B, G, R found in the buffer.
    pub fn try_create_char_collection(
        &self,
        min_px_space_btwn_chars: usize,
        chars_string: &str,
        space_char_width: u32,
        bgra_matcher: Matcher,
    ) -> (r: Result<CharsCollection<u8>, PixelError>)
        requires
            self.well_formed(),
            self.width >= 1,
            chars_string@.len() >= 1,
            self.width + min_px_space_btwn_chars <= usize::MAX,
            (space_char_width as int) * (self.height as int) * 4 <= usize::MAX,
        ensures
            char_collection_post(
                r,
                self.bytes@,
                4 * (self.width as int),
                bgra_matcher,
                0,
                0,
                self.width as int,
                self.height as int,
                min_px_space_btwn_chars as int,
                space_char_width as int,
                chars_string@,
                ({
                    let st = lowest_visible_fold(self.bytes@, (self.bytes@.len() as int) / 4);
                    BGRA::<u8>(st.0, st.1, st.2, st.3)
                }),
            ),
    {
        proof {
            let w = self.width as int;
            let h = self.height as int;
            assert(w * h * 4 == h * (4 * w)) by (nonlinear_arith);
            vstd::arithmetic::div_mod::lemma_div_multiples_vanish(4 * w, h);
            assert((self.bytes@.len() as int) / h == 4 * w);
            assert(4 * w <= w * h * 4) by (nonlinear_arith)
                requires
                    w >= 0 && h >= 1,
            ;
        }
        match char_collection_from_image(
            &self.bytes,
            self.height,
            0,
            0,
            self.width,
            self.height,
            min_px_space_btwn_chars,
            chars_string,
            space_char_width,
            bgra_matcher,
        ) {
            Ok(coll) => {
                let bgra = image_lowest_visible_bgr(&self.bytes);
                Ok(CharsCollection { chars: coll.chars, path: coll.path, bgra })
            },
            Err(err) => Err(err),
        }
    }
}

/// A run of text rendered as pixels: the fallback color it was composed
/// with and the composed raster itself.
#[derive(Debug, Clone)]
pub struct PixelsString {
    /// The color that stood in for characters without a glyph.
    pub bgra: BGRA<u8>,
    /// The composed raster, one row of samples per output row.
    pub pixels: PixelsCollection<u8>,
}

impl CharsCollection<u8> {
    /// Rewrites every glyph's grey pixels: a grey above the threshold
    /// becomes invisible, any other grey becomes fully opaque black.
    pub fn grey_scale_into_black(&mut self, grey_threshold: u8)
        ensures
            final (self).chars@.len() == old(self).chars@.len(),
            forall|i: int|
                0 <= i < old(self).chars@.len() ==> {
                    let g0 = old(self).chars@[i];
                    let g1 = #[trigger] final (self).chars@[i];
                    &&& g1.character == g0.character
                    &&& g1.char_name == g0.char_name
                    &&& g1.pixels.width == g0.pixels.width
                    &&& g1.pixels.height == g0.pixels.height
                    &&& g1.pixels.row_length == g0.pixels.row_length
                    &&& g1.pixels.units_per_pixel == g0.pixels.units_per_pixel
                    &&& g1.pixels.bytes@ == grey_scale_chunks(g0.pixels.bytes@, grey_threshold)
                },
            final (self).path == old(self).path,
            final (self).bgra == old(self).bgra,
    {
        let n: usize = self.chars.len();
        let mut i: usize = 0;
        while i < n
            invariant
                i <= n,
                n == old(self).chars@.len(),
                self.chars@.len() == n,
                self.path == old(self).path,
                self.bgra == old(self).bgra,
                forall|q: int| i <= q < n ==> self.chars@[q] == old(self).chars@[q],
                forall|q: int|
                    0 <= q < i ==> {
                        let g0 = old(self).chars@[q];
                        let g1 = #[trigger] self.chars@[q];
                        &&& g1.character == g0.character
                        &&& g1.char_name == g0.char_name
                        &&& g1.pixels.width == g0.pixels.width
                        &&& g1.pixels.height == g0.pixels.height
                        &&& g1.pixels.row_length == g0.pixels.row_length
                        &&& g1.pixels.units_per_pixel == g0.pixels.units_per_pixel
                        &&& g1.pixels.bytes@ == grey_scale_chunks(
                            g0.pixels.bytes@,
                            grey_threshold,
                        )
                    },
            decreases n - i,
        {
            PixelsCollection::<u8>::grey_scale_into_black(
                &mut self.chars[i].pixels.bytes,
                grey_threshold,
            );
            i = i + 1;
        }
    }

    /// Where a glyph pixel's four channels equal the given values,
    /// replaces them with the four new ones, in every glyph.
    pub fn matching_color_change(
        &mut self,
        b: u8,
        g: u8,
        r: u8,
        a: u8,
        new_b: u8,
        new_g: u8,
        new_r: u8,
        new_a: u8,
    )
        ensures
            final (self).chars@.len() == old(self).chars@.len(),
            forall|i: int|
                0 <= i < old(self).chars@.len() ==> {
                    let g0 = old(self).chars@[i];
                    let g1 = #[trigger] final (self).chars@[i];
                    &&& g1.character == g0.character
                    &&& g1.char_name == g0.char_name
                    &&& g1.pixels.width == g0.pixels.width
                    &&& g1.pixels.height == g0.pixels.height
                    &&& g1.pixels.row_length == g0.pixels.row_length
                    &&& g1.pixels.units_per_pixel == g0.pixels.units_per_pixel
                    &&& g1.pixels.bytes@ == recolor_chunks(
                        g0.pixels.bytes@,
                        Matcher::MatchBgra(b, g, r, a),
                        Alterator::SetBgra(new_b, new_g, new_r, new_a),
                    )
                },
            final (self).path == old(self).path,
            final (self).bgra == old(self).bgra,
    {
        let n: usize = self.chars.len();
        let mut i: usize = 0;
        while i < n
            invariant
                i <= n,
                n == old(self).chars@.len(),
                self.chars@.len() == n,
                self.path == old(self).path,
                self.bgra == old(self).bgra,
                forall|q: int| i <= q < n ==> self.chars@[q] == old(self).chars@[q],
                forall|q: int|
                    0 <= q < i ==> {
                        let g0 = old(self).chars@[q];
                        let g1 = #[trigger] self.chars@[q];
                        &&& g1.character == g0.character
                        &&& g1.char_name == g0.char_name
                        &&& g1.pixels.width == g0.pixels.width
                        &&& g1.pixels.height == g0.pixels.height
                        &&& g1.pixels.row_length == g0.pixels.row_length
                        &&& g1.pixels.units_per_pixel == g0.pixels.units_per_pixel
                        &&& g1.pixels.bytes@ == recolor_chunks(
                            g0.pixels.bytes@,
                            Matcher::MatchBgra(b, g, r, a),
                            Alterator::SetBgra(new_b, new_g, new_r, new_a),
                        )
                    },
            decreases n - i,
        {
            crate::bgra_management::recolor(
                &mut self.chars[i].pixels.bytes,
                Matcher::MatchBgra(b, g, r, a),
                Alterator::SetBgra(new_b, new_g, new_r, new_a),
            );
            i = i + 1;
        }
    }

    /// Recolors the invisible pixels of every glyph with the given
    /// channel values.
    pub fn set_bgra_for_invisible(&mut self, b: u8, g: u8, r: u8, a: u8)
        ensures
            final (self).chars@.len() == old(self).chars@.len(),
            forall|i: int|
                0 <= i < old(self).chars@.len() ==> {
                    let g0 = old(self).chars@[i];
                    let g1 = #[trigger] final (self).chars@[i];
                    &&& g1.character == g0.character
                    &&& g1.char_name == g0.char_name
                    &&& g1.pixels.width == g0.pixels.width
                    &&& g1.pixels.height == g0.pixels.height
                    &&& g1.pixels.row_length == g0.pixels.row_length
                    &&& g1.pixels.units_per_pixel == g0.pixels.units_per_pixel
                    &&& g1.pixels.bytes@ == recolor_chunks(
                        g0.pixels.bytes@,
                        Matcher::MatchBgra(0, 0, 0, 0),
                        Alterator::SetBgra(b, g, r, a),
                    )
                },
            final (self).path == old(self).path,
            final (self).bgra == old(self).bgra,
    {
        let n: usize = self.chars.len();
        let mut i: usize = 0;
        while i < n
            invariant
                i <= n,
                n == old(self).chars@.len(),
                self.chars@.len() == n,
                self.path == old(self).path,
                self.bgra == old(self).bgra,
                forall|q: int| i <= q < n ==> self.chars@[q] == old(self).chars@[q],
                forall|q: int|
                    0 <= q < i ==> {
                        let g0 = old(self).chars@[q];
                        let g1 = #[trigger] self.chars@[q];
                        &&& g1.character == g0.character
                        &&& g1.char_name == g0.char_name
                        &&& g1.pixels.width == g0.pixels.width
                        &&& g1.pixels.height == g0.pixels.height
                        &&& g1.pixels.row_length == g0.pixels.row_length
                        &&& g1.pixels.units_per_pixel == g0.pixels.units_per_pixel
                        &&& g1.pixels.bytes@ == recolor_chunks(
                            g0.pixels.bytes@,
                            Matcher::MatchBgra(0, 0, 0, 0),
                            Alterator::SetBgra(b, g, r, a),
                        )
                    },
            decreases n - i,
        {
            crate::bgra_management::recolor(
                &mut self.chars[i].pixels.bytes,
                Matcher::MatchBgra(0, 0, 0, 0),
                Alterator::SetBgra(b, g, r, a),
            );
            i = i + 1;
        }
    }

    /// Where a glyph pixel's alpha equals `a`, sets its color channels
    /// to the given B, G, R, in every glyph; the fallback color becomes
    /// the given one.
    pub fn alpha_match_set_bgr(&mut self, a: u8, b: u8, g: u8, r: u8)
        ensures
            final (self).chars@.len() == old(self).chars@.len(),
            forall|i: int|
                0 <= i < old(self).chars@.len() ==> {
                    let g0 = old(self).chars@[i];
                    let g1 = #[trigger] final (self).chars@[i];
                    &&& g1.character == g0.character
                    &&& g1.char_name == g0.char_name
                    &&& g1.pixels.width == g0.pixels.width
                    &&& g1.pixels.height == g0.pixels.height
                    &&& g1.pixels.row_length == g0.pixels.row_length
                    &&& g1.pixels.units_per_pixel == g0.pixels.units_per_pixel
                    &&& g1.pixels.bytes@ == recolor_chunks(
                        g0.pixels.bytes@,
                        Matcher::MatchAlpha(a),
                        Alterator::SetBgra(b, g, r, a),
                    )
                },
            final (self).path == old(self).path,
            final (self).bgra == BGRA::<u8>(b, g, r, a),
    {
        let n: usize = self.chars.len();
        let mut i: usize = 0;
        while i < n
            invariant
                i <= n,
                n == old(self).chars@.len(),
                self.chars@.len() == n,
                self.path == old(self).path,
                self.bgra == old(self).bgra,
                forall|q: int| i <= q < n ==> self.chars@[q] == old(self).chars@[q],
                forall|q: int|
                    0 <= q < i ==> {
                        let g0 = old(self).chars@[q];
                        let g1 = #[trigger] self.chars@[q];
                        &&& g1.character == g0.character
                        &&& g1.char_name == g0.char_name
                        &&& g1.pixels.width == g0.pixels.width
                        &&& g1.pixels.height == g0.pixels.height
                        &&& g1.pixels.row_length == g0.pixels.row_length
                        &&& g1.pixels.units_per_pixel == g0.pixels.units_per_pixel
                        &&& g1.pixels.bytes@ == recolor_chunks(
                            g0.pixels.bytes@,
                            Matcher::MatchAlpha(a),
                            Alterator::SetBgra(b, g, r, a),
                        )
                    },
            decreases n - i,
        {
            crate::bgra_management::recolor(
                &mut self.chars[i].pixels.bytes,
                Matcher::MatchAlpha(a),
                Alterator::SetBgra(b, g, r, a),
            );
            i = i + 1;
        }
        self.bgra = BGRA(b, g, r, a);
    }

    /// Sets the three color channels of every pixel of every glyph,
    /// keeping each pixel's alpha; the fallback color keeps its alpha
    /// and takes the given B, G, R.
    pub fn set_bgr(&mut self, b: u8, g: u8, r: u8)
        ensures
            final (self).chars@.len() == old(self).chars@.len(),
            forall|i: int|
                0 <= i < old(self).chars@.len() ==> {
                    let g0 = old(self).chars@[i];
                    let g1 = #[trigger] final (self).chars@[i];
                    &&& g1.character == g0.character
                    &&& g1.char_name == g0.char_name
                    &&& g1.pixels.width == g0.pixels.width
                    &&& g1.pixels.height == g0.pixels.height
                    &&& g1.pixels.row_length == g0.pixels.row_length
                    &&& g1.pixels.units_per_pixel == g0.pixels.units_per_pixel
                    &&& g1.pixels.bytes@ == recolor_chunks(
                        g0.pixels.bytes@,
                        Matcher::Always,
                        Alterator::SetBgr(b, g, r),
                    )
                },
            final (self).path == old(self).path,
            final (self).bgra == BGRA::<u8>(b, g, r, old(self).bgra.3),
    {
        let n: usize = self.chars.len();
        let mut i: usize = 0;
        while i < n
            invariant
                i <= n,
                n == old(self).chars@.len(),
                self.chars@.len() == n,
                self.path == old(self).path,
                self.bgra == old(self).bgra,
                forall|q: int| i <= q < n ==> self.chars@[q] == old(self).chars@[q],
                forall|q: int|
                    0 <= q < i ==> {
                        let g0 = old(self).chars@[q];
                        let g1 = #[trigger] self.chars@[q];
                        &&& g1.character == g0.character
                        &&& g1.char_name == g0.char_name
                        &&& g1.pixels.width == g0.pixels.width
                        &&& g1.pixels.height == g0.pixels.height
                        &&& g1.pixels.row_length == g0.pixels.row_length
                        &&& g1.pixels.units_per_pixel == g0.pixels.units_per_pixel
                        &&& g1.pixels.bytes@ == recolor_chunks(
                            g0.pixels.bytes@,
                            Matcher::Always,
                            Alterator::SetBgr(b, g, r),
                        )
                    },
            decreases n - i,
        {
            crate::bgra_management::recolor(
                &mut self.chars[i].pixels.bytes,
                Matcher::Always,
                Alterator::SetBgr(b, g, r),
            );
            i = i + 1;
        }
        let alpha: u8 = self.bgra.3;
        self.bgra = BGRA(b, g, r, alpha);
    }
}

/// The height of the tallest of the first `n` glyphs, and at least 1.
pub open spec fn tallest_char_height(chars: Seq<PixelsChar<u8>>, n: int) -> int
    decreases n,
{
    if n <= 0 {
        1
    } else {
        let p = tallest_char_height(chars, n - 1);
        let h = chars[n - 1].pixels.height as int;
        if p >= h {
            p
        } else {
            h
        }
    }
}

/// The width of the widest of the first `n` glyphs, and at least 1.
pub open spec fn widest_char_width(chars: Seq<PixelsChar<u8>>, n: int) -> int
    decreases n,
{
    if n <= 0 {
        1
    } else {
        let p = widest_char_width(chars, n - 1);
        let w = chars[n - 1].pixels.width as int;
        if p >= w {
            p
        } else {
            w
        }
    }
}

/// The first index at or after `i` whose glyph renders `c`, or -1 when
/// there is none: lookups use the first matching glyph only.
pub open spec fn find_char_from(chars: Seq<PixelsChar<u8>>, c: char, i: int) -> int
    decreases chars.len() - i,
{
    if i < 0 || i >= chars.len() {
        -1
    } else if chars[i].character == c {
        i
    } else {
        find_char_from(chars, c, i + 1)
    }
}

/// A glyph's effective width under the given spacing: its own width
/// plus the spacing, floored at zero.
pub open spec fn eff_width(w: int, spacing: int) -> int {
    if w + spacing >= 0 {
        w + spacing
    } else {
        0
    }
}

/// The width a missing character's filler takes: the widest glyph's
/// width, grown by a positive spacing but never shrunk below itself.
pub open spec fn fallback_width(wmax: int, spacing: int) -> int {
    if wmax + spacing >= wmax {
        wmax + spacing
    } else {
        wmax
    }
}

/// The width one character of the text contributes to the composed
/// raster.
pub open spec fn char_width(chars: Seq<PixelsChar<u8>>, c: char, spacing: int, wmax: int) -> int {
    let i = find_char_from(chars, c, 0);
    if i >= 0 {
        eff_width(chars[i].pixels.width as int, spacing)
    } else {
        fallback_width(wmax, spacing)
    }
}

/// The composed raster's total width: each character's contribution
/// summed over the first `k` characters of the text.
pub open spec fn total_width(
    chars: Seq<PixelsChar<u8>>,
    text: Seq<char>,
    spacing: int,
    wmax: int,
    k: int,
) -> int
    decreases k,
{
    if k <= 0 {
        0
    } else {
        total_width(chars, text, spacing, wmax, k - 1) + char_width(
            chars,
            text[k - 1],
            spacing,
            wmax,
        )
    }
}

/// The samples one glyph contributes to one output row: its own row of
/// pixels when the glyph is tall enough, padded (or the whole segment
/// filled) with the invisible value.
pub open spec fn glyph_row_seg(g: PixelsChar<u8>, row: int, spacing: int) -> Seq<u8> {
    let gw = g.pixels.width as int;
    let gh = g.pixels.height as int;
    Seq::new(
        (4 * eff_width(gw, spacing)) as nat,
        |j: int|
            if gh <= row {
                0u8
            } else if j / 4 < gw {
                g.pixels.bytes@[(4 * gw) * row + j]
            } else {
                0u8
            },
    )
}

/// The samples a missing character contributes to one output row: the
/// fallback color at full opacity across the filler width.
pub open spec fn fallback_row_seg(bgra: BGRA<u8>, wmax: int, spacing: int) -> Seq<u8> {
    Seq::new(
        (4 * fallback_width(wmax, spacing)) as nat,
        |j: int|
            if j % 4 == 0 {
                bgra.0
            } else if j % 4 == 1 {
                bgra.1
            } else if j % 4 == 2 {
                bgra.2
            } else {
                255u8
            },
    )
}

/// The samples one character of the text contributes to one output row.
pub open spec fn char_row_seg(
    chars: Seq<PixelsChar<u8>>,
    bgra: BGRA<u8>,
    c: char,
    row: int,
    spacing: int,
    wmax: int,
) -> Seq<u8> {
    let i = find_char_from(chars, c, 0);
    if i >= 0 {
        glyph_row_seg(chars[i], row, spacing)
    } else {
        fallback_row_seg(bgra, wmax, spacing)
    }
}

/// One output row up to the first `k` characters of the text: the
/// characters' row segments laid end to end.
pub open spec fn row_prefix(
    chars: Seq<PixelsChar<u8>>,
    bgra: BGRA<u8>,
    text: Seq<char>,
    k: int,
    row: int,
    spacing: int,
    wmax: int,
) -> Seq<u8>
    decreases k,
{
    if k <= 0 {
        Seq::empty()
    } else {
        row_prefix(chars, bgra, text, k - 1, row, spacing, wmax) + char_row_seg(
            chars,
            bgra,
            text[k - 1],
            row,
            spacing,
            wmax,
        )
    }
}

/// The composed raster's first `rows` output rows, laid end to end.
pub open spec fn composed_rows(
    chars: Seq<PixelsChar<u8>>,
    bgra: BGRA<u8>,
    text: Seq<char>,
    rows: int,
    spacing: int,
    wmax: int,
) -> Seq<u8>
    decreases rows,
{
    if rows <= 0 {
        Seq::empty()
    } else {
        composed_rows(chars, bgra, text, rows - 1, spacing, wmax) + row_prefix(
            chars,
            bgra,
            text,
            text.len() as int,
            rows - 1,
            spacing,
            wmax,
        )
    }
}

/// Every character contributes a nonnegative width, so the total never
/// goes negative.
proof fn lemma_total_width_nonneg(
    chars: Seq<PixelsChar<u8>>,
    text: Seq<char>,
    spacing: int,
    wmax: int,
    k: int,
)
    requires
        wmax >= 0,
    ensures
        total_width(chars, text, spacing, wmax, k) >= 0,
    decreases k,
{
    if k > 0 {
        lemma_total_width_nonneg(chars, text, spacing, wmax, k - 1);
    }
}

/// The total width is monotone in the number of characters counted, so
/// each character's contribution is bounded by the total.
proof fn lemma_total_width_mono(
    chars: Seq<PixelsChar<u8>>,
    text: Seq<char>,
    spacing: int,
    wmax: int,
    k1: int,
    k2: int,
)
    requires
        wmax >= 0,
        0 <= k1 <= k2,
    ensures
        total_width(chars, text, spacing, wmax, k1) <= total_width(chars, text, spacing, wmax, k2),
    decreases k2 - k1,
{
    if k1 < k2 {
        lemma_total_width_mono(chars, text, spacing, wmax, k1, k2 - 1);
    }
}

/// One row's samples, over the first `k` characters, take four times
/// the width those characters contribute.
proof fn lemma_row_prefix_len(
    chars: Seq<PixelsChar<u8>>,
    bgra: BGRA<u8>,
    text: Seq<char>,
    k: int,
    row: int,
    spacing: int,
    wmax: int,
)
    requires
        wmax >= 0,
    ensures
        row_prefix(chars, bgra, text, k, row, spacing, wmax).len() == 4 * total_width(
            chars,
            text,
            spacing,
            wmax,
            k,
        ),
    decreases k,
{
    if k > 0 {
        lemma_row_prefix_len(chars, bgra, text, k - 1, row, spacing, wmax);
    }
}

/// The composed raster takes `rows` rows of samples, each four times
/// the total width long.
proof fn lemma_composed_rows_len(
    chars: Seq<PixelsChar<u8>>,
    bgra: BGRA<u8>,
    text: Seq<char>,
    rows: int,
    spacing: int,
    wmax: int,
)
    requires
        wmax >= 0,
        rows >= 0,
    ensures
        composed_rows(chars, bgra, text, rows, spacing, wmax).len() == rows * (4 * total_width(
            chars,
            text,
            spacing,
            wmax,
            text.len() as int,
        )),
    decreases rows,
{
    let w4 = 4 * total_width(chars, text, spacing, wmax, text.len() as int);
    if rows > 0 {
        lemma_composed_rows_len(chars, bgra, text, rows - 1, spacing, wmax);
        lemma_row_prefix_len(chars, bgra, text, text.len() as int, rows - 1, spacing, wmax);
        assert((rows - 1) * w4 + w4 == rows * w4) by (nonlinear_arith);
    } else {
        assert(0 * w4 == 0) by (nonlinear_arith);
    }
}

/// Finds the first glyph rendering `c`, if the collection holds one.
fn find_glyph(chars: &Vec<PixelsChar<u8>>, c: char) -> (r: Option<usize>)
    ensures
        r matches Some(i) ==> i < chars@.len() && find_char_from(chars@, c, 0) == i,
        r is None ==> find_char_from(chars@, c, 0) == -1,
{
    let n: usize = chars.len();
    let mut i: usize = 0;
    while i < n
        invariant
            i <= n,
            n == chars@.len(),
            find_char_from(chars@, c, 0) == find_char_from(chars@, c, i as int),
        decreases n - i,
    {
        if chars[i].character == c {
            return Some(i);
        }
        i = i + 1;
    }
    None
}

impl CharsCollection<u8> {
    /// The height of the tallest glyph, and at least 1.
    fn tallest_height(&self) -> (r: usize)
        ensures
            r as int == tallest_char_height(self.chars@, self.chars@.len() as int),
    {
        let mut acc: usize = 1;
        let n: usize = self.chars.len();
        let mut i: usize = 0;
        while i < n
            invariant
                i <= n,
                n == self.chars@.len(),
                acc as int == tallest_char_height(self.chars@, i as int),
            decreases n - i,
        {
            let h: usize = self.chars[i].pixels.height;
            if h > acc {
                acc = h;
            }
            i = i + 1;
        }
        acc
    }

    /// The width of the widest glyph, and at least 1.
    fn widest_width(&self) -> (r: usize)
        ensures
            r as int == widest_char_width(self.chars@, self.chars@.len() as int),
    {
        let mut acc: usize = 1;
        let n: usize = self.chars.len();
        let mut i: usize = 0;
        while i < n
            invariant
                i <= n,
                n == self.chars@.len(),
                acc as int == widest_char_width(self.chars@, i as int),
            decreases n - i,
        {
            let w: usize = self.chars[i].pixels.width;
            if w > acc {
                acc = w;
            }
            i = i + 1;
        }
        acc
    }

    /// Renders `string` as one raster: row by row, each character
    /// contributes its glyph's row at the effective width (the glyph
    /// width plus the spacing, floored at zero), or, when no glyph
    /// renders it, a filler of the fallback color at full opacity and
    /// at least the widest glyph's width.  The output is as tall as the
    /// tallest glyph and exactly as wide as the characters'
    /// contributions summed.
    pub fn create_pixels_string(&self, string: &str, char_spacing: isize) -> (res: PixelsString)
        requires
            isize::MIN < char_spacing,
            forall|q: int|
                0 <= q < self.chars@.len() ==> (#[trigger] self.chars@[q]).pixels.well_formed(),
            total_width(
                self.chars@,
                string@,
                char_spacing as int,
                widest_char_width(self.chars@, self.chars@.len() as int),
                string@.len() as int,
            ) * 4 * tallest_char_height(self.chars@, self.chars@.len() as int) <= usize::MAX,
        ensures
            ({
                let wmax = widest_char_width(self.chars@, self.chars@.len() as int);
                let hmax = tallest_char_height(self.chars@, self.chars@.len() as int);
                let w = total_width(
                    self.chars@,
                    string@,
                    char_spacing as int,
                    wmax,
                    string@.len() as int,
                );
                &&& res.bgra == self.bgra
                &&& res.pixels.well_formed()
                &&& res.pixels.width as int == w
                &&& res.pixels.height as int == hmax
                &&& res.pixels.bytes@ == composed_rows(
                    self.chars@,
                    self.bgra,
                    string@,
                    hmax,
                    char_spacing as int,
                    wmax,
                )
            }),
    {
        let ghost cs = self.chars@;
        let ghost text = string@;
        let ghost sp = char_spacing as int;
        let text_len: usize = string.unicode_len();
        let tallest_char_height_v: usize = self.tallest_height();
        let widest_char_width_v: usize = self.widest_width();
        let ghost wmax = widest_char_width_v as int;
        let ghost total_w = total_width(cs, text, sp, wmax, text.len() as int);
        proof {
            lemma_total_width_nonneg(cs, text, sp, wmax, text.len() as int);
            assert(total_w * 4 <= total_w * 4 * (tallest_char_height_v as int))
                by (nonlinear_arith)
                requires
                    total_w >= 0 && tallest_char_height_v as int >= 1,
            ;
        }
        let mut vec: Vec<u8> = Vec::new();
        let mut vec_width: usize = 0;
        let mut string_y: usize = 0;
        while string_y < tallest_char_height_v
            invariant
                string_y <= tallest_char_height_v,
                cs == self.chars@,
                text == string@,
                sp == char_spacing as int,
                isize::MIN < char_spacing,
                wmax == widest_char_width_v as int,
                wmax == widest_char_width(cs, cs.len() as int),
                tallest_char_height_v as int == tallest_char_height(cs, cs.len() as int),
                text_len == text.len(),
                forall|q: int| 0 <= q < cs.len() ==> (#[trigger] cs[q]).pixels.well_formed(),
                total_w == total_width(cs, text, sp, wmax, text.len() as int),
                total_w * 4 * (tallest_char_height_v as int) <= usize::MAX,
                total_w * 4 <= usize::MAX,
                total_w >= 0,
                vec@ == composed_rows(cs, self.bgra, text, string_y as int, sp, wmax),
                string_y == 0 ==> vec_width == 0,
                string_y >= 1 ==> vec_width as int == total_w,
            decreases tallest_char_height_v - string_y,
        {
            let ghost row_base = vec@;
            let mut k: usize = 0;
            while k < text_len
                invariant
                    k <= text_len,
                    cs == self.chars@,
                    text == string@,
                    sp == char_spacing as int,
                    isize::MIN < char_spacing,
                    wmax == widest_char_width_v as int,
                    wmax == widest_char_width(cs, cs.len() as int),
                    text_len == text.len(),
                    forall|q: int| 0 <= q < cs.len() ==> (#[trigger] cs[q]).pixels.well_formed(),
                    total_w == total_width(cs, text, sp, wmax, text.len() as int),
                    total_w * 4 <= usize::MAX,
                    total_w >= 0,
                    row_base == composed_rows(cs, self.bgra, text, string_y as int, sp, wmax),
                    vec@ == row_base + row_prefix(
                        cs,
                        self.bgra,
                        text,
                        k as int,
                        string_y as int,
                        sp,
                        wmax,
                    ),
                    string_y == 0 ==> vec_width as int == total_width(cs, text, sp, wmax, k as int),
                    string_y >= 1 ==> vec_width as int == total_w,
                decreases text_len - k,
            {
                let s_char: char = string.get_char(k);
                let ghost seg = char_row_seg(cs, self.bgra, s_char, string_y as int, sp, wmax);
                let ghost seg_base = vec@;
                proof {
                    lemma_total_width_nonneg(cs, text, sp, wmax, k as int);
                    lemma_total_width_mono(cs, text, sp, wmax, k as int + 1, text.len() as int);
                }
                match find_glyph(&self.chars, s_char) {
                    Some(gi) => {
                        let gw: usize = self.chars[gi].pixels.width;
                        let gh: usize = self.chars[gi].pixels.height;
                        let char_total_width: usize = if char_spacing >= 0 {
                            gw + (char_spacing as usize)
                        } else {
                            let d: usize = (-char_spacing) as usize;
                            if gw >= d {
                                gw - d
                            } else {
                                0
                            }
                        };
                        proof {
                            assert(char_total_width as int == eff_width(gw as int, sp));
                            assert(char_total_width as int == char_width(cs, s_char, sp, wmax));
                        }
                        if gh <= string_y {
                            let mut w2: usize = 0;
                            while w2 < char_total_width
                                invariant
                                    w2 <= char_total_width,
                                    gh <= string_y,
                                    cs == self.chars@,
                                    gh as int == cs[find_char_from(cs, s_char, 0)].pixels.height,
                                    char_total_width as int * 4 == seg.len(),
                                    seg == char_row_seg(
                                        cs,
                                        self.bgra,
                                        s_char,
                                        string_y as int,
                                        sp,
                                        wmax,
                                    ),
                                    find_char_from(cs, s_char, 0) >= 0,
                                    vec@ == seg_base + seg.subrange(0, 4 * w2 as int),
                                decreases char_total_width - w2,
                            {
                                vec.push(0);
                                vec.push(0);
                                vec.push(0);
                                vec.push(0);
                                proof {
                                    assert(vec@ =~= seg_base + seg.subrange(
                                        0,
                                        4 * (w2 as int) + 4,
                                    ));
                                }
                                w2 = w2 + 1;
                            }
                        } else {
                            let ghost gidx = find_char_from(cs, s_char, 0);
                            let glyph_len: usize = self.chars[gi].pixels.bytes.len();
                            let mut w2: usize = 0;
                            while w2 < char_total_width
                                invariant
                                    w2 <= char_total_width,
                                    cs == self.chars@,
                                    gidx == find_char_from(cs, s_char, 0),
                                    0 <= gidx < cs.len(),
                                    gi as int == gidx,
                                    gi < self.chars@.len(),
                                    gw == cs[gidx].pixels.width,
                                    gh == cs[gidx].pixels.height,
                                    string_y < gh,
                                    cs[gidx].pixels.well_formed(),
                                    glyph_len == cs[gidx].pixels.bytes@.len(),
                                    char_total_width as int * 4 == seg.len(),
                                    seg == char_row_seg(
                                        cs,
                                        self.bgra,
                                        s_char,
                                        string_y as int,
                                        sp,
                                        wmax,
                                    ),
                                    vec@ == seg_base + seg.subrange(0, 4 * w2 as int),
                                decreases char_total_width - w2,
                            {
                                if w2 >= gw {
                                    vec.push(0);
                                    vec.push(0);
                                    vec.push(0);
                                    vec.push(0);
                                } else {
                                    proof {
                                        assert((4 * (gw as int)) * (string_y as int) + 4 * (
                                        w2 as int) + 3 < (gw as int) * (gh as int) * 4)
                                            by (nonlinear_arith)
                                            requires
                                                0 <= (w2 as int) && (w2 as int) < (gw as int),
                                                0 <= (string_y as int) && (string_y as int) < (
                                                gh as int),
                                        ;
                                        vstd::arithmetic::mul::lemma_mul_nonnegative(
                                            4 * (gw as int),
                                            string_y as int,
                                        );
                                        assert((gw as int) * (gh as int) * 4 == glyph_len);
                                    }
                                    let i2: usize = (4 * gw) * string_y + 4 * w2;
                                    vec.push(self.chars[gi].pixels.bytes[i2]);
                                    vec.push(self.chars[gi].pixels.bytes[i2 + 1]);
                                    vec.push(self.chars[gi].pixels.bytes[i2 + 2]);
                                    vec.push(self.chars[gi].pixels.bytes[i2 + 3]);
                                }
                                proof {
                                    assert forall|p: int|
                                        4 * (w2 as int) <= p < 4 * (w2 as int) + 4 implies seg[p]
                                        == vec@[seg_base.len() + p] by {
                                        assert(p / 4 == w2 as int);
                                    }
                                    assert(vec@ =~= seg_base + seg.subrange(
                                        0,
                                        4 * (w2 as int) + 4,
                                    ));
                                }
                                w2 = w2 + 1;
                            }
                        }
                        if string_y == 0 {
                            vec_width = vec_width + char_total_width;
                        }
                    },
                    None => {
                        let fallback_w: usize = if char_spacing >= 0 {
                            widest_char_width_v + (char_spacing as usize)
                        } else {
                            widest_char_width_v
                        };
                        proof {
                            assert(fallback_w as int == fallback_width(wmax, sp));
                            assert(fallback_w as int == char_width(cs, s_char, sp, wmax));
                        }
                        let mut w2: usize = 0;
                        while w2 < fallback_w
                            invariant
                                w2 <= fallback_w,
                                fallback_w as int * 4 == seg.len(),
                                seg == char_row_seg(
                                    cs,
                                    self.bgra,
                                    s_char,
                                    string_y as int,
                                    sp,
                                    wmax,
                                ),
                                find_char_from(cs, s_char, 0) == -1,
                                wmax == widest_char_width_v as int,
                                sp == char_spacing as int,
                                vec@ == seg_base + seg.subrange(0, 4 * w2 as int),
                            decreases fallback_w - w2,
                        {
                            vec.push(self.bgra.0);
                            vec.push(self.bgra.1);
                            vec.push(self.bgra.2);
                            vec.push(255);
                            proof {
                                assert forall|p: int|
                                    4 * (w2 as int) <= p < 4 * (w2 as int) + 4 implies seg[p]
                                    == vec@[seg_base.len() + p] by {
                                    assert(p / 4 == w2 as int);
                                    assert(p % 4 == p - 4 * (w2 as int));
                                }
                                assert(vec@ =~= seg_base + seg.subrange(0, 4 * (w2 as int) + 4));
                            }
                            w2 = w2 + 1;
                        }
                        if string_y == 0 {
                            vec_width = vec_width + fallback_w;
                        }
                    },
                }
                proof {
                    assert(seg.subrange(0, seg.len() as int) =~= seg);
                    assert(vec@ =~= row_base + row_prefix(
                        cs,
                        self.bgra,
                        text,
                        k as int + 1,
                        string_y as int,
                        sp,
                        wmax,
                    ));
                }
                k = k + 1;
            }
            string_y = string_y + 1;
        }
        proof {
            lemma_composed_rows_len(cs, self.bgra, text, tallest_char_height_v as int, sp, wmax);
            assert((tallest_char_height_v as int) * (4 * total_w) == total_w * 4 * (
            tallest_char_height_v as int)) by (nonlinear_arith);
            assert(total_w * (tallest_char_height_v as int) * 4 == total_w * 4 * (
            tallest_char_height_v as int)) by (nonlinear_arith);
        }
        let pixels: PixelsCollection<u8> = match PixelsCollection::<u8>::create(
            vec_width,
            tallest_char_height_v,
            vec,
        ) {
            Ok(pc) => pc,
            Err(_) => {
                proof {
                    assert(false);
                }
                vstd::pervasive::unreached()
            },
        };
        PixelsString { bgra: self.bgra, pixels }
    }
}

} // verus!
