//! In-memory decoding and encoding of raster image bytes.
//!
//! The codec itself is the `image` crate's: its calls stand behind
//! trusted declarations whose contracts state only what that crate's
//! source shows.  The dimensions and samples an opaque image value
//! carries are given names, so that the verified conversion functions
//! here can say exactly which pixel buffer a decode yields and which
//! byte stream an encode yields.

use vstd::prelude::*;

use crate::PixelError;
use crate::pixels::PixelsCollection;

verus! {

/// A decoded image of the `image` crate, opaque to the verifier.
#[verifier::external_type_specification]
#[verifier::external_body]
pub struct ExDynamicImage(image::DynamicImage);

/// An RGBA pixel matrix of the `image` crate (`image::RgbaImage`).
/// Verus refuses to declare `image::ImageBuffer` itself, whose
/// declaration carries an outside trait bound, so the matrix lives in
/// a private field here and is spoken of only through
/// [`rgba_buffer_width`], [`rgba_buffer_height`] and
/// [`rgba_buffer_data`].
#[verifier::external_body]
pub struct RgbaBuffer {
    inner: image::RgbaImage,
}

/// An RGB pixel matrix of the `image` crate (`image::RgbImage`), held
/// opaquely for the same reason as [`RgbaBuffer`].
#[verifier::external_body]
pub struct RgbBuffer {
    inner: image::RgbImage,
}

/// The width, in pixels, of a decoded image.
pub uninterp spec fn dyn_width(img: image::DynamicImage) -> nat;

/// The height, in pixels, of a decoded image.
pub uninterp spec fn dyn_height(img: image::DynamicImage) -> nat;

/// A decoded image's pixels as RGBA bytes, row-major, four per pixel.
pub uninterp spec fn dyn_rgba_data(img: image::DynamicImage) -> Seq<u8>;

/// A decoded image's pixels as RGB bytes, row-major, three per pixel,
/// with any alpha discarded.
pub uninterp spec fn dyn_rgb_data(img: image::DynamicImage) -> Seq<u8>;

/// The width an RGBA pixel matrix was built with.
pub uninterp spec fn rgba_buffer_width(b: RgbaBuffer) -> nat;

/// The height an RGBA pixel matrix was built with.
pub uninterp spec fn rgba_buffer_height(b: RgbaBuffer) -> nat;

/// The byte container an RGBA pixel matrix holds.
pub uninterp spec fn rgba_buffer_data(b: RgbaBuffer) -> Seq<u8>;

/// The width an RGB pixel matrix was built with.
pub uninterp spec fn rgb_buffer_width(b: RgbBuffer) -> nat;

/// The height an RGB pixel matrix was built with.
pub uninterp spec fn rgb_buffer_height(b: RgbBuffer) -> nat;

/// The byte container an RGB pixel matrix holds.
pub uninterp spec fn rgb_buffer_data(b: RgbBuffer) -> Seq<u8>;

/// The PNG stream encoding a `w x h` RGBA sample run.
pub uninterp spec fn png_bytes_of_rgba(w: int, h: int, data: Seq<u8>) -> Seq<u8>;

/// The PNG stream encoding a `w x h` RGB sample run.
pub uninterp spec fn png_bytes_of_rgb(w: int, h: int, data: Seq<u8>) -> Seq<u8>;

/// Whether the codec can decode the byte stream at all.
pub uninterp spec fn decode_ok(data: Seq<u8>) -> bool;

/// The width, in pixels, of the image a byte stream decodes to.
pub uninterp spec fn decoded_width_of(data: Seq<u8>) -> nat;

/// The height, in pixels, of the image a byte stream decodes to.
pub uninterp spec fn decoded_height_of(data: Seq<u8>) -> nat;

/// The RGBA samples of the image a byte stream decodes to.
pub uninterp spec fn decoded_rgba_of(data: Seq<u8>) -> Seq<u8>;

/// The RGB samples of the image a byte stream decodes to, with any
/// alpha discarded.
pub uninterp spec fn decoded_rgb_of(data: Seq<u8>) -> Seq<u8>;

/// Relies on `image::load_from_memory`: it guesses the format of the
/// byte stream and decodes it, all in memory, so both the outcome and
/// the decoded image are functions of the bytes alone; the named
/// dimensions and samples of the result are the stream's own.
#[verifier::external_body]
fn image_load_from_memory(data: &[u8]) -> (r: Result<image::DynamicImage, String>)
    ensures
        r is Ok <==> decode_ok(data@),
        r matches Ok(img) ==> {
            &&& dyn_width(img) == decoded_width_of(data@)
            &&& dyn_height(img) == decoded_height_of(data@)
            &&& dyn_rgba_data(img) == decoded_rgba_of(data@)
            &&& dyn_rgb_data(img) == decoded_rgb_of(data@)
        },
{
    match image::load_from_memory(data) {
        Ok(img) => Ok(img),
        Err(e) => Err(format!("{}", e)),
    }
}

/// Relies on `image::DynamicImage::to_rgba8`: it converts the image to
/// a fresh RGBA matrix of the same dimensions, allocated at exactly
/// four bytes per pixel.
#[verifier::external_body]
fn image_to_rgba8(img: &image::DynamicImage) -> (r: RgbaBuffer)
    ensures
        rgba_buffer_width(r) == dyn_width(*img),
        rgba_buffer_height(r) == dyn_height(*img),
        rgba_buffer_data(r) == dyn_rgba_data(*img),
        rgba_buffer_data(r).len() == 4 * dyn_width(*img) * dyn_height(*img),
{
    RgbaBuffer { inner: img.to_rgba8() }
}

/// Relies on `image::DynamicImage::to_rgb8`: it converts the image to
/// a fresh RGB matrix of the same dimensions, allocated at exactly
/// three bytes per pixel.
#[verifier::external_body]
fn image_to_rgb8(img: &image::DynamicImage) -> (r: RgbBuffer)
    ensures
        rgb_buffer_width(r) == dyn_width(*img),
        rgb_buffer_height(r) == dyn_height(*img),
        rgb_buffer_data(r) == dyn_rgb_data(*img),
        rgb_buffer_data(r).len() == 3 * dyn_width(*img) * dyn_height(*img),
{
    RgbBuffer { inner: img.to_rgb8() }
}

/// Relies on `image::ImageBuffer::dimensions`: it returns the width
/// and height the matrix was built with.
#[verifier::external_body]
fn rgba_dimensions(b: &RgbaBuffer) -> (r: (u32, u32))
    ensures
        r.0 == rgba_buffer_width(*b),
        r.1 == rgba_buffer_height(*b),
{
    b.inner.dimensions()
}

/// Relies on `image::ImageBuffer::dimensions`: it returns the width
/// and height the matrix was built with.
#[verifier::external_body]
fn rgb_dimensions(b: &RgbBuffer) -> (r: (u32, u32))
    ensures
        r.0 == rgb_buffer_width(*b),
        r.1 == rgb_buffer_height(*b),
{
    b.inner.dimensions()
}

/// Relies on `image::ImageBuffer::into_raw`: it hands back the byte
/// container the matrix holds, unchanged.
#[verifier::external_body]
fn rgba_into_raw(b: RgbaBuffer) -> (r: Vec<u8>)
    ensures
        r@ == rgba_buffer_data(b),
{
    b.inner.into_raw()
}

/// Relies on `image::ImageBuffer::into_raw`: it hands back the byte
/// container the matrix holds, unchanged.
#[verifier::external_body]
fn rgb_into_raw(b: RgbBuffer) -> (r: Vec<u8>)
    ensures
        r@ == rgb_buffer_data(b),
{
    b.inner.into_raw()
}

/// Relies on `image::ImageBuffer::from_raw`: it keeps the container
/// whole and succeeds exactly when the container holds at least four
/// bytes per pixel of the requested dimensions.
#[verifier::external_body]
fn rgba_from_raw(w: u32, h: u32, buf: Vec<u8>) -> (r: Option<RgbaBuffer>)
    ensures
        r is Some <==> 4 * (w as int) * (h as int) <= buf@.len(),
        r matches Some(b) ==> {
            &&& rgba_buffer_width(b) == w
            &&& rgba_buffer_height(b) == h
            &&& rgba_buffer_data(b) == buf@
        },
{
    match image::RgbaImage::from_raw(w, h, buf) {
        Some(inner) => Some(RgbaBuffer { inner }),
        None => None,
    }
}

/// Relies on `image::ImageBuffer::from_raw`: it keeps the container
/// whole and succeeds exactly when the container holds at least three
/// bytes per pixel of the requested dimensions.
#[verifier::external_body]
fn rgb_from_raw(w: u32, h: u32, buf: Vec<u8>) -> (r: Option<RgbBuffer>)
    ensures
        r is Some <==> 3 * (w as int) * (h as int) <= buf@.len(),
        r matches Some(b) ==> {
            &&& rgb_buffer_width(b) == w
            &&& rgb_buffer_height(b) == h
            &&& rgb_buffer_data(b) == buf@
        },
{
    match image::RgbImage::from_raw(w, h, buf) {
        Some(inner) => Some(RgbBuffer { inner }),
        None => None,
    }
}

/// Relies on `image::ImageBuffer::write_to` with the PNG format: it
/// encodes exactly the matrix's pixel samples (four bytes per pixel of
/// its dimensions) into the stream it is given, here an in-memory one
/// that cannot fail to take the bytes.  The PNG encoder refuses
/// exactly a zero width or height and nothing else for 8-bit RGBA
/// samples of a matching count, which the matrix guarantees.
#[verifier::external_body]
fn rgba_encode_png(b: &RgbaBuffer) -> (r: Result<Vec<u8>, String>)
    ensures
        r is Ok <==> (rgba_buffer_width(*b) > 0 && rgba_buffer_height(*b) > 0),
        r matches Ok(v) ==> v@ == png_bytes_of_rgba(
            rgba_buffer_width(*b) as int,
            rgba_buffer_height(*b) as int,
            rgba_buffer_data(*b).take(
                4 * (rgba_buffer_width(*b) as int) * (rgba_buffer_height(*b) as int),
            ),
        ),
{
    let mut data: Vec<u8> = Vec::new();
    match b.inner.write_to(&mut std::io::Cursor::new(&mut data), image::ImageFormat::Png) {
        Ok(()) => Ok(data),
        Err(e) => Err(format!("{}", e)),
    }
}

/// Relies on `image::ImageBuffer::write_to` with the PNG format: it
/// encodes exactly the matrix's pixel samples (three bytes per pixel of
/// its dimensions) into the stream it is given, here an in-memory one
/// that cannot fail to take the bytes.  The PNG encoder refuses
/// exactly a zero width or height and nothing else for 8-bit RGB
/// samples of a matching count, which the matrix guarantees.
#[verifier::external_body]
fn rgb_encode_png(b: &RgbBuffer) -> (r: Result<Vec<u8>, String>)
    ensures
        r is Ok <==> (rgb_buffer_width(*b) > 0 && rgb_buffer_height(*b) > 0),
        r matches Ok(v) ==> v@ == png_bytes_of_rgb(
            rgb_buffer_width(*b) as int,
            rgb_buffer_height(*b) as int,
            rgb_buffer_data(*b).take(
                3 * (rgb_buffer_width(*b) as int) * (rgb_buffer_height(*b) as int),
            ),
        ),
{
    let mut data: Vec<u8> = Vec::new();
    match b.inner.write_to(&mut std::io::Cursor::new(&mut data), image::ImageFormat::Png) {
        Ok(()) => Ok(data),
        Err(e) => Err(format!("{}", e)),
    }
}

/// An RGB byte run re-laid as RGBA: each three-byte pixel keeps its
/// channels and gains a fully opaque alpha.
pub open spec fn rgb_padded_to_rgba(s: Seq<u8>) -> Seq<u8> {
    Seq::new(
        ((s.len() / 3) * 4) as nat,
        |j: int|
            if j % 4 == 3 {
                255u8
            } else {
                s[(j / 4) * 3 + j % 4]
            },
    )
}

/// An RGBA byte run re-laid as RGB: each four-byte pixel keeps its
/// color channels and drops its alpha.
pub open spec fn rgba_stripped_to_rgb(s: Seq<u8>) -> Seq<u8> {
    Seq::new(
        ((s.len() / 4) * 3) as nat,
        |j: int| s[(j / 3) * 4 + j % 3],
    )
}

/// Re-lays an RGB byte run as RGBA, pixel by pixel, with every alpha
/// fully opaque.
fn pad_rgb_to_rgba(src: &Vec<u8>) -> (r: Vec<u8>)
    ensures
        r@ == rgb_padded_to_rgba(src@),
{
    let mut out: Vec<u8> = Vec::new();
    let n: usize = src.len() / 3;
    proof {
        assert(3 * ((src@.len() as int) / 3) <= src@.len() as int) by (nonlinear_arith);
    }
    let mut px: usize = 0;
    while px < n
        invariant
            px <= n,
            n == src@.len() / 3,
            3 * n <= src@.len() <= usize::MAX,
            out@.len() == 4 * px,
            out@ =~= rgb_padded_to_rgba(src@).subrange(0, 4 * px as int),
        decreases n - px,
    {
        let i: usize = 3 * px;
        out.push(src[i]);
        out.push(src[i + 1]);
        out.push(src[i + 2]);
        out.push(255);
        proof {
            assert forall|p: int| 0 <= p < 4 * (px as int) + 4 implies out@[p]
                == rgb_padded_to_rgba(src@)[p] by {
                if p >= 4 * (px as int) {
                    assert(p / 4 == px as int);
                    assert(p % 4 == p - 4 * (px as int));
                }
            }
            assert(out@ =~= rgb_padded_to_rgba(src@).subrange(0, 4 * (px as int) + 4));
        }
        px = px + 1;
    }
    proof {
        assert(out@ =~= rgb_padded_to_rgba(src@));
    }
    out
}

/// Re-lays an RGBA byte run as RGB, pixel by pixel, dropping each
/// pixel's alpha.
fn strip_rgba_to_rgb(src: &Vec<u8>) -> (r: Vec<u8>)
    ensures
        r@ == rgba_stripped_to_rgb(src@),
{
    let mut out: Vec<u8> = Vec::new();
    let n: usize = src.len() / 4;
    proof {
        assert(4 * ((src@.len() as int) / 4) <= src@.len() as int) by (nonlinear_arith);
    }
    let mut px: usize = 0;
    while px < n
        invariant
            px <= n,
            n == src@.len() / 4,
            4 * n <= src@.len() <= usize::MAX,
            out@.len() == 3 * px,
            out@ =~= rgba_stripped_to_rgb(src@).subrange(0, 3 * px as int),
        decreases n - px,
    {
        let i: usize = 4 * px;
        out.push(src[i]);
        out.push(src[i + 1]);
        out.push(src[i + 2]);
        proof {
            assert forall|p: int| 0 <= p < 3 * (px as int) + 3 implies out@[p]
                == rgba_stripped_to_rgb(src@)[p] by {
                if p >= 3 * (px as int) {
                    assert(p / 3 == px as int);
                    assert(p % 3 == p - 3 * (px as int));
                }
            }
            assert(out@ =~= rgba_stripped_to_rgb(src@).subrange(0, 3 * (px as int) + 3));
        }
        px = px + 1;
    }
    proof {
        assert(out@ =~= rgba_stripped_to_rgb(src@));
    }
    out
}

/// Builds a pixel buffer from a decoded image: with the alpha channel,
/// the image's RGBA samples as they are; without it, the image's RGB
/// samples with every pixel made fully opaque.  An image with no rows
/// cannot fill a buffer and is refused as a shape mismatch.
pub fn dynamic_image_to_pixels_collection(
    image: image::DynamicImage,
    has_alpha_channel: bool,
) -> (r: Result<PixelsCollection<u8>, PixelError>)
    ensures
        r is Ok <==> dyn_height(image) > 0,
        r matches Ok(pc) ==> {
            &&& pc.well_formed()
            &&& pc.width == dyn_width(image)
            &&& pc.height == dyn_height(image)
            &&& (has_alpha_channel ==> pc.bytes@ == dyn_rgba_data(image))
            &&& (!has_alpha_channel ==> pc.bytes@ == rgb_padded_to_rgba(dyn_rgb_data(image)))
        },
        r matches Err(e) ==> e == PixelError::ShapeMismatch,
{
    if has_alpha_channel {
        let buf: RgbaBuffer = image_to_rgba8(&image);
        let (w, h): (u32, u32) = rgba_dimensions(&buf);
        let bytes: Vec<u8> = rgba_into_raw(buf);
        proof {
            assert((w as int) * (h as int) * 4 == 4 * (w as int) * (h as int))
                by (nonlinear_arith);
        }
        PixelsCollection::<u8>::create(w as usize, h as usize, bytes)
    } else {
        let buf: RgbBuffer = image_to_rgb8(&image);
        let (w, h): (u32, u32) = rgb_dimensions(&buf);
        let rgb_bytes: Vec<u8> = rgb_into_raw(buf);
        let bytes: Vec<u8> = pad_rgb_to_rgba(&rgb_bytes);
        proof {
            let wi = w as int;
            let hi = h as int;
            assert(3 * wi * hi == 3 * (wi * hi)) by (nonlinear_arith);
            vstd::arithmetic::div_mod::lemma_div_multiples_vanish(wi * hi, 3);
            assert((3 * (wi * hi)) / 3 == 3 * (wi * hi) / 3);
            assert(((3 * wi * hi) / 3) * 4 == wi * hi * 4) by (nonlinear_arith)
                requires
                    (3 * wi * hi) / 3 == wi * hi,
            ;
            assert(wi * hi * 4 == 4 * wi * hi) by (nonlinear_arith);
        }
        PixelsCollection::<u8>::create(w as usize, h as usize, bytes)
    }
}

/// Decodes an in-memory image byte stream and builds a pixel buffer
/// from it, as [`dynamic_image_to_pixels_collection`] does: the stream
/// decides everything.  A stream the codec cannot decode is reported
/// with the codec's message; one that decodes to an image with no rows
/// is refused as a shape mismatch.
pub fn dynamic_image_data_to_pixels_collection(
    image_data: Vec<u8>,
    has_alpha_channel: bool,
) -> (r: Result<PixelsCollection<u8>, PixelError>)
    ensures
        r is Ok <==> (decode_ok(image_data@) && decoded_height_of(image_data@) > 0),
        r matches Ok(pc) ==> {
            &&& pc.well_formed()
            &&& pc.width == decoded_width_of(image_data@)
            &&& pc.height == decoded_height_of(image_data@)
            &&& (has_alpha_channel ==> pc.bytes@ == decoded_rgba_of(image_data@))
            &&& (!has_alpha_channel ==> pc.bytes@ == rgb_padded_to_rgba(
                decoded_rgb_of(image_data@),
            ))
        },
        !decode_ok(image_data@) ==> (r matches Err(e) && e is DecodeError),
        (decode_ok(image_data@) && decoded_height_of(image_data@) == 0) ==> r == Err::<
            PixelsCollection<u8>,
            PixelError,
        >(PixelError::ShapeMismatch),
{
    match image_load_from_memory(image_data.as_slice()) {
        Ok(img) => dynamic_image_to_pixels_collection(img, has_alpha_channel),
        Err(e) => Err(PixelError::DecodeError(e)),
    }
}

/// Encodes a pixel buffer as an in-memory PNG stream: with the alpha
/// channel kept, its samples are encoded as RGBA; with it dropped,
/// each pixel's alpha byte is stripped and the rest encoded as RGB.
/// Encoding succeeds exactly when the buffer holds the samples its own
/// dimensions call for and neither dimension is zero; a short sample
/// run is refused as a shape mismatch, and the codec's refusal of an
/// empty image is reported with its message.
pub fn pixels_collection_to_dynamic_image_data(
    pixels_collection: PixelsCollection<u8>,
    keep_alpha_channel: bool,
) -> (r: Result<Vec<u8>, PixelError>)
    requires
        pixels_collection.width <= u32::MAX,
        pixels_collection.height <= u32::MAX,
    ensures
        ({
            let w = pixels_collection.width as int;
            let h = pixels_collection.height as int;
            let len = pixels_collection.bytes@.len() as int;
            let fits = if keep_alpha_channel {
                4 * w * h <= len
            } else {
                3 * w * h <= (len / 4) * 3
            };
            &&& (r is Ok <==> (fits && w > 0 && h > 0))
            &&& (!fits ==> r == Err::<Vec<u8>, PixelError>(PixelError::ShapeMismatch))
            &&& ((fits && (w == 0 || h == 0)) ==> (r matches Err(e) && e is DecodeError))
            &&& (r matches Ok(v) ==> {
                &&& (keep_alpha_channel ==> v@ == png_bytes_of_rgba(
                    w,
                    h,
                    pixels_collection.bytes@.take(4 * w * h),
                ))
                &&& (!keep_alpha_channel ==> v@ == png_bytes_of_rgb(
                    w,
                    h,
                    rgba_stripped_to_rgb(pixels_collection.bytes@).take(3 * w * h),
                ))
            })
        }),
{
    let w: u32 = pixels_collection.width as u32;
    let h: u32 = pixels_collection.height as u32;
    if keep_alpha_channel {
        match rgba_from_raw(w, h, pixels_collection.bytes) {
            Some(img) => {
                match rgba_encode_png(&img) {
                    Ok(data) => Ok(data),
                    Err(e) => Err(PixelError::DecodeError(e)),
                }
            },
            None => Err(PixelError::ShapeMismatch),
        }
    } else {
        let rgb: Vec<u8> = strip_rgba_to_rgb(&pixels_collection.bytes);
        match rgb_from_raw(w, h, rgb) {
            Some(img) => {
                match rgb_encode_png(&img) {
                    Ok(data) => Ok(data),
                    Err(e) => Err(PixelError::DecodeError(e)),
                }
            },
            None => Err(PixelError::ShapeMismatch),
        }
    }
}

} // verus!
