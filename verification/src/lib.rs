//! A verified pixel-manipulation library: BGRA channel codecs for planar
//! (4 bytes per pixel) and packed (one 32-bit word per pixel) buffers,
//! a bounding-box scanner with gap tolerance, glyph segmentation of a
//! sprite-sheet raster, and text composition from segmented glyphs.

use vstd::prelude::*;

pub mod bgra_management;
pub mod bytes_alterators;
pub mod bytes_matchers;
pub mod chars;
pub mod codec;
pub mod endian;
pub mod image_io;
pub mod pixels;
pub mod pixels_string;
pub mod scan;

pub use crate::pixels::PixelValues;
pub use crate::pixels::PixelsCollection;

verus! {

/// The ways an operation of this library can fail.
#[derive(Debug, Clone, PartialEq, Eq)]
pub enum PixelError {
    /// A sample count disagrees with `width * height * units_per_pixel`.
    ShapeMismatch,
    /// A scan matched zero pixels, so its bounding dimensions are undefined.
    NoMatchFound,
    /// The sheet width was exhausted before all requested characters were placed.
    IncompleteGlyphSet,
    /// A channel swap was given an out-of-range or equal index pair.
    InvalidChannelIndex,
    /// An image byte stream could not be decoded (reported by the codec).
    DecodeError(String),
    /// A file could not be read or written (reported by the caller's runtime).
    IoError(String),
}

/// How the BGRA bytes representing pixels' colors sent to a display surface
/// are to be treated.  The library only models the choice; the surface
/// itself is outside it.
#[derive(Debug, Clone, Copy)]
pub enum PixelsSendMode {
    /// Pixels are sent honoring each pixel's own alpha value.
    AlphaEnabled,
    /// Pixels are sent fully opaque, ignoring their alpha values.
    AlphaDisabled,
    /// Pixels are sent fully opaque, except that the given BGR color is
    /// sent as completely transparent.
    AlphaDisabledHideBGR(u8, u8, u8),
    /// Every pixel is sent with the provided constant alpha value.
    CustomAlpha(u8),
}

impl PixelsSendMode {
    /// The mode a surface actually honors: a constant alpha of 255 is the
    /// same as disabling the alpha channel, and every other mode stands.
    pub fn effective(self) -> (r: PixelsSendMode)
        ensures
            r == (match self {
                PixelsSendMode::CustomAlpha(a) => if a == 255 {
                    PixelsSendMode::AlphaDisabled
                } else {
                    PixelsSendMode::CustomAlpha(a)
                },
                m => m,
            }),
    {
        match self {
            PixelsSendMode::CustomAlpha(a) => {
                if a == 255 {
                    PixelsSendMode::AlphaDisabled
                } else {
                    PixelsSendMode::CustomAlpha(a)
                }
            },
            m => m,
        }
    }
}

/// The values that locate a rectangular area of a display surface.
#[derive(Debug, Clone, Copy)]
pub struct ScreenArea {
    /// Horizontal position of the upper-left corner of the rectangle.
    pub upperleftcorner_x: i32,
    /// Vertical position of the upper-left corner of the rectangle.
    pub upperleftcorner_y: i32,
    /// Width of the rectangle.
    pub width: u32,
    /// Height of the rectangle.
    pub height: u32,
}

} // verus!
