//! What the cache exchanges with the glyph rasterizer: the keys of the
//! glyphs it asks for, and the jobs that come back.
//!
//! The rasterizer works with single-precision numbers. The cache needs none
//! of their values, so it keeps them as their bit patterns.

use vstd::prelude::*;
use crate::api::{FontInstanceKey, FontKey, ImageFormat};
use crate::class_cache::CacheKey;

verus! {

/// A font at a size and with rendering options, as far as the cache tells
/// one from another: by its key and the key of its font.
#[derive(Clone, Copy, Debug, PartialEq, Eq, Structural, Hash)]
pub struct FontInstance {
    pub instance_key: FontInstanceKey,
    pub font_key: FontKey,
}

impl CacheKey for FontInstance {
    fn same(&self, other: &Self) -> (r: bool) {
        *self == *other
    }
}

/// Names a glyph of a font instance: its index in the font together with
/// its sub-pixel position.
#[derive(Clone, Copy, Debug, PartialEq, Eq, Structural, Hash)]
pub struct GlyphKey(pub u32);

impl CacheKey for GlyphKey {
    fn same(&self, other: &Self) -> (r: bool) {
        *self == *other
    }
}

/// The kind of pixels that a rasterized glyph has.
#[derive(Clone, Copy, Debug, PartialEq, Eq, Structural, Hash)]
pub enum GlyphFormat {
    Alpha,
    TransformedAlpha,
    Subpixel,
    TransformedSubpixel,
    Bitmap,
    ColorBitmap,
}

/// The pixels of a glyph and where they go relative to the pen position.
pub struct RasterizedGlyph {
    /// Distance from the baseline to the top row, a single-precision number.
    pub top: u32,
    /// Distance from the pen to the left column, a single-precision number.
    pub left: u32,
    pub width: i32,
    pub height: i32,
    /// The scale at which the glyph was rasterized, a single-precision number.
    pub scale: u32,
    pub format: GlyphFormat,
    /// The format in which the pixels are stored in the texture cache.
    pub image_format: ImageFormat,
    pub bytes: Vec<u8>,
}

/// The sign bit of a single-precision number.
pub const SIGN_BIT: u32 = 0x8000_0000;

/// The bit pattern of the negative of a single-precision number: the same
/// with the sign bit flipped.
pub open spec fn spec_negated(bits: u32) -> u32 {
    bits ^ SIGN_BIT
}

/// The bit pattern of the negative of a single-precision number.
pub fn negated(bits: u32) -> (r: u32)
    ensures
        r == spec_negated(bits),
{
    bits ^ SIGN_BIT
}

/// Why a glyph could not be rasterized.
#[derive(Clone, Copy, Debug, PartialEq, Eq, Structural, Hash)]
pub enum GlyphRasterError {
    LoadFailed,
}

/// A glyph that the rasterizer is done with.
pub struct GlyphRasterJob {
    pub font: FontInstance,
    pub key: GlyphKey,
    pub result: Result<RasterizedGlyph, GlyphRasterError>,
}

} // verus!
