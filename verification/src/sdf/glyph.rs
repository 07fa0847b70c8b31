//! Glyph identifiers, metrics and the ranges in which glyphs are requested.
use vstd::prelude::*;
use crate::sdf::bidi::Char16;
use core::ops::Range;

verus! {

/// Glyph bitmaps are not carried yet.
#[derive(Default)]
pub struct AlphaImage;

pub type GlyphID = Char16;

/// Glyphs are requested in ranges of 256 code units.
pub type GlyphRange = Range<u16>;

/// The first code unit of the range of 256 that holds `glyph`.
pub open spec fn glyph_range_start(glyph: GlyphID) -> int {
    (glyph as int / 256) * 256
}

/// The range of 256 glyphs that holds `glyph`, as the half-open range `start..start + 255`
/// (only the Basic Multilingual Plane is covered).
pub fn getGlyphRange(glyph: GlyphID) -> (r: GlyphRange)
    ensures
        r.start == glyph_range_start(glyph),
        r.end == glyph_range_start(glyph) + 255,
        r.start <= glyph <= r.end,
{
    let mut start: u16 = (glyph / 256) * 256;
    let mut end: u16 = start + 255;
    if start > 65280 {
        start = 65280;
    }
    if end > 65535 {
        end = 65535;
    }
    start..end
}

/// Glyph ranges are the aligned blocks of 256 code units: the range of `glyph` starts at a
/// multiple of 256 at most `glyph` and less than 256 below it, so two code units get the same
/// range exactly when they lie in the same block.
pub proof fn law_glyph_ranges_are_aligned_blocks(a: GlyphID, b: GlyphID)
    ensures
        glyph_range_start(a) % 256 == 0,
        glyph_range_start(a) <= a < glyph_range_start(a) + 256,
        0 <= glyph_range_start(a) <= 65280,
        (glyph_range_start(a) == glyph_range_start(b)) <==> (a as int / 256 == b as int / 256),
{
}

#[derive(PartialEq, Eq, Structural, Default, Copy, Clone)]
pub struct GlyphMetrics {
    pub width: u32,
    pub height: u32,
    pub left: i32,
    pub top: i32,
    pub advance: u32,
}

#[derive(Default)]
pub struct Glyph {
    // We're using this value throughout the Mapbox GL ecosystem. If this is
    // different, the glyphs also need to be reencoded.
    pub id: GlyphID,
    // A signed distance field of the glyph with a border (see above).
    pub bitmap: AlphaImage,
    // Glyph metrics
    pub metrics: GlyphMetrics,
}

impl Glyph {
    pub const borderSize: u8 = 3;
}

} // verus!
