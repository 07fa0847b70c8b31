//! Where each glyph of each font stack lies in the glyph atlas.
use vstd::prelude::*;
use std::collections::BTreeMap;
use crate::euclid::Rect;
use crate::sdf::font_stack::FontStackHash;
use crate::sdf::glyph::{GlyphID, GlyphMetrics};

verus! {

/// Atlas bitmaps are not carried yet.
pub struct AlphaImage;

#[derive(Clone, Copy, Default)]
pub struct GlyphPosition {
    pub rect: Rect<u16>,
    pub metrics: GlyphMetrics,
}

pub type GlyphPositionMap = BTreeMap<GlyphID, GlyphPosition>;

pub type GlyphPositions = BTreeMap<FontStackHash, GlyphPositionMap>;

pub struct GlyphAtlas {
    pub image: AlphaImage,
    pub positions: GlyphPositions,
}

} // verus!
