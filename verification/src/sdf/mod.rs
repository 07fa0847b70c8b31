//! Signed-distance-field text rendering: glyphs, symbol layout and collision.
use vstd::prelude::*;

pub mod bidi;
pub mod buckets;
pub mod collision_system;
pub mod feature_index;
pub mod font_stack;
pub mod geometry_tile_data;
pub mod glyph;
pub mod glyph_atlas;
pub mod gray_image;
pub mod i18n;
pub mod key_order;
pub mod image_atlas;
pub mod layout;
pub mod style_types;
pub mod util;

verus! {

/// A tile of the canonical tile pyramid.
#[derive(Clone, Copy, Debug, PartialEq, Eq, Structural)]
pub struct CanonicalTileID {
    pub z: u8,
    pub x: u32,
    pub y: u32,
}

} // verus!
pub mod text;
pub mod u16_string;
pub mod grid_index;
pub mod tagged_string;
