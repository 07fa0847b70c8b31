//! Tile coordinates and zoom levels.
use vstd::prelude::*;
use vstd::arithmetic::power2::pow2;

verus! {

/// Number of tiles along one axis at each zoom level: `ZOOM_BOUNDS[z] == 2^z`.
pub const ZOOM_BOUNDS: [u32; 32] = [1, 2, 4, 8, 16, 32, 64, 128, 256, 512, 1024, 2048, 4096, 8192, 16384, 32768, 65536, 131072, 262144, 524288, 1048576, 2097152, 4194304, 8388608, 16777216, 33554432, 67108864, 134217728, 268435456, 536870912, 1073741824, 2147483648];

/// The number of tiles along one axis at zoom `z`.
pub open spec fn tiles_per_axis(z: nat) -> nat {
    pow2(z)
}

/// The table holds `2^z` at every zoom level it covers.
pub proof fn lemma_zoom_bounds(z: int)
    requires
        0 <= z < 32,
    ensures
        ZOOM_BOUNDS@[z] == tiles_per_axis(z as nat),
{
    vstd::arithmetic::power2::lemma2_to64();
    vstd::arithmetic::power2::lemma2_to64_rest();
}

/// A zoom level of the tile pyramid.
#[derive(Clone, Copy, Debug, PartialEq, Eq, Structural, Hash)]
pub struct ZoomLevel(pub u8);

impl ZoomLevel {
    pub fn new(z: u8) -> (r: ZoomLevel)
        ensures
            r.0 == z,
    {
        ZoomLevel(z)
    }
}

impl From<ZoomLevel> for u8 {
    fn from(z: ZoomLevel) -> (r: u8) {
        z.0
    }
}

impl vstd::std_specs::convert::FromSpecImpl<ZoomLevel> for u8 {
    open spec fn obeys_from_spec() -> bool {
        true
    }

    open spec fn from_spec(z: ZoomLevel) -> u8 {
        z.0
    }
}

/// Coordinates of a tile in the (possibly repeated) world: `x` may leave the canonical range,
/// as the world repeats east and west.
#[derive(Clone, Copy, Debug, PartialEq, Eq, Structural, Hash)]
pub struct WorldTileCoords {
    pub x: i32,
    pub y: i32,
    pub z: ZoomLevel,
}

/// Coordinates of a tile within the canonical tile pyramid.
#[derive(Clone, Copy, Debug, PartialEq, Eq, Structural, Hash)]
pub struct TileCoords {
    pub x: u32,
    pub y: u32,
    pub z: ZoomLevel,
}

} // verus!
